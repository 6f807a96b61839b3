use vstd::prelude::*;
use crate::engine::offset_after;
use crate::error::E2EError;
use crate::model::{GreetingLoggEntry, GreetingResponse, TestTask};
use crate::registry::{
    all_verified, attach, attach_page, attach_pages, first_match, registered, task_key,
};

verus! {

/// Where the watermark stands after pages of log entries were read, one after
/// the other.
pub open spec fn offset_after_pages(offset: i64, pages: Seq<Seq<GreetingLoggEntry>>) -> i64
    decreases pages.len(),
{
    if pages.len() == 0 {
        offset
    } else {
        offset_after(offset_after_pages(offset, pages.drop_last()), pages.last())
    }
}

/// With no greetings to send, the registry is empty and every task in it is
/// trivially verified, so `next_action` answers `Complete` before any query of
/// the log's entries.
pub proof fn no_iterations_need_no_log_query(
    sent: Seq<(TestTask, Result<GreetingResponse, E2EError>)>,
)
    requires
        sent.len() == 0,
    ensures
        registered(sent) == Seq::<TestTask>::empty(),
        all_verified(registered(sent)),
{
}

proof fn lemma_attach_page_keeps(tasks: Seq<TestTask>, page: Seq<GreetingLoggEntry>, i: int)
    requires
        0 <= i < tasks.len(),
    ensures
        attach_page(tasks, page).len() == tasks.len(),
        attach_page(tasks, page)[i] == attach(tasks[i], page),
        task_key(attach_page(tasks, page)[i]) == task_key(tasks[i]),
        attach_page(tasks, page)[i].external_reference == tasks[i].external_reference,
        tasks[i].greeting_logg_entry is Some ==> attach_page(tasks, page)[i] == tasks[i],
{
}

proof fn lemma_attach_pages_len(tasks: Seq<TestTask>, pages: Seq<Seq<GreetingLoggEntry>>)
    ensures
        attach_pages(tasks, pages).len() == tasks.len(),
    decreases pages.len(),
{
    if pages.len() > 0 {
        lemma_attach_pages_len(tasks, pages.drop_last());
    }
}

proof fn lemma_first_match_none(page: Seq<GreetingLoggEntry>, key: Seq<char>)
    requires
        forall|k: int| 0 <= k < page.len() ==> (#[trigger] page[k]).message_id@ != key,
    ensures
        first_match(page, key) is None,
    decreases page.len(),
{
    if page.len() > 0 {
        lemma_first_match_none(page.drop_last(), key);
    }
}

proof fn lemma_first_match_unique(page: Seq<GreetingLoggEntry>, key: Seq<char>, j: int)
    requires
        0 <= j < page.len(),
        page[j].message_id@ == key,
        forall|k: int| 0 <= k < page.len() && k != j ==> (#[trigger] page[k]).message_id@ != key,
    ensures
        first_match(page, key) == Some(page[j]),
    decreases page.len(),
{
    if j == page.len() - 1 {
        lemma_first_match_none(page.drop_last(), key);
    } else {
        lemma_first_match_unique(page.drop_last(), key, j);
    }
}

/// Pages that hold no entry for a task leave it as it was.
proof fn lemma_unmatched_task_unchanged(
    tasks: Seq<TestTask>,
    pages: Seq<Seq<GreetingLoggEntry>>,
    i: int,
)
    requires
        0 <= i < tasks.len(),
        forall|q: int, k: int|
            0 <= q < pages.len() && 0 <= k < pages[q].len() ==> (#[trigger] pages[q][k]).message_id@
                != task_key(tasks[i]),
    ensures
        attach_pages(tasks, pages).len() == tasks.len(),
        attach_pages(tasks, pages)[i] == tasks[i],
    decreases pages.len(),
{
    lemma_attach_pages_len(tasks, pages);
    if pages.len() > 0 {
        let rest = pages.drop_last();
        assert forall|q: int, k: int|
            0 <= q < rest.len() && 0 <= k < rest[q].len() implies (#[trigger] rest[q][k]).message_id@
            != task_key(tasks[i]) by {
            assert(rest[q] == pages[q]);
        }
        lemma_unmatched_task_unchanged(tasks, rest, i);
        let prev = attach_pages(tasks, rest);
        lemma_attach_page_keeps(prev, pages.last(), i);
        assert forall|k: int| 0 <= k < pages.last().len() implies (
        #[trigger] pages.last()[k]).message_id@ != task_key(tasks[i]) by {
            assert(pages.last()[k] == pages[pages.len() - 1][k]);
        }
        lemma_first_match_none(pages.last(), task_key(tasks[i]));
    }
}

/// A sent task that the log records, by one entry among all the pages that
/// are read, ends verified with exactly that entry attached.
pub proof fn matching_entry_verifies_task(
    tasks: Seq<TestTask>,
    pages: Seq<Seq<GreetingLoggEntry>>,
    i: int,
    p: int,
    j: int,
)
    requires
        0 <= i < tasks.len(),
        tasks[i].message_id is Some,
        tasks[i].greeting_logg_entry is None,
        0 <= p < pages.len(),
        0 <= j < pages[p].len(),
        pages[p][j].message_id@ == task_key(tasks[i]),
        forall|q: int, k: int|
            0 <= q < pages.len() && 0 <= k < pages[q].len() && (q != p || k != j)
                ==> (#[trigger] pages[q][k]).message_id@ != task_key(tasks[i]),
    ensures
        attach_pages(tasks, pages).len() == tasks.len(),
        attach_pages(tasks, pages)[i].greeting_logg_entry == Some(pages[p][j]),
    decreases pages.len(),
{
    lemma_attach_pages_len(tasks, pages);
    let rest = pages.drop_last();
    let last = pages.last();
    let key = task_key(tasks[i]);
    if p == pages.len() - 1 {
        assert forall|q: int, k: int|
            0 <= q < rest.len() && 0 <= k < rest[q].len() implies (#[trigger] rest[q][k]).message_id@
            != key by {
            assert(rest[q] == pages[q]);
        }
        lemma_unmatched_task_unchanged(tasks, rest, i);
        let prev = attach_pages(tasks, rest);
        lemma_attach_page_keeps(prev, last, i);
        assert forall|k: int| 0 <= k < last.len() && k != j implies (#[trigger] last[k]).message_id@
            != key by {
            assert(last[k] == pages[p][k]);
        }
        lemma_first_match_unique(last, key, j);
    } else {
        assert forall|q: int, k: int|
            0 <= q < rest.len() && 0 <= k < rest[q].len() && (q != p || k != j) implies (
            #[trigger] rest[q][k]).message_id@ != key by {
            assert(rest[q] == pages[q]);
        }
        assert(rest[p][j] == pages[p][j]);
        matching_entry_verifies_task(tasks, rest, i, p, j);
        let prev = attach_pages(tasks, rest);
        lemma_attach_pages_len(tasks, rest);
        lemma_attach_page_keeps(prev, last, i);
    }
}

proof fn lemma_offset_after_grows(offset: i64, page: Seq<GreetingLoggEntry>)
    ensures
        offset_after(offset, page) >= offset,
        forall|k: int| 0 <= k < page.len() ==> offset_after(offset, page) >= (#[trigger] page[k]).id,
        offset_after(offset, page) == offset || exists|k: int|
            0 <= k < page.len() && offset_after(offset, page) == (#[trigger] page[k]).id,
    decreases page.len(),
{
    if page.len() > 0 {
        let rest = page.drop_last();
        lemma_offset_after_grows(offset, rest);
        assert forall|k: int| 0 <= k < page.len() implies offset_after(offset, page) >= (
        #[trigger] page[k]).id by {
            if k < page.len() - 1 {
                assert(page[k] == rest[k]);
            }
        }
        if offset_after(offset, page) != offset {
            if offset_after(offset, page) == page.last().id {
                assert(offset_after(offset, page) == page[page.len() - 1].id);
            } else {
                let k = choose|k: int|
                    0 <= k < rest.len() && offset_after(offset, rest) == (#[trigger] rest[k]).id;
                assert(page[k] == rest[k]);
            }
        }
    }
}

/// The watermark never moves back, however many pages are read.
pub proof fn offset_never_decreases(offset: i64, pages: Seq<Seq<GreetingLoggEntry>>)
    ensures
        offset_after_pages(offset, pages) >= offset,
        forall|q: int|
            0 <= q <= pages.len() ==> offset_after_pages(offset, pages) >= #[trigger] offset_after_pages(
                offset,
                pages.take(q),
            ),
    decreases pages.len(),
{
    if pages.len() > 0 {
        let rest = pages.drop_last();
        offset_never_decreases(offset, rest);
        lemma_offset_after_grows(offset_after_pages(offset, rest), pages.last());
        assert forall|q: int| 0 <= q <= pages.len() implies offset_after_pages(offset, pages)
            >= #[trigger] offset_after_pages(offset, pages.take(q)) by {
            if q == pages.len() {
                assert(pages.take(q) =~= pages);
            } else {
                assert(rest.take(q) =~= pages.take(q));
            }
        }
    }
}

/// A page whose entries match no task leaves every task as it was and still
/// moves the watermark to the largest sequence id of the page, whenever that id
/// is not below the watermark.
pub proof fn unmatched_page_advances_offset(
    tasks: Seq<TestTask>,
    offset: i64,
    page: Seq<GreetingLoggEntry>,
)
    requires
        forall|i: int, k: int|
            0 <= i < tasks.len() && 0 <= k < page.len() ==> (#[trigger] page[k]).message_id@
                != task_key(#[trigger] tasks[i]),
        exists|k: int| 0 <= k < page.len() && (#[trigger] page[k]).id >= offset,
    ensures
        attach_page(tasks, page) == tasks,
        exists|k: int| 0 <= k < page.len() && offset_after(offset, page) == (#[trigger] page[k]).id,
        forall|k: int| 0 <= k < page.len() ==> offset_after(offset, page) >= (#[trigger] page[k]).id,
{
    lemma_offset_after_grows(offset, page);
    assert forall|i: int| 0 <= i < tasks.len() implies #[trigger] attach_page(tasks, page)[i]
        == tasks[i] by {
        assert forall|k: int| 0 <= k < page.len() implies (#[trigger] page[k]).message_id@
            != task_key(tasks[i]) by {
            assert(page[k].message_id@ != task_key(tasks[i]));
        }
        lemma_first_match_none(page, task_key(tasks[i]));
    }
    assert(attach_page(tasks, page) =~= tasks);
    if offset_after(offset, page) == offset {
        let k = choose|k: int| 0 <= k < page.len() && (#[trigger] page[k]).id >= offset;
        assert(offset_after(offset, page) == page[k].id);
    }
}

/// Every registered task comes from a send that the receiver accepted.
proof fn lemma_registered_from_accepted(
    sent: Seq<(TestTask, Result<GreetingResponse, E2EError>)>,
    k: int,
)
    requires
        0 <= k < registered(sent).len(),
    ensures
        exists|a: int|
            0 <= a < sent.len() && (#[trigger] sent[a]).1 is Ok
                && registered(sent)[k].external_reference == sent[a].0.external_reference,
    decreases sent.len(),
{
    let rest = sent.drop_last();
    let prev = registered(rest);
    if k < prev.len() {
        lemma_registered_from_accepted(rest, k);
        let a = choose|a: int|
            0 <= a < rest.len() && (#[trigger] rest[a]).1 is Ok
                && prev[k].external_reference == rest[a].0.external_reference;
        assert(sent[a] == rest[a]);
    } else {
        assert(sent[sent.len() - 1] == sent.last());
    }
}

/// A task whose send failed is in no registry that the run hands back: not
/// after the sends, and not after any pages of log entries were read.
pub proof fn failed_send_never_registered(
    sent: Seq<(TestTask, Result<GreetingResponse, E2EError>)>,
    pages: Seq<Seq<GreetingLoggEntry>>,
    i: int,
)
    requires
        0 <= i < sent.len(),
        sent[i].1 is Err,
        forall|a: int, b: int|
            0 <= a < sent.len() && 0 <= b < sent.len() && a != b
                ==> (#[trigger] sent[a]).0.external_reference@
                != (#[trigger] sent[b]).0.external_reference@,
    ensures
        forall|k: int|
            0 <= k < attach_pages(registered(sent), pages).len() ==> (#[trigger] attach_pages(
                registered(sent),
                pages,
            )[k]).external_reference@ != sent[i].0.external_reference@,
    decreases pages.len(),
{
    lemma_attach_pages_len(registered(sent), pages);
    if pages.len() == 0 {
        assert forall|k: int| 0 <= k < registered(sent).len() implies (
        #[trigger] registered(sent)[k]).external_reference@ != sent[i].0.external_reference@ by {
            lemma_registered_from_accepted(sent, k);
        }
    } else {
        let rest = pages.drop_last();
        failed_send_never_registered(sent, rest, i);
        let prev = attach_pages(registered(sent), rest);
        lemma_attach_pages_len(registered(sent), rest);
        assert forall|k: int| 0 <= k < attach_pages(registered(sent), pages).len() implies (
        #[trigger] attach_pages(registered(sent), pages)[k]).external_reference@
            != sent[i].0.external_reference@ by {
            lemma_attach_page_keeps(prev, pages.last(), k);
        }
    }
}

proof fn lemma_first_match_found(page: Seq<GreetingLoggEntry>, key: Seq<char>)
    ensures
        first_match(page, key) matches Some(e) ==> exists|j: int|
            0 <= j < page.len() && #[trigger] page[j] == e && e.message_id@ == key,
    decreases page.len(),
{
    if page.len() > 0 {
        let rest = page.drop_last();
        lemma_first_match_found(rest, key);
        if first_match(rest, key) is Some {
            let e = first_match(rest, key)->Some_0;
            let j = choose|j: int| 0 <= j < rest.len() && #[trigger] rest[j] == e && e.message_id@ == key;
            assert(page[j] == rest[j]);
        } else if first_match(page, key) is Some {
            assert(page[page.len() - 1] == page.last());
        }
    }
}

proof fn lemma_attach_pages_keys(tasks: Seq<TestTask>, pages: Seq<Seq<GreetingLoggEntry>>, i: int)
    requires
        0 <= i < tasks.len(),
    ensures
        attach_pages(tasks, pages).len() == tasks.len(),
        task_key(attach_pages(tasks, pages)[i]) == task_key(tasks[i]),
    decreases pages.len(),
{
    lemma_attach_pages_len(tasks, pages);
    if pages.len() > 0 {
        lemma_attach_pages_keys(tasks, pages.drop_last(), i);
        lemma_attach_pages_len(tasks, pages.drop_last());
        lemma_attach_page_keeps(attach_pages(tasks, pages.drop_last()), pages.last(), i);
    }
}

/// No entry, or one that records the message `key`, lies after `start` and was
/// in one of `pages`.
pub open spec fn entry_from_run(
    entry: Option<GreetingLoggEntry>,
    key: Seq<char>,
    start: i64,
    pages: Seq<Seq<GreetingLoggEntry>>,
) -> bool {
    match entry {
        None => true,
        Some(e) => {
            &&& e.id > start
            &&& e.message_id@ == key
            &&& exists|q: int, k: int|
                0 <= q < pages.len() && 0 <= k < pages[q].len() && #[trigger] pages[q][k] == e
        },
    }
}

/// When each page holds only entries after the watermark at which it was
/// asked for, every entry that a run attaches to a sent task records that
/// task, was in one of the pages, and lies after the starting offset.
pub proof fn attached_entries_follow_start(
    tasks: Seq<TestTask>,
    start: i64,
    pages: Seq<Seq<GreetingLoggEntry>>,
)
    requires
        forall|i: int| 0 <= i < tasks.len() ==> (#[trigger] tasks[i]).greeting_logg_entry is None,
        forall|q: int, k: int|
            0 <= q < pages.len() && 0 <= k < pages[q].len() ==> (#[trigger] pages[q][k]).id
                > offset_after_pages(start, pages.take(q)),
    ensures
        attach_pages(tasks, pages).len() == tasks.len(),
        forall|i: int|
            0 <= i < tasks.len() ==> entry_from_run(
                (#[trigger] attach_pages(tasks, pages)[i]).greeting_logg_entry,
                task_key(tasks[i]),
                start,
                pages,
            ),
    decreases pages.len(),
{
    lemma_attach_pages_len(tasks, pages);
    if pages.len() > 0 {
        let rest = pages.drop_last();
        let last = pages.last();
        assert forall|q: int, k: int|
            0 <= q < rest.len() && 0 <= k < rest[q].len() implies (#[trigger] rest[q][k]).id
            > offset_after_pages(start, rest.take(q)) by {
            assert(rest.take(q) =~= pages.take(q));
            assert(rest[q] == pages[q]);
        }
        attached_entries_follow_start(tasks, start, rest);
        lemma_attach_pages_len(tasks, rest);
        offset_never_decreases(start, rest);
        let prev = attach_pages(tasks, rest);
        assert(pages.take(pages.len() - 1) =~= rest);
        assert forall|i: int|
            0 <= i < tasks.len() implies entry_from_run(
            (#[trigger] attach_pages(tasks, pages)[i]).greeting_logg_entry,
            task_key(tasks[i]),
            start,
            pages,
        ) by {
            lemma_attach_page_keeps(prev, last, i);
            lemma_attach_pages_keys(tasks, rest, i);
            if prev[i].greeting_logg_entry is Some {
                let e = prev[i].greeting_logg_entry->Some_0;
                let (q, k) = choose|q: int, k: int|
                    0 <= q < rest.len() && 0 <= k < rest[q].len() && #[trigger] rest[q][k] == e;
                assert(pages[q][k] == e);
            } else {
                let key = task_key(prev[i]);
                lemma_first_match_found(last, key);
                if first_match(last, key) is Some {
                    let e = first_match(last, key)->Some_0;
                    let j = choose|j: int| 0 <= j < last.len() && #[trigger] last[j] == e && e.message_id@ == key;
                    assert(pages[pages.len() - 1][j] == e);
                    assert(e.id > offset_after_pages(start, pages.take(pages.len() - 1)));
                }
            }
        }
    }
}

} // verus!
