use vstd::prelude::*;
use crate::error::E2EError;
use crate::model::{GreetingLoggEntry, GreetingResponse, TestTask};

verus! {

/// The key under which a sent task is registered: the receiver's identifier.
pub open spec fn task_key(t: TestTask) -> Seq<char> {
    match t.message_id {
        Some(k) => k@,
        None => Seq::empty(),
    }
}

/// Whether some task of `tasks` is registered under `key`.
pub open spec fn has_key(tasks: Seq<TestTask>, key: Seq<char>) -> bool {
    exists|i: int| 0 <= i < tasks.len() && #[trigger] task_key(tasks[i]) == key
}

/// Every task carries a message identifier, and no two share one.
pub open spec fn keys_unique(tasks: Seq<TestTask>) -> bool {
    &&& forall|i: int| 0 <= i < tasks.len() ==> (#[trigger] tasks[i]).message_id is Some
    &&& forall|i: int, j: int|
        0 <= i < tasks.len() && 0 <= j < tasks.len() && i != j ==> task_key(#[trigger] tasks[i])
            != task_key(#[trigger] tasks[j])
}

/// Whether every task has its log entry.
pub open spec fn all_verified(tasks: Seq<TestTask>) -> bool {
    forall|i: int| 0 <= i < tasks.len() ==> (#[trigger] tasks[i]).greeting_logg_entry is Some
}

/// The number of tasks that have their log entry.
pub open spec fn verified_count(tasks: Seq<TestTask>) -> nat
    decreases tasks.len(),
{
    if tasks.len() == 0 {
        0
    } else {
        verified_count(tasks.drop_last()) + if tasks.last().greeting_logg_entry is Some {
            1nat
        } else {
            0nat
        }
    }
}

/// A task after the receiver accepted it under `id`.
pub open spec fn sent_task(t: TestTask, id: String) -> TestTask {
    TestTask { message_id: Some(id), ..t }
}

/// The tasks after one send: an accepted one is added under its new identifier,
/// unless that identifier is taken; a failed one is left out.
pub open spec fn after_send(
    tasks: Seq<TestTask>,
    task: TestTask,
    outcome: Result<GreetingResponse, E2EError>,
) -> Seq<TestTask> {
    match outcome {
        Ok(resp) => if has_key(tasks, resp.message_id@) {
            tasks
        } else {
            tasks.push(sent_task(task, resp.message_id))
        },
        Err(_) => tasks,
    }
}

/// The registry built from sends in the order in which they were made.
pub open spec fn registered(sent: Seq<(TestTask, Result<GreetingResponse, E2EError>)>) -> Seq<
    TestTask,
>
    decreases sent.len(),
{
    if sent.len() == 0 {
        Seq::empty()
    } else {
        after_send(registered(sent.drop_last()), sent.last().0, sent.last().1)
    }
}

/// The first entry of `page` that records the message `key`.
pub open spec fn first_match(page: Seq<GreetingLoggEntry>, key: Seq<char>) -> Option<
    GreetingLoggEntry,
>
    decreases page.len(),
{
    if page.len() == 0 {
        None
    } else {
        match first_match(page.drop_last(), key) {
            Some(e) => Some(e),
            None => if page.last().message_id@ == key {
                Some(page.last())
            } else {
                None
            },
        }
    }
}

/// A task after a page of log entries was read: a verified task keeps its
/// entry, another takes the first entry of the page that records it.
pub open spec fn attach(t: TestTask, page: Seq<GreetingLoggEntry>) -> TestTask {
    match t.greeting_logg_entry {
        Some(_) => t,
        None => TestTask { greeting_logg_entry: first_match(page, task_key(t)), ..t },
    }
}

/// The tasks after a page of log entries was read.
pub open spec fn attach_page(tasks: Seq<TestTask>, page: Seq<GreetingLoggEntry>) -> Seq<TestTask> {
    tasks.map_values(|t: TestTask| attach(t, page))
}

/// The tasks after pages of log entries were read, one after the other.
pub open spec fn attach_pages(tasks: Seq<TestTask>, pages: Seq<Seq<GreetingLoggEntry>>) -> Seq<
    TestTask,
>
    decreases pages.len(),
{
    if pages.len() == 0 {
        tasks
    } else {
        attach_page(attach_pages(tasks, pages.drop_last()), pages.last())
    }
}

/// How many tasks a run tracked, and how many of them the log recorded.
#[derive(Debug, Clone, Copy, PartialEq, Eq)]
pub struct VerificationSummary {
    pub total: usize,
    pub verified: usize,
}

/// The tasks that were sent and accepted, keyed by the receiver's message
/// identifier, in the order in which they were sent.
pub struct TaskRegistry {
    tasks: Vec<TestTask>,
}

impl View for TaskRegistry {
    type V = Seq<TestTask>;

    closed spec fn view(&self) -> Seq<TestTask> {
        self.tasks@
    }
}

impl TaskRegistry {
    pub open spec fn wf(&self) -> bool {
        keys_unique(self@)
    }

    /// An empty registry.
    pub fn new() -> (r: TaskRegistry)
        ensures
            r.wf(),
            r@ == Seq::<TestTask>::empty(),
    {
        TaskRegistry { tasks: Vec::new() }
    }

    pub fn len(&self) -> (r: usize)
        ensures
            r == self@.len(),
    {
        self.tasks.len()
    }

    pub fn is_empty(&self) -> (r: bool)
        ensures
            r == (self@.len() == 0),
    {
        self.tasks.len() == 0
    }

    /// The tasks, in the order in which they were registered.
    pub fn tasks(&self) -> (r: &Vec<TestTask>)
        ensures
            r@ == self@,
    {
        &self.tasks
    }

    /// The position of the task registered under `key`, if any.
    pub fn position(&self, key: &String) -> (r: Option<usize>)
        requires
            self.wf(),
        ensures
            r matches Some(i) ==> i < self@.len() && task_key(self@[i as int]) == key@,
            r is None ==> !has_key(self@, key@),
    {
        let mut i: usize = 0;
        while i < self.tasks.len()
            invariant
                self.wf(),
                i <= self@.len(),
                forall|j: int| 0 <= j < i ==> task_key(#[trigger] self@[j]) != key@,
            decreases self@.len() - i,
        {
            let found = match &self.tasks[i].message_id {
                Some(k) => k.eq(key),
                None => false,
            };
            if found {
                return Some(i);
            }
            i = i + 1;
        }
        None
    }

    /// The task registered under `message_id`, if any.
    pub fn get(&self, message_id: &String) -> (r: Option<&TestTask>)
        requires
            self.wf(),
        ensures
            r matches Some(t) ==> task_key(*t) == message_id@ && self@.contains(*t),
            r is None ==> !has_key(self@, message_id@),
    {
        match self.position(message_id) {
            Some(i) => Some(&self.tasks[i]),
            None => None,
        }
    }

    /// Records the outcome of one send. An accepted task is registered under the
    /// identifier that the receiver gave it, unless another task holds that
    /// identifier already; a failed task is left out. Returns whether the task
    /// was registered.
    pub fn record_send(&mut self, task: TestTask, outcome: Result<GreetingResponse, E2EError>) -> (r:
        bool)
        requires
            old(self).wf(),
        ensures
            final(self).wf(),
            final(self)@ == after_send(old(self)@, task, outcome),
            r == (outcome is Ok && !has_key(old(self)@, outcome->Ok_0.message_id@)),
    {
        match outcome {
            Ok(resp) => {
                match self.position(&resp.message_id) {
                    Some(_) => false,
                    None => {
                        let sent = TestTask { message_id: Some(resp.message_id), ..task };
                        self.tasks.push(sent);
                        proof {
                            let s = self@;
                            assert forall|i: int, j: int|
                                0 <= i < s.len() && 0 <= j < s.len() && i != j implies task_key(
                                #[trigger] s[i],
                            ) != task_key(#[trigger] s[j]) by {
                                if i == s.len() - 1 {
                                    assert(s[j] == old(self)@[j]);
                                } else if j == s.len() - 1 {
                                    assert(s[i] == old(self)@[i]);
                                }
                            }
                        }
                        true
                    },
                }
            },
            Err(_) => false,
        }
    }

    /// Whether every registered task has its log entry.
    pub fn all_verified(&self) -> (r: bool)
        ensures
            r == all_verified(self@),
    {
        let mut i: usize = 0;
        while i < self.tasks.len()
            invariant
                i <= self@.len(),
                forall|j: int| 0 <= j < i ==> (#[trigger] self@[j]).greeting_logg_entry is Some,
            decreases self@.len() - i,
        {
            if self.tasks[i].greeting_logg_entry.is_none() {
                return false;
            }
            i = i + 1;
        }
        true
    }

    /// Reads one page of log entries, in order: each entry that records a
    /// registered, not yet verified task is attached to that task. A task that
    /// is verified already keeps its entry.
    pub fn attach_entries(&mut self, page: &Vec<GreetingLoggEntry>)
        requires
            old(self).wf(),
        ensures
            final(self).wf(),
            final(self)@ == attach_page(old(self)@, page@),
    {
        let ghost orig = self@;
        let mut j: usize = 0;
        proof {
            assert(page@.take(0) =~= Seq::<GreetingLoggEntry>::empty());
            assert(self@ =~= attach_page(orig, page@.take(0)));
        }
        while j < page.len()
            invariant
                j <= page@.len(),
                self.wf(),
                self@ == attach_page(orig, page@.take(j as int)),
            decreases page@.len() - j,
        {
            let entry = &page[j];
            let ghost before = self@;
            proof {
                assert(page@.take(j + 1).drop_last() =~= page@.take(j as int));
                assert(page@.take(j + 1).last() == page@[j as int]);
            }
            match self.position(&entry.message_id) {
                Some(i) => {
                    if self.tasks[i].greeting_logg_entry.is_none() {
                        let mut t = self.tasks.remove(i);
                        t.greeting_logg_entry = Some(entry.duplicate());
                        self.tasks.insert(i, t);
                        proof {
                            assert(self@ =~= before.update(i as int, t));
                        }
                    }
                },
                None => {},
            }
            proof {
                let next = attach_page(orig, page@.take(j + 1));
                assert forall|k: int| 0 <= k < self@.len() implies #[trigger] self@[k] == next[k] by {
                    assert(task_key(before[k]) == task_key(orig[k]));
                }
                assert(self@ =~= next);
                assert forall|a: int, b: int|
                    0 <= a < self@.len() && 0 <= b < self@.len() && a != b implies task_key(
                    #[trigger] self@[a],
                ) != task_key(#[trigger] self@[b]) by {
                    assert(task_key(self@[a]) == task_key(before[a]));
                    assert(task_key(self@[b]) == task_key(before[b]));
                }
                assert forall|a: int| 0 <= a < self@.len() implies (#[trigger] self@[a]).message_id is Some by {
                    assert(self@[a].message_id == before[a].message_id);
                }
            }
            j = j + 1;
        }
        proof {
            assert(page@.take(page@.len() as int) =~= page@);
        }
    }

    /// Counts the tasks and the verified ones, without changing the registry.
    pub fn summary(&self) -> (r: VerificationSummary)
        ensures
            r.total == self@.len(),
            r.verified == verified_count(self@),
    {
        VerificationSummary { total: self.tasks.len(), verified: self.verified_count() }
    }

    /// The number of registered tasks that have their log entry.
    pub fn verified_count(&self) -> (r: usize)
        ensures
            r == verified_count(self@),
    {
        let mut n: usize = 0;
        let mut i: usize = 0;
        while i < self.tasks.len()
            invariant
                i <= self@.len(),
                n == verified_count(self@.take(i as int)),
                n <= i,
            decreases self@.len() - i,
        {
            proof {
                assert(self@.take(i + 1).drop_last() =~= self@.take(i as int));
            }
            if self.tasks[i].greeting_logg_entry.is_some() {
                n = n + 1;
            }
            i = i + 1;
        }
        proof {
            assert(self@.take(self@.len() as int) =~= self@);
        }
        n
    }
}

/// Registers the tasks whose send succeeded, in the order in which they were
/// sent. Each task comes with what the receiver answered to it; a task whose
/// send failed is left out, and one whose identifier is taken already is
/// rejected.
pub fn send_messages(sent: Vec<(TestTask, Result<GreetingResponse, E2EError>)>) -> (r: TaskRegistry)
    ensures
        r.wf(),
        r@ == registered(sent@),
{
    let mut registry = TaskRegistry::new();
    let mut sent = sent;
    let ghost all = sent@;
    let mut rest: Vec<(TestTask, Result<GreetingResponse, E2EError>)> = Vec::new();
    // Taken from the back and restored in order, so that each pair is moved once.
    while sent.len() > 0
        invariant
            sent@ + rest@.reverse() == all,
        decreases sent@.len(),
    {
        let p = sent.pop().unwrap();
        proof {
            assert(sent@.push(p) + rest@.reverse() =~= sent@ + rest@.push(p).reverse());
        }
        rest.push(p);
    }
    proof {
        assert(all =~= rest@.reverse());
    }
    while rest.len() > 0
        invariant
            registry.wf(),
            registry@ == registered(all.take(all.len() - rest@.len())),
            rest@.reverse() == all.skip(all.len() - rest@.len()),
            rest@.len() <= all.len(),
        decreases rest@.len(),
    {
        let ghost n = all.len() - rest@.len();
        let ghost rest_before = rest@;
        let (task, outcome) = rest.pop().unwrap();
        proof {
            assert(rest_before.reverse()[0] == (task, outcome));
            assert(all.skip(n)[0] == (task, outcome));
            assert forall|i: int| 0 <= i < rest@.len() implies #[trigger] rest@.reverse()[i] == all.skip(n + 1)[i] by {
                assert(rest@.reverse()[i] == rest_before.reverse()[i + 1]);
            }
            assert(all.take(n + 1).drop_last() =~= all.take(n));
            assert(all.take(n + 1).last() == all[n]);
            assert(rest@.reverse() =~= all.skip(n + 1));
        }
        registry.record_send(task, outcome);
    }
    proof {
        assert(all.take(all.len() as int) =~= all);
    }
    registry
}

} // verus!
