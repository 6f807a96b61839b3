use vstd::prelude::*;
use vstd::string::StringExecFns;
use crate::error::E2EError;
use crate::model::{GreetingCmd, GreetingLoggEntry, TestTask};
use crate::registry::{all_verified, attach_page, first_match, task_key, TaskRegistry};

verus! {

/// The largest of `offset` and the sequence ids of `page`: where the watermark
/// stands once the page is read.
pub open spec fn offset_after(offset: i64, page: Seq<GreetingLoggEntry>) -> i64
    decreases page.len(),
{
    if page.len() == 0 {
        offset
    } else {
        let before = offset_after(offset, page.drop_last());
        if page.last().id > before {
            page.last().id
        } else {
            before
        }
    }
}

/// Where polling starts: the sequence id of the last entry, or zero for an
/// empty log.
pub open spec fn start_offset(last: Option<GreetingLoggEntry>) -> i64 {
    match last {
        Some(e) => e.id,
        None => 0,
    }
}

/// The detail of the error that reports an expired deadline.
pub open spec fn timeout_detail() -> Seq<char> {
    "Timeout waiting for new log entries"@
}

/// A request for the log entries after an offset, oldest first.
#[derive(Debug, Clone)]
pub struct LoggQuery {
    pub direction: String,
    pub offset: i64,
    pub limit: u16,
}

/// What the verification loop asks its caller to do next.
#[derive(Debug)]
pub enum PollAction {
    /// Every registered task has its log entry: stop, without another query.
    Complete,
    /// Fetch this page of log entries and hand it to `apply_page`.
    Fetch(LoggQuery),
    /// No entry can follow the watermark: back off and ask again.
    Wait,
}

/// What a page of log entries did to the loop.
#[derive(Debug, PartialEq, Eq)]
pub enum PageOutcome {
    /// The log has not advanced: back off before the next query.
    Empty,
    /// The entries were read and the watermark moved past them.
    Consumed,
}

/// The sequence id where polling starts: that of the last entry of the log, or
/// zero when the log is empty.
pub fn starting_offset(last: &Option<GreetingLoggEntry>) -> (r: i64)
    ensures
        r == start_offset(*last),
{
    match last {
        Some(e) => e.id,
        None => 0,
    }
}

/// A task in its first state, made from a generated command.
pub open spec fn created_task(c: GreetingCmd) -> TestTask {
    TestTask {
        external_reference: c.external_reference,
        message: c,
        message_id: None,
        greeting_logg_entry: None,
    }
}

/// The tasks that a series of generator calls makes: one for each command,
/// in the order of the calls; a failed call makes none.
pub open spec fn created_tasks(outcomes: Seq<Result<GreetingCmd, E2EError>>) -> Seq<TestTask>
    decreases outcomes.len(),
{
    if outcomes.len() == 0 {
        Seq::empty()
    } else {
        match outcomes.last() {
            Ok(c) => created_tasks(outcomes.drop_last()).push(created_task(c)),
            Err(_) => created_tasks(outcomes.drop_last()),
        }
    }
}

/// Calls the generator `num_iterations` times, one call after the other, and
/// makes a task that is not sent yet of each greeting it gives. A failed call
/// drops its task and the run goes on.
pub fn generate_test_tasks<F: Fn() -> Result<GreetingCmd, E2EError>>(
    num_iterations: u16,
    messsage_generator: F,
) -> (r: Vec<TestTask>)
    requires
        call_requires(messsage_generator, ()),
    ensures
        exists|outcomes: Seq<Result<GreetingCmd, E2EError>>|
            {
                &&& outcomes.len() == num_iterations
                &&& forall|i: int|
                    0 <= i < outcomes.len() ==> call_ensures(
                        messsage_generator,
                        (),
                        #[trigger] outcomes[i],
                    )
                &&& r@ == #[trigger] created_tasks(outcomes)
            },
{
    let mut tasks: Vec<TestTask> = Vec::new();
    let ghost mut outcomes: Seq<Result<GreetingCmd, E2EError>> = Seq::empty();
    let mut n: u16 = 0;
    while n < num_iterations
        invariant
            n <= num_iterations,
            outcomes.len() == n,
            call_requires(messsage_generator, ()),
            forall|i: int|
                0 <= i < outcomes.len() ==> call_ensures(
                    messsage_generator,
                    (),
                    #[trigger] outcomes[i],
                ),
            tasks@ == created_tasks(outcomes),
        decreases num_iterations - n,
    {
        let outcome = messsage_generator();
        proof {
            assert(outcomes.push(outcome).drop_last() =~= outcomes);
        }
        match outcome {
            Ok(m) => {
                let t = TestTask::created(m);
                tasks.push(t);
            },
            Err(_) => {},
        }
        proof {
            outcomes = outcomes.push(outcome);
        }
        n = n + 1;
    }
    tasks
}

/// The poll-and-match loop's state: the registry of sent tasks, the offset
/// watermark below which the log is not read again, and the page size.
pub struct Verification {
    registry: TaskRegistry,
    current_offset: i64,
    page_limit: u16,
}

impl Verification {
    pub closed spec fn wf(&self) -> bool {
        self.registry.wf()
    }

    /// The registered tasks.
    pub closed spec fn tasks(&self) -> Seq<TestTask> {
        self.registry@
    }

    /// The watermark: the largest sequence id read so far, or the start.
    pub closed spec fn offset(&self) -> i64 {
        self.current_offset
    }

    /// How many entries one query asks for at most.
    pub closed spec fn limit(&self) -> u16 {
        self.page_limit
    }

    /// Starts the loop at the given watermark.
    pub fn new(registry: TaskRegistry, offset: i64, page_limit: u16) -> (r: Verification)
        ensures
            r.wf() == registry.wf(),
            r.tasks() == registry@,
            r.offset() == offset,
            r.limit() == page_limit,
    {
        Verification { registry, current_offset: offset, page_limit }
    }

    pub fn current_offset(&self) -> (r: i64)
        ensures
            r == self.offset(),
    {
        self.current_offset
    }

    pub fn page_limit(&self) -> (r: u16)
        ensures
            r == self.limit(),
    {
        self.page_limit
    }

    /// The registry as it stands, for reading.
    pub fn registry(&self) -> (r: &TaskRegistry)
        ensures
            r@ == self.tasks(),
            r.wf() == self.wf(),
    {
        &self.registry
    }

    /// What to do next: stop once every task has its entry; otherwise ask for
    /// the entries strictly after the watermark, `page_limit` of them at most.
    pub fn next_action(&self) -> (r: PollAction)
        ensures
            r is Complete <==> all_verified(self.tasks()),
            r is Wait <==> !all_verified(self.tasks()) && self.offset() == i64::MAX,
            r matches PollAction::Fetch(q) ==> {
                &&& q.direction@ == "forward"@
                &&& q.offset == self.offset() + 1
                &&& q.limit == self.limit()
            },
    {
        if self.registry.all_verified() {
            PollAction::Complete
        } else if self.current_offset == i64::MAX {
            PollAction::Wait
        } else {
            PollAction::Fetch(
                LoggQuery {
                    direction: String::from_str("forward"),
                    offset: self.current_offset + 1,
                    limit: self.page_limit,
                },
            )
        }
    }

    /// Reads a page of log entries in ascending order: each entry that records
    /// a task not yet verified is attached to it, and the watermark moves up to
    /// every entry's sequence id, whether it matched or not.
    pub fn apply_page(&mut self, page: &Vec<GreetingLoggEntry>) -> (r: PageOutcome)
        requires
            old(self).wf(),
        ensures
            final(self).wf(),
            final(self).tasks() == attach_page(old(self).tasks(), page@),
            final(self).offset() == offset_after(old(self).offset(), page@),
            final(self).limit() == old(self).limit(),
            r is Empty <==> page@.len() == 0,
    {
        if page.len() == 0 {
            proof {
                let tasks = self.registry@;
                assert forall|i: int| 0 <= i < tasks.len() implies #[trigger] attach_page(tasks, page@)[i] == tasks[i] by {
                    assert(first_match(page@, task_key(tasks[i])) is None);
                }
                assert(attach_page(tasks, page@) =~= tasks);
            }
            return PageOutcome::Empty;
        }
        self.registry.attach_entries(page);
        let ghost start = self.current_offset;
        let ghost attached = self.registry@;
        let mut j: usize = 0;
        while j < page.len()
            invariant
                j <= page@.len(),
                self.current_offset == offset_after(start, page@.take(j as int)),
                self.wf(),
                self.registry@ == attached,
                self.page_limit == old(self).page_limit,
            decreases page@.len() - j,
        {
            proof {
                assert(page@.take(j + 1).drop_last() =~= page@.take(j as int));
            }
            if page[j].id > self.current_offset {
                self.current_offset = page[j].id;
            }
            j = j + 1;
        }
        proof {
            assert(page@.take(page@.len() as int) =~= page@);
        }
        PageOutcome::Consumed
    }

    /// Ends the loop. A loop whose deadline passed reports a timeout and hands
    /// back nothing of the registry. Otherwise every task is verified, and the
    /// registry is the result.
    pub fn finish(self, deadline_passed: bool) -> (r: Result<TaskRegistry, E2EError>)
        requires
            deadline_passed || all_verified(self.tasks()),
        ensures
            deadline_passed ==> (r matches Err(E2EError::TimeoutError(d)) && d@ == timeout_detail()),
            !deadline_passed ==> (r matches Ok(reg) && reg@ == self.tasks() && reg.wf() == self.wf()
                && all_verified(reg@)),
    {
        if deadline_passed {
            Err(E2EError::TimeoutError(String::from_str("Timeout waiting for new log entries")))
        } else {
            Ok(self.registry)
        }
    }
}

} // verus!
