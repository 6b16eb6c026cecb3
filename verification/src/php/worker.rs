//! When a worker goes on and when it ends.
use vstd::prelude::*;

verus! {

/// What a worker reports to its supervisor when it ends.
#[derive(Clone, Copy, Debug, PartialEq, Eq, Structural)]
pub enum WorkerEvent {
    /// The worker with this number ended because a request broke it.
    ErrorExit(usize),
    /// The worker with this number ended because there are no jobs any more.
    Exit(usize),
}

/// What a worker meets when it waits for jobs.
#[derive(Clone, Copy, Debug, PartialEq, Eq, Structural)]
pub enum JobEvent {
    /// A job was taken and its request served.
    Served,
    /// A job was taken and its request broke the worker.
    Broken,
    /// There are no jobs any more.
    Closed,
}

/// The report with which a worker ends; `None` when it goes on to the next job.
pub open spec fn report_on(worker_id: usize, event: JobEvent) -> Option<WorkerEvent> {
    match event {
        JobEvent::Served => None,
        JobEvent::Broken => Some(WorkerEvent::ErrorExit(worker_id)),
        JobEvent::Closed => Some(WorkerEvent::Exit(worker_id)),
    }
}

/// The report with which a worker ends; `None` when it goes on to the next job.
pub fn worker_report(worker_id: usize, event: JobEvent) -> (report: Option<WorkerEvent>)
    ensures
        report == report_on(worker_id, event),
{
    match event {
        JobEvent::Served => None,
        JobEvent::Broken => Some(WorkerEvent::ErrorExit(worker_id)),
        JobEvent::Closed => Some(WorkerEvent::Exit(worker_id)),
    }
}

/// The reports of a worker that would meet `events`, if it went on for as long: it makes a
/// report where there is one, and ends with it.
pub open spec fn reports(worker_id: usize, events: Seq<JobEvent>) -> Seq<WorkerEvent>
    decreases events.len(),
{
    if events.len() == 0 {
        Seq::empty()
    } else {
        match report_on(worker_id, events[0]) {
            Some(report) => seq![report],
            None => reports(worker_id, events.skip(1)),
        }
    }
}

/// A worker makes no report while its requests are served.
pub proof fn law_worker_goes_on_while_it_serves(worker_id: usize, events: Seq<JobEvent>)
    requires
        forall|i: int| 0 <= i < events.len() ==> #[trigger] events[i] == JobEvent::Served,
    ensures
        reports(worker_id, events) == Seq::<WorkerEvent>::empty(),
    decreases events.len(),
{
    if events.len() > 0 {
        law_worker_goes_on_while_it_serves(worker_id, events.skip(1));
    }
}

/// A worker makes exactly one report, when it first meets something else than a request that is
/// served: that it broke if a request broke it, and that it ended otherwise.
pub proof fn law_worker_reports_its_first_end(worker_id: usize, events: Seq<JobEvent>, first: int)
    requires
        0 <= first < events.len(),
        events[first] != JobEvent::Served,
        forall|i: int| 0 <= i < first ==> #[trigger] events[i] == JobEvent::Served,
    ensures
        reports(worker_id, events) == seq![
            if events[first] == JobEvent::Broken {
                WorkerEvent::ErrorExit(worker_id)
            } else {
                WorkerEvent::Exit(worker_id)
            },
        ],
    decreases events.len(),
{
    if first > 0 {
        assert(events[0] == JobEvent::Served);
        law_worker_reports_its_first_end(worker_id, events.skip(1), first - 1);
    }
}

/// A worker goes on exactly when a request was served. Its report bears its number.
pub proof fn law_report_bears_the_number(
    worker_id: usize,
    event: JobEvent,
    report: Option<WorkerEvent>,
)
    requires
        call_ensures(worker_report, (worker_id, event), report),
    ensures
        report is None <==> event == JobEvent::Served,
        event == JobEvent::Broken ==> report == Some(WorkerEvent::ErrorExit(worker_id)),
        event == JobEvent::Closed ==> report == Some(WorkerEvent::Exit(worker_id)),
{
}

} // verus!
