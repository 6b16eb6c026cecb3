//! Keeping the workers alive.
use crate::php::worker::WorkerEvent;
use std::collections::HashMap;
use vstd::prelude::*;

verus! {

/// The workers that are alive. `W` is the handle of a worker.
#[derive(Debug)]
pub struct WorkerSupervisor<W> {
    /// How many workers there are to be.
    pub worker_count: usize,
    /// How many workers have been started for the first time.
    pub started: usize,
    /// The workers by number.
    pub workers: HashMap<usize, W>,
}

/// What is to be done about the end of a worker.
#[derive(Debug)]
pub enum SupervisorAction<W> {
    /// Join the ended worker, if its handle is known, and start another one with its number.
    Restart { worker_id: usize, ended: Option<W> },
    /// Join the ended worker, if its handle is known; stop if it was the last one.
    Reap { ended: Option<W>, stop: bool },
}

/// The handle under a number.
pub open spec fn handle_of<W>(workers: Map<usize, W>, worker_id: usize) -> Option<W> {
    if workers.contains_key(worker_id) {
        Some(workers[worker_id])
    } else {
        None
    }
}

/// The number of the worker that an event is about.
pub open spec fn worker_of(event: WorkerEvent) -> usize {
    match event {
        WorkerEvent::ErrorExit(worker_id) => worker_id,
        WorkerEvent::Exit(worker_id) => worker_id,
    }
}

/// The numbers of the workers that live once an event was dealt with: a broken worker has been
/// replaced, one that ended otherwise has not.
pub open spec fn live_after(live: Set<usize>, event: WorkerEvent) -> Set<usize> {
    match event {
        WorkerEvent::ErrorExit(worker_id) => live.insert(worker_id),
        WorkerEvent::Exit(worker_id) => live.remove(worker_id),
    }
}

impl<W> WorkerSupervisor<W> {
    /// The numbers of the workers that live.
    pub open spec fn live(self) -> Set<usize> {
        self.workers@.dom()
    }

    /// A supervisor for `worker_count` workers, none of them started.
    pub fn new(worker_count: usize) -> (supervisor: WorkerSupervisor<W>)
        ensures
            supervisor.worker_count == worker_count,
            supervisor.started == 0,
            supervisor.workers@ == Map::<usize, W>::empty(),
    {
        WorkerSupervisor { worker_count, started: 0, workers: HashMap::new() }
    }

    /// The number of the worker to be started next; `None` when all have been started.
    pub fn next_to_start(&self) -> (worker_id: Option<usize>)
        ensures
            worker_id == if self.started < self.worker_count {
                Some(self.started)
            } else {
                None
            },
    {
        if self.started < self.worker_count {
            Some(self.started)
        } else {
            None
        }
    }

    /// Takes in a worker that was started.
    pub fn register(&mut self, worker_id: usize, worker: W)
        ensures
            final(self).worker_count == old(self).worker_count,
            final(self).workers@ == old(self).workers@.insert(worker_id, worker),
            final(self).started == if worker_id == old(self).started && old(self).started < old(
                self,
            ).worker_count {
                old(self).started + 1
            } else {
                old(self).started as int
            },
    {
        broadcast use vstd::std_specs::hash::group_hash_axioms;

        self.workers.insert(worker_id, worker);
        if worker_id == self.started && self.started < self.worker_count {
            self.started = self.started + 1;
        }
    }

    /// Starts the workers that have not been started yet, each with its number.
    pub fn start_all<F: Fn(usize) -> W>(&mut self, start: F)
        requires
            old(self).started <= old(self).worker_count,
            forall|worker_id: usize|
                old(self).started <= worker_id < old(self).worker_count ==> call_requires(
                    start,
                    (worker_id,),
                ),
        ensures
            final(self).worker_count == old(self).worker_count,
            final(self).started == final(self).worker_count,
            forall|worker_id: usize| #[trigger]
                final(self).live().contains(worker_id) <==> old(self).live().contains(worker_id)
                    || old(self).started <= worker_id < old(self).worker_count,
            forall|worker_id: usize|
                old(self).started <= worker_id < old(self).worker_count ==> call_ensures(
                    start,
                    (worker_id,),
                    #[trigger] final(self).workers@[worker_id],
                ),
            forall|worker_id: usize|
                old(self).live().contains(worker_id) && !(old(self).started <= worker_id < old(
                    self,
                ).worker_count) ==> #[trigger] final(self).workers@[worker_id] == old(
                    self,
                ).workers@[worker_id],
            old(self).workers@ == Map::<usize, W>::empty() && old(self).started == 0
                ==> final(self).live() == live_through(old(self).worker_count, Seq::empty()),
    {
        let ghost before = *self;
        loop
            invariant
                self.worker_count == before.worker_count,
                before.started <= self.started <= self.worker_count,
                forall|worker_id: usize|
                    before.started <= worker_id < before.worker_count ==> call_requires(
                        start,
                        (worker_id,),
                    ),
                forall|worker_id: usize| #[trigger]
                    self.workers@.contains_key(worker_id) <==> before.workers@.contains_key(
                        worker_id,
                    ) || before.started <= worker_id < self.started,
                forall|worker_id: usize|
                    before.started <= worker_id < self.started ==> call_ensures(
                        start,
                        (worker_id,),
                        #[trigger] self.workers@[worker_id],
                    ),
                forall|worker_id: usize|
                    before.workers@.contains_key(worker_id) && !(before.started <= worker_id
                        < self.started) ==> #[trigger] self.workers@[worker_id]
                        == before.workers@[worker_id],
            ensures
                self.started == self.worker_count,
            decreases self.worker_count - self.started,
        {
            let worker_id: usize = match self.next_to_start() {
                Some(worker_id) => worker_id,
                None => break,
            };
            let worker: W = start(worker_id);
            self.register(worker_id, worker);
        }
        assert(before.workers@ == Map::<usize, W>::empty() && before.started == 0
            ==> self.live() =~= live_through(before.worker_count, Seq::empty()));
    }

    /// Deals with the end of a worker.
    pub fn handle(&mut self, event: WorkerEvent) -> (action: SupervisorAction<W>)
        ensures
            final(self).worker_count == old(self).worker_count,
            final(self).started == old(self).started,
            final(self).workers@ == old(self).workers@.remove(worker_of(event)),
            action == match event {
                WorkerEvent::ErrorExit(worker_id) => SupervisorAction::Restart {
                    worker_id,
                    ended: handle_of(old(self).workers@, worker_id),
                },
                WorkerEvent::Exit(worker_id) => SupervisorAction::Reap {
                    ended: handle_of(old(self).workers@, worker_id),
                    stop: live_after(old(self).live(), event) == Set::<usize>::empty(),
                },
            },
    {
        broadcast use vstd::std_specs::hash::group_hash_axioms;

        match event {
            WorkerEvent::ErrorExit(worker_id) => {
                let ended: Option<W> = self.workers.remove(&worker_id);
                SupervisorAction::Restart { worker_id, ended }
            },
            WorkerEvent::Exit(worker_id) => {
                let ended: Option<W> = self.workers.remove(&worker_id);
                let stop: bool = self.workers.is_empty();
                assert(self.workers@.dom() =~= live_after(old(self).live(), event));
                SupervisorAction::Reap { ended, stop }
            },
        }
    }
}

/// A broken worker leaves the others alone and, once another one was taken in under its
/// number, nobody is missing; a worker that ended otherwise is missing from then on.
pub proof fn law_only_broken_workers_are_replaced<W>(
    workers: Map<usize, W>,
    event: WorkerEvent,
    replacement: W,
)
    ensures
        ({
            let left = workers.remove(worker_of(event));
            live_after(workers.dom(), event) == match event {
                WorkerEvent::ErrorExit(worker_id) => left.insert(worker_id, replacement).dom(),
                WorkerEvent::Exit(_) => left.dom(),
            }
        }),
{
    let left = workers.remove(worker_of(event));
    match event {
        WorkerEvent::ErrorExit(worker_id) => {
            assert(live_after(workers.dom(), event) =~= left.insert(
                worker_id,
                replacement,
            ).dom());
        },
        WorkerEvent::Exit(_) => {
            assert(live_after(workers.dom(), event) =~= left.dom());
        },
    }
}

/// The numbers of the workers that live after some events, `count` workers having been
/// started.
pub open spec fn live_through(count: usize, events: Seq<WorkerEvent>) -> Set<usize>
    decreases events.len(),
{
    if events.len() == 0 {
        Set::new(|worker_id: usize| worker_id < count)
    } else {
        live_after(live_through(count, events.drop_last()), events.last())
    }
}

/// Whether the last event about a worker is that it ended for want of jobs.
pub open spec fn has_retired(events: Seq<WorkerEvent>, worker_id: usize) -> bool
    decreases events.len(),
{
    if events.len() == 0 {
        false
    } else if worker_of(events.last()) == worker_id {
        events.last() is Exit
    } else {
        has_retired(events.drop_last(), worker_id)
    }
}

/// A worker lives until it ends for want of jobs, however often it breaks before.
pub proof fn law_worker_lives_until_it_retires(
    count: usize,
    events: Seq<WorkerEvent>,
    worker_id: usize,
)
    requires
        worker_id < count,
    ensures
        live_through(count, events).contains(worker_id) <==> !has_retired(events, worker_id),
    decreases events.len(),
{
    if events.len() > 0 {
        law_worker_lives_until_it_retires(count, events.drop_last(), worker_id);
    }
}

/// When nobody is left, every worker has ended for want of jobs; and nobody is left when that
/// holds of all workers and no stranger was reported.
pub proof fn law_supervisor_stops_when_all_have_retired(count: usize, events: Seq<WorkerEvent>)
    requires
        forall|i: int| 0 <= i < events.len() ==> worker_of(#[trigger] events[i]) < count,
    ensures
        live_through(count, events) == Set::<usize>::empty() <==> forall|worker_id: usize|
            worker_id < count ==> has_retired(events, worker_id),
{
    lemma_no_strangers(count, events);
    assert forall|worker_id: usize| worker_id < count implies live_through(count, events).contains(
        worker_id,
    ) == !has_retired(events, worker_id) by {
        law_worker_lives_until_it_retires(count, events, worker_id);
    }
    if live_through(count, events) == Set::<usize>::empty() {
        assert forall|worker_id: usize| worker_id < count implies has_retired(
            events,
            worker_id,
        ) by {
            assert(!live_through(count, events).contains(worker_id));
        }
    }
    if forall|worker_id: usize| worker_id < count ==> has_retired(events, worker_id) {
        assert forall|worker_id: usize| !live_through(count, events).contains(worker_id) by {
            if live_through(count, events).contains(worker_id) {
                assert(has_retired(events, worker_id));
            }
        }
        assert(live_through(count, events) =~= Set::<usize>::empty());
    }
}

proof fn lemma_no_strangers(count: usize, events: Seq<WorkerEvent>)
    requires
        forall|i: int| 0 <= i < events.len() ==> worker_of(#[trigger] events[i]) < count,
    ensures
        forall|worker_id: usize|
            live_through(count, events).contains(worker_id) ==> worker_id < count,
    decreases events.len(),
{
    if events.len() > 0 {
        assert forall|i: int| 0 <= i < events.drop_last().len() implies worker_of(
            #[trigger] events.drop_last()[i],
        ) < count by {
            assert(events.drop_last()[i] == events[i]);
        }
        lemma_no_strangers(count, events.drop_last());
        assert(worker_of(events[events.len() - 1]) < count);
        assert forall|worker_id: usize| live_through(count, events).contains(
            worker_id,
        ) implies worker_id < count by {
            if worker_id != worker_of(events.last()) {
                assert(live_through(count, events.drop_last()).contains(worker_id));
            }
        }
    }
}

/// The end of a worker takes its handle, if it is known, out of the supervisor's hands and leaves
/// the other workers alone. A broken worker is to be started again under its number; after any
/// other end the supervisor stops exactly when nobody is left.
pub proof fn law_end_of_a_worker_is_dealt_with<W>(
    supervisor: &mut WorkerSupervisor<W>,
    event: WorkerEvent,
    action: SupervisorAction<W>,
    number: usize,
    other: usize,
)
    requires
        call_ensures(WorkerSupervisor::<W>::handle, (supervisor, event), action),
        event == WorkerEvent::ErrorExit(number) || event == WorkerEvent::Exit(number),
        other != number,
    ensures
        final(supervisor).worker_count == old(supervisor).worker_count,
        final(supervisor).started == old(supervisor).started,
        !final(supervisor).workers@.contains_key(number),
        final(supervisor).workers@.contains_key(other) <==> old(supervisor).workers@.contains_key(
            other,
        ),
        old(supervisor).workers@.contains_key(other) ==> final(supervisor).workers@[other] == old(
            supervisor,
        ).workers@[other],
        ({
            let ended = if old(supervisor).workers@.contains_key(number) {
                Some(old(supervisor).workers@[number])
            } else {
                None
            };
            &&& event is ErrorExit ==> action == SupervisorAction::Restart {
                worker_id: number,
                ended,
            }
            &&& event is Exit ==> action is Reap && action->Reap_ended == ended
            &&& event is Exit && action->Reap_stop ==> !final(supervisor).workers@.contains_key(
                other,
            )
            &&& event is Exit && !action->Reap_stop ==> exists|left: usize| #[trigger]
                final(supervisor).workers@.contains_key(left)
        }),
{
    if event is Exit {
        let left = final(supervisor).workers@.dom();
        assert(left =~= live_after(old(supervisor).live(), event));
        if !action->Reap_stop {
            if forall|id: usize| !(#[trigger] final(supervisor).workers@.contains_key(id)) {
                assert(left =~= Set::<usize>::empty());
            }
        }
    }
}

/// Workers are started by number, from zero on, until there are as many as there are to be; each
/// is held under its number from then on.
pub proof fn law_workers_are_started_by_number<W>(
    worker_count: usize,
    fresh: WorkerSupervisor<W>,
    supervisor: &mut WorkerSupervisor<W>,
    next: Option<usize>,
    worker: W,
    other: usize,
)
    requires
        call_ensures(WorkerSupervisor::<W>::new, (worker_count,), fresh),
        call_ensures(WorkerSupervisor::<W>::next_to_start, (&*supervisor,), next),
        next is Some ==> call_ensures(
            WorkerSupervisor::<W>::register,
            (supervisor, next->0, worker),
            (),
        ),
    ensures
        fresh.worker_count == worker_count,
        fresh.started == 0,
        fresh.workers@.len() == 0,
        next is Some <==> old(supervisor).started < old(supervisor).worker_count,
        next matches Some(number) ==> {
            &&& number == old(supervisor).started
            &&& final(supervisor).started == number + 1
            &&& final(supervisor).worker_count == old(supervisor).worker_count
            &&& final(supervisor).workers@.contains_key(number)
            &&& final(supervisor).workers@[number] == worker
            &&& other != number ==> (final(supervisor).workers@.contains_key(other) <==> old(
                supervisor,
            ).workers@.contains_key(other))
            &&& other != number && old(supervisor).workers@.contains_key(other) ==> final(
                supervisor).workers@[other] == old(supervisor).workers@[other]
        },
{
}

/// A worker that is started again takes the place of the one that broke, and the count of those
/// that were started for the first time stays, whether all have been started by then or not.
pub proof fn law_replacement_takes_the_place<W>(
    supervisor: &mut WorkerSupervisor<W>,
    number: usize,
    worker: W,
)
    requires
        call_ensures(WorkerSupervisor::<W>::register, (supervisor, number, worker), ()),
        number != supervisor.started || supervisor.started >= supervisor.worker_count,
    ensures
        final(supervisor).workers@ == old(supervisor).workers@.insert(number, worker),
        final(supervisor).started == old(supervisor).started,
        final(supervisor).worker_count == old(supervisor).worker_count,
{
}

/// Starting all workers of a fresh supervisor leaves it with the numbers below the count, and
/// with no other.
pub proof fn law_all_workers_are_started<W, F: Fn(usize) -> W>(
    supervisor: &mut WorkerSupervisor<W>,
    start: F,
    number: usize,
)
    requires
        call_ensures(WorkerSupervisor::<W>::start_all::<F>, (supervisor, start), ()),
        supervisor.started == 0,
        supervisor.workers@ == Map::<usize, W>::empty(),
    ensures
        final(supervisor).workers@.contains_key(number) <==> number < old(supervisor).worker_count,
        number < old(supervisor).worker_count ==> call_ensures(
            start,
            (number,),
            final(supervisor).workers@[number],
        ),
        final(supervisor).started == old(supervisor).worker_count,
{
    assert(final(supervisor).live().contains(number) <==> final(supervisor).workers@.contains_key(
        number,
    ));
}

} // verus!
