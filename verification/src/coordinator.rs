//! The coordination loop's command bookkeeping.
//!
//! The loop alternates between command intake and status publication. A
//! toggle command received while another is executing is queued, never
//! dropped and never run concurrently; at most one command is serviced per
//! cycle, and each serviced command produces exactly one completion.
//!
//! The structure here is the decision half of that loop: the shell around
//! the library receives commands, runs the adapter calls and sleeps; every
//! transition of the toggle state goes through the methods below.

use vstd::prelude::*;

verus! {

/// Whether a start/stop attempt is currently executing.
pub enum ToggleState {
    Idle,
    InFlight,
}

/// Which adapter mutation a serviced toggle must run.
pub enum ToggleAction {
    Start,
    Stop,
}

/// Mathematical model of the coordinator: the transient toggle state, the
/// commands waiting in the queue, and the running totals of commands
/// accepted and completions emitted.
pub ghost struct CoordinatorModel {
    pub in_flight: bool,
    pub queued: nat,
    pub accepted: nat,
    pub completed: nat,
}

/// The accounting invariant: nothing is dropped and nothing is duplicated.
/// Every accepted command is either already completed, still queued, or the
/// single one in flight.
pub open spec fn coordinator_inv(c: CoordinatorModel) -> bool {
    c.accepted == c.completed + c.queued + (if c.in_flight {
        1nat
    } else {
        0nat
    })
}

/// Command bookkeeping of the coordination loop.
pub struct Coordinator {
    toggle: ToggleState,
    queued: usize,
    accepted: Ghost<nat>,
    completed: Ghost<nat>,
}

impl View for Coordinator {
    type V = CoordinatorModel;

    closed spec fn view(&self) -> CoordinatorModel {
        CoordinatorModel {
            in_flight: self.toggle is InFlight,
            queued: self.queued as nat,
            accepted: self.accepted@,
            completed: self.completed@,
        }
    }
}

impl Coordinator {
    /// Well-formedness: the accounting invariant holds.
    pub open spec fn wf(&self) -> bool {
        coordinator_inv(self@)
    }

    /// A fresh coordinator: idle, nothing queued, nothing accepted.
    pub fn new() -> (r: Coordinator)
        ensures
            r.wf(),
            !r@.in_flight,
            r@.queued == 0,
            r@.accepted == 0,
            r@.completed == 0,
    {
        Coordinator { toggle: ToggleState::Idle, queued: 0, accepted: Ghost(0), completed: Ghost(0) }
    }

    /// How many commands are waiting in the queue.
    pub fn queued_count(&self) -> (r: usize)
        ensures
            r as nat == self@.queued,
    {
        self.queued
    }

    /// A toggle command arrived. It is queued whatever the toggle state:
    /// commands issued while one is in flight are held, not rejected.
    pub fn command_received(&mut self)
        requires
            old(self).wf(),
            old(self)@.queued < usize::MAX,
        ensures
            final(self).wf(),
            final(self)@.queued == old(self)@.queued + 1,
            final(self)@.accepted == old(self)@.accepted + 1,
            final(self)@.in_flight == old(self)@.in_flight,
            final(self)@.completed == old(self)@.completed,
    {
        self.queued = self.queued + 1;
        proof {
            self.accepted@ = self.accepted@ + 1;
        }
    }

    /// Command intake at the top of a cycle: service at most one queued
    /// command. Returns true when a command was taken, which puts the
    /// toggle state in flight until `complete` is called.
    pub fn begin_service(&mut self) -> (took: bool)
        requires
            old(self).wf(),
            !old(self)@.in_flight,
        ensures
            final(self).wf(),
            took == (old(self)@.queued > 0),
            final(self)@.in_flight == took,
            final(self)@.queued == if took {
                (old(self)@.queued - 1) as nat
            } else {
                old(self)@.queued
            },
            final(self)@.accepted == old(self)@.accepted,
            final(self)@.completed == old(self)@.completed,
    {
        if self.queued > 0 {
            self.queued = self.queued - 1;
            self.toggle = ToggleState::InFlight;
            true
        } else {
            false
        }
    }

    /// Which adapter call a serviced command runs: start when the hotspot
    /// is observed inactive, stop when it is observed active.
    pub fn choose_action(active: bool) -> (r: ToggleAction)
        ensures
            (r is Start) == !active,
    {
        if active {
            ToggleAction::Stop
        } else {
            ToggleAction::Start
        }
    }

    /// The adapter call returned: the toggle state goes back to idle and
    /// exactly one completion is accounted. The caller emits exactly one
    /// completion event carrying the adapter's result.
    pub fn complete(&mut self)
        requires
            old(self).wf(),
            old(self)@.in_flight,
        ensures
            final(self).wf(),
            !final(self)@.in_flight,
            final(self)@.completed == old(self)@.completed + 1,
            final(self)@.queued == old(self)@.queued,
            final(self)@.accepted == old(self)@.accepted,
    {
        self.toggle = ToggleState::Idle;
        proof {
            self.completed@ = self.completed@ + 1;
        }
    }
}

/// One full cycle at the model level: `arrived` commands are queued, then
/// at most one queued command is serviced to completion (the service is
/// synchronous within the cycle, so the toggle state is idle again at the
/// cycle boundary). The second component counts the completion events the
/// cycle emits.
pub open spec fn cycle_spec(c: CoordinatorModel, arrived: nat) -> (CoordinatorModel, nat) {
    let queued = c.queued + arrived;
    let accepted = c.accepted + arrived;
    if queued > 0 {
        (
            CoordinatorModel {
                in_flight: false,
                queued: (queued - 1) as nat,
                accepted,
                completed: c.completed + 1,
            },
            1,
        )
    } else {
        (CoordinatorModel { in_flight: false, queued, accepted, completed: c.completed }, 0)
    }
}

/// The model after running the cycles of `arrivals`, oldest first.
pub open spec fn run_cycles(c: CoordinatorModel, arrivals: Seq<nat>) -> CoordinatorModel
    decreases arrivals.len(),
{
    if arrivals.len() == 0 {
        c
    } else {
        run_cycles(cycle_spec(c, arrivals[0]).0, arrivals.drop_first())
    }
}

/// Completion events emitted over the cycles of `arrivals`.
pub open spec fn completions_emitted(c: CoordinatorModel, arrivals: Seq<nat>) -> nat
    decreases arrivals.len(),
{
    if arrivals.len() == 0 {
        0
    } else {
        cycle_spec(c, arrivals[0]).1 + completions_emitted(
            cycle_spec(c, arrivals[0]).0,
            arrivals.drop_first(),
        )
    }
}

/// Total of a sequence of counts.
pub open spec fn sum(s: Seq<nat>) -> nat
    decreases s.len(),
{
    if s.len() == 0 {
        0nat
    } else {
        s[0] + sum(s.drop_first())
    }
}

/// Law: over any sequence of cycles, and whatever commands arrive while a
/// toggle is in flight, each cycle runs at most one adapter mutation and
/// emits at most one completion; no accepted command is dropped and none is
/// duplicated: the completions emitted are exactly the accepted commands
/// that are no longer queued.
pub proof fn lemma_no_drops_no_duplicates(c: CoordinatorModel, arrivals: Seq<nat>)
    requires
        coordinator_inv(c),
        !c.in_flight,
    ensures
        coordinator_inv(run_cycles(c, arrivals)),
        !run_cycles(c, arrivals).in_flight,
        run_cycles(c, arrivals).accepted == c.accepted + sum(arrivals),
        completions_emitted(c, arrivals) == run_cycles(c, arrivals).completed - c.completed,
        completions_emitted(c, arrivals) == c.queued + sum(arrivals) - run_cycles(
            c,
            arrivals,
        ).queued,
        forall|i: int|
            0 <= i < arrivals.len() ==> #[trigger] cycle_spec(
                run_cycles(c, arrivals.take(i)),
                arrivals[i],
            ).1 <= 1,
    decreases arrivals.len(),
{
    if arrivals.len() > 0 {
        let c1 = cycle_spec(c, arrivals[0]).0;
        lemma_no_drops_no_duplicates(c1, arrivals.drop_first());
        assert forall|i: int|
            0 <= i < arrivals.len() implies #[trigger] cycle_spec(
            run_cycles(c, arrivals.take(i)),
            arrivals[i],
        ).1 <= 1 by {
            if i == 0 {
                assert(arrivals.take(0) =~= Seq::<nat>::empty());
            } else {
                assert(arrivals.take(i).drop_first() =~= arrivals.drop_first().take(i - 1));
                assert(arrivals.take(i)[0] == arrivals[0]);
                assert(run_cycles(c, arrivals.take(i)) == run_cycles(
                    c1,
                    arrivals.drop_first().take(i - 1),
                ));
                assert(arrivals.drop_first()[i - 1] == arrivals[i]);
            }
        }
    }
}

/// Law: a run that drains the queue (no commands left waiting) has emitted
/// one completion for every command ever accepted: none dropped, none
/// duplicated.
pub proof fn lemma_drained_queue_completes_all(c: CoordinatorModel, arrivals: Seq<nat>)
    requires
        coordinator_inv(c),
        !c.in_flight,
        c.completed == 0,
        c.queued == 0,
        run_cycles(c, arrivals).queued == 0,
    ensures
        completions_emitted(c, arrivals) == c.accepted + sum(arrivals) == run_cycles(
            c,
            arrivals,
        ).accepted,
{
    lemma_no_drops_no_duplicates(c, arrivals);
}

} // verus!
