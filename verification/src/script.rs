use vstd::prelude::*;

use crate::control::ControlLoop;
use crate::control::JoystickCommand;
use crate::control::PinCommand;
use crate::control::ReadOutcome;
use crate::control::SinkOutcome;
use crate::mapper::joystick_map;
use crate::sample::JoystickReport;

verus! {

/// The reports the joystick loop delivers over a finite script: `reads[i]` is
/// iteration `i`'s read outcome and `sinks[i]` the sink's answer if that
/// iteration attempts a write. The run ends at the first unrecoverable sink
/// failure; a would-block answer drops that report silently.
pub open spec fn delivered_reports(reads: Seq<ReadOutcome>, sinks: Seq<SinkOutcome>) -> Seq<
    JoystickReport,
>
    decreases reads.len(),
{
    if reads.len() == 0 {
        Seq::empty()
    } else {
        match reads[0] {
            ReadOutcome::Failure => delivered_reports(reads.skip(1), sinks.skip(1)),
            ReadOutcome::Success(s) => match sinks[0] {
                SinkOutcome::Delivered => seq![joystick_map(s)] + delivered_reports(
                    reads.skip(1),
                    sinks.skip(1),
                ),
                SinkOutcome::WouldBlock => delivered_reports(reads.skip(1), sinks.skip(1)),
                SinkOutcome::Failed => Seq::empty(),
            },
        }
    }
}

/// How many times the loop reinitializes the session over a finite script:
/// once per failed read, none after the run has halted.
pub open spec fn reinit_count(reads: Seq<ReadOutcome>, sinks: Seq<SinkOutcome>) -> nat
    decreases reads.len(),
{
    if reads.len() == 0 {
        0
    } else {
        match reads[0] {
            ReadOutcome::Failure => 1 + reinit_count(reads.skip(1), sinks.skip(1)),
            ReadOutcome::Success(_) => match sinks[0] {
                SinkOutcome::Failed => 0,
                _ => reinit_count(reads.skip(1), sinks.skip(1)),
            },
        }
    }
}

/// Whether the loop halts (leaves its body with a terminal error) somewhere
/// in a finite script: exactly when some attempted write fails for a reason
/// other than backpressure.
pub open spec fn run_halts(reads: Seq<ReadOutcome>, sinks: Seq<SinkOutcome>) -> bool
    decreases reads.len(),
{
    if reads.len() == 0 {
        false
    } else {
        match reads[0] {
            ReadOutcome::Failure => run_halts(reads.skip(1), sinks.skip(1)),
            ReadOutcome::Success(_) => match sinks[0] {
                SinkOutcome::Failed => true,
                _ => run_halts(reads.skip(1), sinks.skip(1)),
            },
        }
    }
}

/// The successfully read samples of a script, mapped to reports in order.
pub open spec fn mapped_successes(reads: Seq<ReadOutcome>) -> Seq<JoystickReport>
    decreases reads.len(),
{
    if reads.len() == 0 {
        Seq::empty()
    } else {
        match reads[0] {
            ReadOutcome::Success(s) => seq![joystick_map(s)] + mapped_successes(reads.skip(1)),
            ReadOutcome::Failure => mapped_successes(reads.skip(1)),
        }
    }
}

/// How many reads of a script fail.
pub open spec fn failure_count(reads: Seq<ReadOutcome>) -> nat
    decreases reads.len(),
{
    if reads.len() == 0 {
        0
    } else {
        match reads[0] {
            ReadOutcome::Failure => 1 + failure_count(reads.skip(1)),
            ReadOutcome::Success(_) => failure_count(reads.skip(1)),
        }
    }
}

/// Law: while the sink keeps accepting, the loop delivers exactly the mapped
/// successful samples, in order, reinitializes the session once per failed
/// read, and never halts.
pub proof fn lemma_accepting_sink_run(reads: Seq<ReadOutcome>, sinks: Seq<SinkOutcome>)
    requires
        sinks.len() == reads.len(),
        forall|i: int| 0 <= i < sinks.len() ==> sinks[i] is Delivered,
    ensures
        delivered_reports(reads, sinks) == mapped_successes(reads),
        reinit_count(reads, sinks) == failure_count(reads),
        !run_halts(reads, sinks),
    decreases reads.len(),
{
    if reads.len() == 0 {
    } else {
        assert forall|i: int| 0 <= i < sinks.skip(1).len() implies sinks.skip(1)[i]
            is Delivered by {
            assert(sinks.skip(1)[i] == sinks[i + 1]);
        }
        lemma_accepting_sink_run(reads.skip(1), sinks.skip(1));
    }
}

/// Law: a would-block answer is benign backpressure: the rejected report is
/// dropped, not retried, nothing halts on its account, and the run continues
/// exactly as the rest of the script dictates.
pub proof fn lemma_would_block_benign(reads: Seq<ReadOutcome>, sinks: Seq<SinkOutcome>)
    requires
        sinks.len() == reads.len(),
        reads.len() > 0,
        reads[0] is Success,
        sinks[0] is WouldBlock,
    ensures
        delivered_reports(reads, sinks) == delivered_reports(reads.skip(1), sinks.skip(1)),
        reinit_count(reads, sinks) == reinit_count(reads.skip(1), sinks.skip(1)),
        run_halts(reads, sinks) == run_halts(reads.skip(1), sinks.skip(1)),
{
}

/// Law: the first unrecoverable sink failure halts the run in the very
/// iteration it occurs: the run delivers only what the iterations before it
/// delivered, reinitializes only as those iterations did, and nothing read at
/// or after the failing iteration is mapped or emitted.
pub proof fn lemma_fatal_sink_failure_halts(
    reads: Seq<ReadOutcome>,
    sinks: Seq<SinkOutcome>,
    i: int,
)
    requires
        sinks.len() == reads.len(),
        0 <= i < reads.len(),
        reads[i] is Success,
        sinks[i] is Failed,
        forall|j: int| 0 <= j < i ==> !(reads[j] is Success && sinks[j] is Failed),
    ensures
        run_halts(reads, sinks),
        delivered_reports(reads, sinks) == delivered_reports(reads.take(i), sinks.take(i)),
        reinit_count(reads, sinks) == reinit_count(reads.take(i), sinks.take(i)),
    decreases i,
{
    if i == 0 {
        assert(delivered_reports(reads.take(0), sinks.take(0)) =~= Seq::<JoystickReport>::empty());
    } else {
        assert(!(reads[0] is Success && sinks[0] is Failed));
        assert(reads.skip(1).len() == sinks.skip(1).len());
        assert(reads.skip(1)[i - 1] == reads[i]);
        assert(sinks.skip(1)[i - 1] == sinks[i]);
        assert forall|j: int| 0 <= j < i - 1 implies !(reads.skip(1)[j] is Success && sinks.skip(
            1,
        )[j] is Failed) by {
            assert(reads.skip(1)[j] == reads[j + 1]);
            assert(sinks.skip(1)[j] == sinks[j + 1]);
        }
        lemma_fatal_sink_failure_halts(reads.skip(1), sinks.skip(1), i - 1);
        assert(reads.take(i)[0] == reads[0]);
        assert(sinks.take(i)[0] == sinks[0]);
        assert(reads.take(i).skip(1) =~= reads.skip(1).take(i - 1));
        assert(sinks.take(i).skip(1) =~= sinks.skip(1).take(i - 1));
    }
}

/// The trace of one finite run of the joystick loop.
pub struct JoystickTrace {
    pub reports: Vec<JoystickReport>,
    pub reinits: usize,
    pub halted: bool,
}

/// Run the joystick control loop over a finite script of read outcomes, with
/// `sinks[i]` the sink's answer should iteration `i` attempt a write: the
/// delivered reports, the reinitialization count and whether the run halted
/// are exactly the script functions' values.
pub fn run_joystick(reads: &Vec<ReadOutcome>, sinks: &Vec<SinkOutcome>) -> (t: JoystickTrace)
    requires
        reads@.len() == sinks@.len(),
        forall|i: int|
            0 <= i < reads@.len() ==> (#[trigger] reads@[i] matches ReadOutcome::Success(s)
                ==> s.joystick_left_y != i8::MIN),
    ensures
        t.reports@ == delivered_reports(reads@, sinks@),
        t.reinits == reinit_count(reads@, sinks@),
        t.halted == run_halts(reads@, sinks@),
{
    let mut state = ControlLoop::new();
    let mut reports: Vec<JoystickReport> = Vec::new();
    let mut reinits: usize = 0;
    let mut i: usize = 0;
    proof {
        assert(reads@.skip(0) =~= reads@);
        assert(sinks@.skip(0) =~= sinks@);
        assert(Seq::<JoystickReport>::empty() + delivered_reports(reads@, sinks@)
            =~= delivered_reports(reads@, sinks@));
    }
    while i < reads.len() && !state.halted
        invariant
            i <= reads@.len(),
            sinks@.len() == reads@.len(),
            forall|j: int|
                0 <= j < reads@.len() ==> (#[trigger] reads@[j] matches ReadOutcome::Success(s)
                    ==> s.joystick_left_y != i8::MIN),
            reinits <= i,
            !state.halted ==> delivered_reports(reads@, sinks@) == reports@ + delivered_reports(
                reads@.skip(i as int),
                sinks@.skip(i as int),
            ),
            !state.halted ==> reinit_count(reads@, sinks@) == reinits + reinit_count(
                reads@.skip(i as int),
                sinks@.skip(i as int),
            ),
            !state.halted ==> run_halts(reads@, sinks@) == run_halts(
                reads@.skip(i as int),
                sinks@.skip(i as int),
            ),
            state.halted ==> delivered_reports(reads@, sinks@) == reports@,
            state.halted ==> reinit_count(reads@, sinks@) == reinits,
            state.halted ==> run_halts(reads@, sinks@),
        decreases reads@.len() - i,
    {
        let ghost i0: int = i as int;
        proof {
            assert(reads@.skip(i0).skip(1) =~= reads@.skip(i0 + 1));
            assert(sinks@.skip(i0).skip(1) =~= sinks@.skip(i0 + 1));
            assert(reads@.skip(i0)[0] == reads@[i0]);
            assert(sinks@.skip(i0)[0] == sinks@[i0]);
        }
        let outcome = reads[i];
        let cmd = state.plan_joystick(&outcome);
        match cmd {
            None => {
            },
            Some(JoystickCommand::Reinitialize) => {
                reinits = reinits + 1;
            },
            Some(JoystickCommand::Emit(r)) => {
                let answer = sinks[i];
                match answer {
                    SinkOutcome::Delivered => {
                        proof {
                            assert(reports@ + delivered_reports(reads@.skip(i0), sinks@.skip(i0))
                                =~= reports@.push(r) + delivered_reports(
                                reads@.skip(i0 + 1),
                                sinks@.skip(i0 + 1),
                            ));
                        }
                        reports.push(r);
                    },
                    _ => {
                    },
                }
                state.note_sink(&answer);
            },
        }
        i = i + 1;
        proof {
            if state.halted {
                assert(reports@ + delivered_reports(reads@.skip(i0), sinks@.skip(i0))
                    =~= reports@);
            }
        }
    }
    proof {
        if !state.halted {
            assert(delivered_reports(reads@.skip(i as int), sinks@.skip(i as int))
                =~= Seq::<JoystickReport>::empty());
            assert(reports@ + delivered_reports(reads@.skip(i as int), sinks@.skip(i as int))
                =~= reports@);
        }
    }
    JoystickTrace { reports, reinits, halted: state.halted }
}

/// The levels the pin loop sets over a finite script: `reads[i]` is iteration
/// `i`'s read outcome and `writes_ok[i]` whether that iteration's pin write,
/// if any, succeeds. The run ends at the first failed write: the pin sink has
/// no backpressure, so every failure is unrecoverable.
pub open spec fn set_levels(reads: Seq<ReadOutcome>, writes_ok: Seq<bool>) -> Seq<bool>
    decreases reads.len(),
{
    if reads.len() == 0 {
        Seq::empty()
    } else {
        match reads[0] {
            ReadOutcome::Failure => set_levels(reads.skip(1), writes_ok.skip(1)),
            ReadOutcome::Success(s) => if writes_ok[0] {
                seq![s.button_b] + set_levels(reads.skip(1), writes_ok.skip(1))
            } else {
                Seq::empty()
            },
        }
    }
}

/// How many times the pin loop reinitializes the session over a finite
/// script: once per failed read, none after the run has halted.
pub open spec fn pin_reinit_count(reads: Seq<ReadOutcome>, writes_ok: Seq<bool>) -> nat
    decreases reads.len(),
{
    if reads.len() == 0 {
        0
    } else {
        match reads[0] {
            ReadOutcome::Failure => 1 + pin_reinit_count(reads.skip(1), writes_ok.skip(1)),
            ReadOutcome::Success(_) => if writes_ok[0] {
                pin_reinit_count(reads.skip(1), writes_ok.skip(1))
            } else {
                0
            },
        }
    }
}

/// Whether the pin loop halts somewhere in a finite script: exactly when some
/// attempted pin write fails.
pub open spec fn pin_run_halts(reads: Seq<ReadOutcome>, writes_ok: Seq<bool>) -> bool
    decreases reads.len(),
{
    if reads.len() == 0 {
        false
    } else {
        match reads[0] {
            ReadOutcome::Failure => pin_run_halts(reads.skip(1), writes_ok.skip(1)),
            ReadOutcome::Success(_) => if writes_ok[0] {
                pin_run_halts(reads.skip(1), writes_ok.skip(1))
            } else {
                true
            },
        }
    }
}

/// The trace of one finite run of the pin loop.
pub struct PinTrace {
    pub levels: Vec<bool>,
    pub reinits: usize,
    pub halted: bool,
}

/// Run the pin control loop over a finite script of read outcomes, with
/// `writes_ok[i]` saying whether iteration `i`'s pin write, if attempted,
/// succeeds: the set levels, the reinitialization count and whether the run
/// halted are exactly the script functions' values.
pub fn run_pin(reads: &Vec<ReadOutcome>, writes_ok: &Vec<bool>) -> (t: PinTrace)
    requires
        reads@.len() == writes_ok@.len(),
    ensures
        t.levels@ == set_levels(reads@, writes_ok@),
        t.reinits == pin_reinit_count(reads@, writes_ok@),
        t.halted == pin_run_halts(reads@, writes_ok@),
{
    let mut state = ControlLoop::new();
    let mut levels: Vec<bool> = Vec::new();
    let mut reinits: usize = 0;
    let mut i: usize = 0;
    proof {
        assert(reads@.skip(0) =~= reads@);
        assert(writes_ok@.skip(0) =~= writes_ok@);
        assert(Seq::<bool>::empty() + set_levels(reads@, writes_ok@)
            =~= set_levels(reads@, writes_ok@));
    }
    while i < reads.len() && !state.halted
        invariant
            i <= reads@.len(),
            writes_ok@.len() == reads@.len(),
            reinits <= i,
            !state.halted ==> set_levels(reads@, writes_ok@) == levels@ + set_levels(
                reads@.skip(i as int),
                writes_ok@.skip(i as int),
            ),
            !state.halted ==> pin_reinit_count(reads@, writes_ok@) == reinits + pin_reinit_count(
                reads@.skip(i as int),
                writes_ok@.skip(i as int),
            ),
            !state.halted ==> pin_run_halts(reads@, writes_ok@) == pin_run_halts(
                reads@.skip(i as int),
                writes_ok@.skip(i as int),
            ),
            state.halted ==> set_levels(reads@, writes_ok@) == levels@,
            state.halted ==> pin_reinit_count(reads@, writes_ok@) == reinits,
            state.halted ==> pin_run_halts(reads@, writes_ok@),
        decreases reads@.len() - i,
    {
        let ghost i0: int = i as int;
        proof {
            assert(reads@.skip(i0).skip(1) =~= reads@.skip(i0 + 1));
            assert(writes_ok@.skip(i0).skip(1) =~= writes_ok@.skip(i0 + 1));
            assert(reads@.skip(i0)[0] == reads@[i0]);
            assert(writes_ok@.skip(i0)[0] == writes_ok@[i0]);
        }
        let outcome = reads[i];
        let cmd = state.plan_pin(&outcome);
        match cmd {
            None => {
            },
            Some(PinCommand::Reinitialize) => {
                reinits = reinits + 1;
            },
            Some(PinCommand::SetLevel(level)) => {
                let ok = writes_ok[i];
                if ok {
                    proof {
                        assert(levels@ + set_levels(reads@.skip(i0), writes_ok@.skip(i0))
                            =~= levels@.push(level) + set_levels(
                            reads@.skip(i0 + 1),
                            writes_ok@.skip(i0 + 1),
                        ));
                    }
                    levels.push(level);
                }
                state.note_pin_write(ok);
            },
        }
        i = i + 1;
        proof {
            if state.halted {
                assert(levels@ + set_levels(reads@.skip(i0), writes_ok@.skip(i0)) =~= levels@);
            }
        }
    }
    proof {
        if !state.halted {
            assert(set_levels(reads@.skip(i as int), writes_ok@.skip(i as int)) =~= Seq::<
                bool,
            >::empty());
            assert(levels@ + set_levels(reads@.skip(i as int), writes_ok@.skip(i as int))
                =~= levels@);
        }
    }
    PinTrace { levels, reinits, halted: state.halted }
}

/// The B-button flags of a script's successfully read samples, in order.
pub open spec fn pin_levels_of_successes(reads: Seq<ReadOutcome>) -> Seq<bool>
    decreases reads.len(),
{
    if reads.len() == 0 {
        Seq::empty()
    } else {
        match reads[0] {
            ReadOutcome::Success(s) => seq![s.button_b] + pin_levels_of_successes(reads.skip(1)),
            ReadOutcome::Failure => pin_levels_of_successes(reads.skip(1)),
        }
    }
}

/// Law: while every pin write succeeds, the loop sets exactly the B-button
/// flag of each successful sample, in order, reinitializes the session once
/// per failed read, and never halts.
pub proof fn lemma_infallible_pin_run(reads: Seq<ReadOutcome>, writes_ok: Seq<bool>)
    requires
        writes_ok.len() == reads.len(),
        forall|i: int| 0 <= i < writes_ok.len() ==> writes_ok[i],
    ensures
        set_levels(reads, writes_ok) == pin_levels_of_successes(reads),
        pin_reinit_count(reads, writes_ok) == failure_count(reads),
        !pin_run_halts(reads, writes_ok),
    decreases reads.len(),
{
    if reads.len() == 0 {
    } else {
        assert forall|i: int| 0 <= i < writes_ok.skip(1).len() implies writes_ok.skip(1)[i] by {
            assert(writes_ok.skip(1)[i] == writes_ok[i + 1]);
        }
        lemma_infallible_pin_run(reads.skip(1), writes_ok.skip(1));
    }
}

/// Law: the first failed pin write halts the run in the very iteration it
/// occurs: nothing read at or after it is mapped or emitted.
pub proof fn lemma_pin_write_failure_halts(reads: Seq<ReadOutcome>, writes_ok: Seq<bool>, i: int)
    requires
        writes_ok.len() == reads.len(),
        0 <= i < reads.len(),
        reads[i] is Success,
        !writes_ok[i],
        forall|j: int| 0 <= j < i ==> !(reads[j] is Success && !writes_ok[j]),
    ensures
        pin_run_halts(reads, writes_ok),
        set_levels(reads, writes_ok) == set_levels(reads.take(i), writes_ok.take(i)),
        pin_reinit_count(reads, writes_ok) == pin_reinit_count(reads.take(i), writes_ok.take(i)),
    decreases i,
{
    if i == 0 {
        assert(set_levels(reads.take(0), writes_ok.take(0)) =~= Seq::<bool>::empty());
    } else {
        assert(!(reads[0] is Success && !writes_ok[0]));
        assert(reads.skip(1)[i - 1] == reads[i]);
        assert(writes_ok.skip(1)[i - 1] == writes_ok[i]);
        assert forall|j: int| 0 <= j < i - 1 implies !(reads.skip(1)[j] is Success && !writes_ok.skip(
            1,
        )[j]) by {
            assert(reads.skip(1)[j] == reads[j + 1]);
            assert(writes_ok.skip(1)[j] == writes_ok[j + 1]);
        }
        lemma_pin_write_failure_halts(reads.skip(1), writes_ok.skip(1), i - 1);
        assert(reads.take(i)[0] == reads[0]);
        assert(writes_ok.take(i)[0] == writes_ok[0]);
        assert(reads.take(i).skip(1) =~= reads.skip(1).take(i - 1));
        assert(writes_ok.take(i).skip(1) =~= writes_ok.skip(1).take(i - 1));
    }
}

} // verus!
