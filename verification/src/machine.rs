//! A mathematical model of the command-stream walk: the tick-tracking state
//! machine that reads one command tag per step and either advances the
//! cursor past the record, stops, or fails. The executable decoder is proved
//! to agree with a run of this machine.

use vstd::prelude::*;
use crate::bytes::{i32_le, lossy_of};
use crate::error::DemoError;

verus! {

/// Why the walk stopped without an error. Every stop leaves the last
/// recorded tick as a usable result.
#[derive(Clone, Copy, Debug, PartialEq, Eq, Structural)]
pub enum StopReason {
    /// A stream terminator record (tag 7) was read.
    Terminator,
    /// A data-table record (tag 6) was read; its inner layout is not
    /// decoded, so the walk ends early with the ticks seen so far.
    Unimplemented,
    /// The tick carried over from the previous record fell below the last
    /// recorded tick: a consistency violation, treated as a clean stop.
    Regression,
}

/// The mutable state of the walk. `pending` is the tick read from the most
/// recent tick-stamped record; `observed` is the last recorded tick, the
/// result so far; `log` is the console-command log.
pub ghost struct MachineState {
    pub pos: int,
    pub pending: int,
    pub observed: Option<int>,
    pub log: Seq<(int, Seq<char>)>,
}

/// The outcome of one step of the walk, or of a bounded run: still going,
/// stopped with a result, or failed. A failure carries no tick: a failed
/// walk leaves no usable result behind, only the log gathered so far.
pub ghost enum MachineStep {
    Next(MachineState),
    Done { observed: int, log: Seq<(int, Seq<char>)>, reason: StopReason },
    Fail { err: DemoError, log: Seq<(int, Seq<char>)> },
}

/// A relative seek to absolute position `np`: it succeeds for any target
/// inside the representable offset range, even past the end of the buffer,
/// and fails otherwise without a position.
pub open spec fn seek_to(
    np: int,
    pending: int,
    observed: Option<int>,
    log: Seq<(int, Seq<char>)>,
) -> MachineStep {
    if 0 <= np <= usize::MAX {
        MachineStep::Next(MachineState { pos: np, pending: pending, observed: observed, log: log })
    } else {
        MachineStep::Fail { err: DemoError::InvalidSeek, log: log }
    }
}

/// A read ran past the end of the buffer.
pub open spec fn eof_at(log: Seq<(int, Seq<char>)>) -> MachineStep {
    MachineStep::Fail { err: DemoError::UnexpectedEndOfData, log: log }
}

/// One step of the walk on buffer `b` with signon length `signon`, from
/// state `st`: read one tag byte, apply the trailing tick-regression check,
/// then dispatch on the tag.
pub open spec fn step(b: Seq<u8>, signon: int, st: MachineState) -> MachineStep {
    if !(0 <= st.pos && st.pos + 1 <= b.len()) {
        eof_at(st.log)
    } else {
        let tag = b[st.pos];
        let p = st.pos + 1;
        if st.observed is Some && st.pending < st.observed->0 {
            MachineStep::Done {
                observed: st.observed->0,
                log: st.log,
                reason: StopReason::Regression,
            }
        } else {
            let obs = Some(st.pending);
            if tag == 1 {
                // signon boundary: seek past the signon payload
                seek_to(p + signon - 1, st.pending, obs, st.log)
            } else if tag == 2 {
                // packet: tick, 4-byte field, 80-byte field, sized payload
                if !(p + 4 <= b.len()) {
                    eof_at(st.log)
                } else if !(p + 8 <= usize::MAX) {
                    MachineStep::Fail { err: DemoError::InvalidSeek, log: st.log }
                } else if !(p + 88 <= usize::MAX) {
                    MachineStep::Fail { err: DemoError::InvalidSeek, log: st.log }
                } else if !(p + 92 <= b.len()) {
                    eof_at(st.log)
                } else {
                    seek_to(p + 92 + i32_le(b, p + 88), i32_le(b, p), obs, st.log)
                }
            } else if tag == 3 {
                // tick-sync marker: tick only
                if !(p + 4 <= b.len()) {
                    eof_at(st.log)
                } else {
                    MachineStep::Next(MachineState {
                        pos: p + 4,
                        pending: i32_le(b, p),
                        observed: obs,
                        log: st.log,
                    })
                }
            } else if tag == 4 {
                // console command: tick, sized text payload, logged
                if !(p + 8 <= b.len()) {
                    eof_at(st.log)
                } else if i32_le(b, p + 4) < 0 || !(p + 8 + i32_le(b, p + 4) <= b.len()) {
                    eof_at(st.log)
                } else {
                    let tick = i32_le(b, p);
                    let text = lossy_of(b.subrange(p + 8, p + 8 + i32_le(b, p + 4)));
                    MachineStep::Next(MachineState {
                        pos: p + 8 + i32_le(b, p + 4),
                        pending: tick,
                        observed: obs,
                        log: st.log.push((tick, text)),
                    })
                }
            } else if tag == 5 {
                // user input command: tick, 4-byte field, sized payload
                if !(p + 4 <= b.len()) {
                    eof_at(st.log)
                } else if !(p + 8 <= usize::MAX) {
                    MachineStep::Fail { err: DemoError::InvalidSeek, log: st.log }
                } else if !(p + 12 <= b.len()) {
                    eof_at(st.log)
                } else {
                    seek_to(p + 12 + i32_le(b, p + 8), i32_le(b, p), obs, st.log)
                }
            } else if tag == 6 {
                // data tables: not decoded, stop with the ticks seen so far
                MachineStep::Done { observed: st.pending, log: st.log, reason: StopReason::Unimplemented }
            } else if tag == 7 {
                // stream terminator
                MachineStep::Done { observed: st.pending, log: st.log, reason: StopReason::Terminator }
            } else if tag == 8 {
                // string tables / custom data: tick, sized payload
                if !(p + 8 <= b.len()) {
                    eof_at(st.log)
                } else {
                    seek_to(p + 8 + i32_le(b, p + 4), i32_le(b, p), obs, st.log)
                }
            } else {
                MachineStep::Fail {
                    err: DemoError::UnrecognizedTag { tag: tag, offset: st.pos as usize },
                    log: st.log,
                }
            }
        }
    }
}

/// A step budget that no stream whose records move the cursor forward can
/// exhaust: one step per buffer byte, plus room for the one backward
/// header-relative seek a signon record may make, plus the final step that
/// runs off the end. A walk still going after this many steps is seeking in
/// a cycle and will never end.
pub open spec fn stall_bound(len: nat) -> nat {
    len + 0x1_0000_0002
}

/// Runs the walk for at most `fuel` steps. `Next` means the fuel ran out
/// with the walk still going; any other outcome is the walk's own.
pub open spec fn run(b: Seq<u8>, signon: int, st: MachineState, fuel: nat) -> MachineStep
    decreases fuel,
{
    if fuel == 0 {
        MachineStep::Next(st)
    } else {
        match step(b, signon, st) {
            MachineStep::Next(st2) => run(b, signon, st2, (fuel - 1) as nat),
            r => r,
        }
    }
}

/// Extending a run that has reached state `cur` by one step gives exactly
/// `step` of `cur`.
pub proof fn lemma_run_succ(b: Seq<u8>, signon: int, st0: MachineState, n: nat, cur: MachineState)
    requires
        run(b, signon, st0, n) == MachineStep::Next(cur),
    ensures
        run(b, signon, st0, n + 1) == step(b, signon, cur),
    decreases n,
{
    if n == 0 {
        assert(cur == st0);
        reveal_with_fuel(run, 2);
    } else {
        match step(b, signon, st0) {
            MachineStep::Next(st1) => {
                lemma_run_succ(b, signon, st1, (n - 1) as nat, cur);
            },
            _ => {},
        }
    }
}

/// A walk halted by a halting step stays halted under any larger fuel: the
/// result of a completed run does not depend on the fuel chosen.
pub proof fn lemma_run_halt_stable(b: Seq<u8>, signon: int, st0: MachineState, n: nat, m: nat)
    requires
        !(run(b, signon, st0, n) is Next),
        n <= m,
    ensures
        run(b, signon, st0, m) == run(b, signon, st0, n),
    decreases n,
{
    if n == 0 {
    } else {
        match step(b, signon, st0) {
            MachineStep::Next(st1) => {
                lemma_run_halt_stable(b, signon, st1, (n - 1) as nat, (m - 1) as nat);
            },
            _ => {},
        }
    }
}

/// A run's completed outcome is unique: any two fuels that make the walk
/// halt agree on the outcome, so an existential witness in a contract pins
/// down one result.
pub proof fn lemma_run_result_unique(
    b: Seq<u8>,
    signon: int,
    st0: MachineState,
    n1: nat,
    n2: nat,
)
    requires
        !(run(b, signon, st0, n1) is Next),
        !(run(b, signon, st0, n2) is Next),
    ensures
        run(b, signon, st0, n1) == run(b, signon, st0, n2),
{
    if n1 <= n2 {
        lemma_run_halt_stable(b, signon, st0, n1, n2);
    } else {
        lemma_run_halt_stable(b, signon, st0, n2, n1);
    }
}

/// Every halted run halts through one final step: some earlier fuel leaves
/// the walk in a state whose single step is the run's whole outcome. With
/// the per-step laws below, this carries each of them to whole runs: a run
/// that ends `Done` at a terminator yields the pending tick of the state
/// that read the terminator, a run that ends on a regression keeps the
/// earlier, higher recorded tick, and a run that ends `Fail` names the step
/// whose read or seek failed.
pub proof fn lemma_run_halts_by_step(b: Seq<u8>, signon: int, st0: MachineState, n: nat)
    requires
        !(run(b, signon, st0, n) is Next),
    ensures
        exists|k: nat, st: MachineState|
            k < n && #[trigger] run(b, signon, st0, k) == MachineStep::Next(st)
                && #[trigger] step(b, signon, st) == run(b, signon, st0, n),
    decreases n,
{
    match step(b, signon, st0) {
        MachineStep::Next(st1) => {
            lemma_run_halts_by_step(b, signon, st1, (n - 1) as nat);
            let (k1, st) = choose|k1: nat, st: MachineState|
                k1 < n - 1 && #[trigger] run(b, signon, st1, k1) == MachineStep::Next(st)
                    && #[trigger] step(b, signon, st) == run(b, signon, st1, (n - 1) as nat);
            assert(run(b, signon, st0, k1 + 1) == run(b, signon, st1, k1));
            assert(((k1 + 1) as nat) < n && run(b, signon, st0, (k1 + 1) as nat)
                == MachineStep::Next(st) && step(b, signon, st) == run(b, signon, st0, n));
        },
        _ => {
            assert(0 < n && run(b, signon, st0, 0nat) == MachineStep::Next(st0) && step(
                b,
                signon,
                st0,
            ) == run(b, signon, st0, n));
        },
    }
}

/// Tick-stamped records (tags 2, 3, 4, 5 and 8) set the pending tick to the
/// 32-bit tick field right after the tag byte; every other record leaves it
/// unchanged. Together with `lemma_terminator_yields_pending`: a stream that
/// ends at a terminator yields the tick of the last tick-stamped record
/// processed before it.
pub proof fn lemma_tick_records_set_pending(
    b: Seq<u8>,
    signon: int,
    st: MachineState,
    st2: MachineState,
)
    requires
        step(b, signon, st) == MachineStep::Next(st2),
    ensures
        ({
            let tag = b[st.pos];
            if tag == 2 || tag == 3 || tag == 4 || tag == 5 || tag == 8 {
                st2.pending == i32_le(b, st.pos + 1)
            } else {
                st2.pending == st.pending
            }
        }),
{
}

/// A walk that stops at a stream terminator yields exactly the pending
/// tick: the tick recorded by the last tick-stamped record processed before
/// the terminator.
pub proof fn lemma_terminator_yields_pending(b: Seq<u8>, signon: int, st: MachineState)
    requires
        (step(b, signon, st) matches MachineStep::Done { reason, .. } && reason
            == StopReason::Terminator),
    ensures
        step(b, signon, st) == (MachineStep::Done {
            observed: st.pending,
            log: st.log,
            reason: StopReason::Terminator,
        }),
{
}

/// A walk that stops on a tick regression preserves the earlier, higher
/// recorded tick as its result, not the later, lower one.
pub proof fn lemma_regression_keeps_higher_tick(b: Seq<u8>, signon: int, st: MachineState)
    requires
        (step(b, signon, st) matches MachineStep::Done { reason, .. } && reason
            == StopReason::Regression),
    ensures
        st.observed is Some,
        st.pending < st.observed->0,
        step(b, signon, st) == (MachineStep::Done {
            observed: st.observed->0,
            log: st.log,
            reason: StopReason::Regression,
        }),
{
}

/// The terminator law over a whole run: a walk that completes at a stream
/// terminator yields the pending tick of the state that read the
/// terminator — the tick recorded by the last tick-stamped record processed
/// before it (`lemma_tick_records_set_pending`), or zero when none was.
pub proof fn lemma_run_terminator_yields_last_tick(
    b: Seq<u8>,
    signon: int,
    st0: MachineState,
    n: nat,
)
    requires
        (run(b, signon, st0, n) matches MachineStep::Done { reason, .. } && reason
            == StopReason::Terminator),
    ensures
        exists|k: nat, st: MachineState|
            k < n && #[trigger] run(b, signon, st0, k) == MachineStep::Next(st)
                && #[trigger] step(b, signon, st) == run(b, signon, st0, n) && run(
                b,
                signon,
                st0,
                n,
            ) == (MachineStep::Done {
                observed: st.pending,
                log: st.log,
                reason: StopReason::Terminator,
            }),
{
    lemma_run_halts_by_step(b, signon, st0, n);
    let (k, st) = choose|k: nat, st: MachineState|
        k < n && #[trigger] run(b, signon, st0, k) == MachineStep::Next(st)
            && #[trigger] step(b, signon, st) == run(b, signon, st0, n);
    lemma_terminator_yields_pending(b, signon, st);
    assert(k < n && run(b, signon, st0, k) == MachineStep::Next(st) && step(b, signon, st)
        == run(b, signon, st0, n) && run(b, signon, st0, n) == (MachineStep::Done {
        observed: st.pending,
        log: st.log,
        reason: StopReason::Terminator,
    }));
}

/// The regression law over a whole run: a walk that completes on a tick
/// regression preserves the earlier, higher recorded tick of the state
/// whose carried-over tick fell below it; the later, lower tick is never
/// the result.
pub proof fn lemma_run_regression_keeps_higher_tick(
    b: Seq<u8>,
    signon: int,
    st0: MachineState,
    n: nat,
)
    requires
        (run(b, signon, st0, n) matches MachineStep::Done { reason, .. } && reason
            == StopReason::Regression),
    ensures
        exists|k: nat, st: MachineState|
            k < n && #[trigger] run(b, signon, st0, k) == MachineStep::Next(st)
                && #[trigger] step(b, signon, st) == run(b, signon, st0, n) && st.observed
                is Some && st.pending < st.observed->0 && run(b, signon, st0, n)
                == (MachineStep::Done {
                observed: st.observed->0,
                log: st.log,
                reason: StopReason::Regression,
            }),
{
    lemma_run_halts_by_step(b, signon, st0, n);
    let (k, st) = choose|k: nat, st: MachineState|
        k < n && #[trigger] run(b, signon, st0, k) == MachineStep::Next(st)
            && #[trigger] step(b, signon, st) == run(b, signon, st0, n);
    lemma_regression_keeps_higher_tick(b, signon, st);
    assert(k < n && run(b, signon, st0, k) == MachineStep::Next(st) && step(b, signon, st)
        == run(b, signon, st0, n) && st.observed is Some && st.pending < st.observed->0 && run(
        b,
        signon,
        st0,
        n,
    ) == (MachineStep::Done {
        observed: st.observed->0,
        log: st.log,
        reason: StopReason::Regression,
    }));
}

} // verus!
