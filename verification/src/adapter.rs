//! The source-adapter state machine: the decisions inside one continuously
//! reconnecting subscription to an upstream endpoint.
//!
//! The transport work — connecting, awaiting the stream, sleeping out a retry
//! delay — is the caller's: it performs each returned action and feeds the
//! outcome back in as the next event. What is decided here is everything the
//! adapter's contract promises: transient failures and malformed or empty
//! server messages force a reconnect after a fixed delay rather than a crash
//! or a hot loop, slot notifications are normalized into arrival events keyed
//! by the adapter's milestone, and only an explicit cancellation ends the
//! adapter for good.

use vstd::prelude::*;
use crate::channel::ArrivalEvent;
use crate::key::{EventKey, Milestone};

verus! {

/// Fixed delay between reconnect attempts, in milliseconds.
pub const RETRY_DELAY_MS: u64 = 1000;

/// Where one adapter stands. `Disconnected` counts the consecutive failed
/// attempts since the last time the stream was up, for operational logging;
/// it saturates rather than overflows.
#[derive(Clone, Copy, Debug, PartialEq, Eq, Structural)]
pub enum AdapterState {
    Disconnected { attempts: u64 },
    Connecting { attempts: u64 },
    Streaming,
    Cancelled,
}

/// What the transport reports to the adapter.
#[derive(Clone, Copy, Debug, PartialEq, Eq, Structural)]
pub enum StreamEvent {
    RetryElapsed,
    Connected,
    ConnectFailed,
    SlotReceived { slot: u64, instant_ms: u64 },
    Ping,
    Pong,
    EmptyUpdate,
    StreamError,
    StreamClosed,
    Cancel,
}

/// What the caller must do next.
#[derive(Clone, Copy, Debug, PartialEq, Eq, Structural)]
pub enum AdapterAction {
    Wait { delay_ms: u64 },
    Connect,
    Forward { event: ArrivalEvent },
    Ignore,
    Stop,
}

/// Saturating increment of the failed-attempt counter.
pub open spec fn spec_bump(attempts: u64) -> u64 {
    if attempts < u64::MAX {
        (attempts + 1) as u64
    } else {
        attempts
    }
}

/// The transition relation of one adapter racing on `milestone`.
pub open spec fn spec_adapter_step(
    st: AdapterState,
    ev: StreamEvent,
    milestone: Milestone,
) -> (AdapterState, AdapterAction) {
    if st is Cancelled {
        (AdapterState::Cancelled, AdapterAction::Stop)
    } else if ev is Cancel {
        (AdapterState::Cancelled, AdapterAction::Stop)
    } else {
        match st {
            AdapterState::Disconnected { attempts } => match ev {
                StreamEvent::RetryElapsed => (
                    AdapterState::Connecting { attempts },
                    AdapterAction::Connect,
                ),
                _ => (st, AdapterAction::Ignore),
            },
            AdapterState::Connecting { attempts } => match ev {
                StreamEvent::Connected => (AdapterState::Streaming, AdapterAction::Ignore),
                StreamEvent::ConnectFailed => (
                    AdapterState::Disconnected { attempts: spec_bump(attempts) },
                    AdapterAction::Wait { delay_ms: RETRY_DELAY_MS },
                ),
                _ => (st, AdapterAction::Ignore),
            },
            AdapterState::Streaming => match ev {
                StreamEvent::SlotReceived { slot, instant_ms } => (
                    AdapterState::Streaming,
                    AdapterAction::Forward {
                        event: ArrivalEvent { key: EventKey { slot, milestone }, instant_ms },
                    },
                ),
                StreamEvent::Ping => (AdapterState::Streaming, AdapterAction::Ignore),
                StreamEvent::Pong => (AdapterState::Streaming, AdapterAction::Ignore),
                StreamEvent::EmptyUpdate | StreamEvent::StreamError | StreamEvent::StreamClosed
                    => (
                    AdapterState::Disconnected { attempts: 0 },
                    AdapterAction::Wait { delay_ms: RETRY_DELAY_MS },
                ),
                _ => (st, AdapterAction::Ignore),
            },
            AdapterState::Cancelled => (AdapterState::Cancelled, AdapterAction::Stop),
        }
    }
}

/// One decision of the adapter. Beyond following the transition relation, the
/// contract states the adapter's promises outright: cancellation is honored
/// and terminal, it is the only way the adapter stops, every retry waits the
/// fixed delay (no hot loop, no silence), and while streaming every slot
/// notification — and nothing else — is forwarded, normalized under the
/// adapter's milestone with its arrival instant untouched.
pub fn adapter_step(st: AdapterState, ev: StreamEvent, milestone: Milestone) -> (r: (
    AdapterState,
    AdapterAction,
))
    ensures
        r == spec_adapter_step(st, ev, milestone),
        r.0 is Cancelled <==> (st is Cancelled || ev is Cancel),
        r.1 is Stop <==> (st is Cancelled || ev is Cancel),
        r.1 matches AdapterAction::Wait { delay_ms } ==> delay_ms == RETRY_DELAY_MS,
        ({
            &&& st is Streaming
            &&& ev matches StreamEvent::SlotReceived { slot, instant_ms }
            &&& r.1 == (AdapterAction::Forward {
                event: (ArrivalEvent { key: (EventKey { slot, milestone }), instant_ms }),
            })
        } || !(st is Streaming) || !(ev is SlotReceived)),
        r.1 is Forward ==> st is Streaming && ev is SlotReceived,
{
    if matches!(st, AdapterState::Cancelled) {
        return (AdapterState::Cancelled, AdapterAction::Stop);
    }
    if matches!(ev, StreamEvent::Cancel) {
        return (AdapterState::Cancelled, AdapterAction::Stop);
    }
    match st {
        AdapterState::Disconnected { attempts } => match ev {
            StreamEvent::RetryElapsed => (
                AdapterState::Connecting { attempts },
                AdapterAction::Connect,
            ),
            _ => (st, AdapterAction::Ignore),
        },
        AdapterState::Connecting { attempts } => match ev {
            StreamEvent::Connected => (AdapterState::Streaming, AdapterAction::Ignore),
            StreamEvent::ConnectFailed => {
                let bumped = if attempts < u64::MAX {
                    attempts + 1
                } else {
                    attempts
                };
                (
                    AdapterState::Disconnected { attempts: bumped },
                    AdapterAction::Wait { delay_ms: RETRY_DELAY_MS },
                )
            },
            _ => (st, AdapterAction::Ignore),
        },
        AdapterState::Streaming => match ev {
            StreamEvent::SlotReceived { slot, instant_ms } => (
                AdapterState::Streaming,
                AdapterAction::Forward {
                    event: ArrivalEvent { key: EventKey { slot, milestone }, instant_ms },
                },
            ),
            StreamEvent::Ping => (AdapterState::Streaming, AdapterAction::Ignore),
            StreamEvent::Pong => (AdapterState::Streaming, AdapterAction::Ignore),
            StreamEvent::EmptyUpdate | StreamEvent::StreamError | StreamEvent::StreamClosed => (
                AdapterState::Disconnected { attempts: 0 },
                AdapterAction::Wait { delay_ms: RETRY_DELAY_MS },
            ),
            _ => (st, AdapterAction::Ignore),
        },
        AdapterState::Cancelled => (AdapterState::Cancelled, AdapterAction::Stop),
    }
}

/// The state after a whole sequence of events.
pub open spec fn run_adapter(
    st: AdapterState,
    evs: Seq<StreamEvent>,
    milestone: Milestone,
) -> AdapterState
    decreases evs.len(),
{
    if evs.len() == 0 {
        st
    } else {
        run_adapter(spec_adapter_step(st, evs[0], milestone).0, evs.drop_first(), milestone)
    }
}

/// The action each event provokes, in order.
pub open spec fn run_actions(
    st: AdapterState,
    evs: Seq<StreamEvent>,
    milestone: Milestone,
) -> Seq<AdapterAction>
    decreases evs.len(),
{
    if evs.len() == 0 {
        Seq::empty()
    } else {
        seq![spec_adapter_step(st, evs[0], milestone).1] + run_actions(
            spec_adapter_step(st, evs[0], milestone).0,
            evs.drop_first(),
            milestone,
        )
    }
}

/// A trace in which connecting fails `n` times, then succeeds, and one slot
/// notification arrives on the fresh stream.
pub open spec fn retry_trace(n: nat, slot: u64, instant_ms: u64) -> Seq<StreamEvent>
    decreases n,
{
    if n == 0 {
        seq![
            StreamEvent::RetryElapsed,
            StreamEvent::Connected,
            StreamEvent::SlotReceived { slot, instant_ms },
        ]
    } else {
        seq![StreamEvent::RetryElapsed, StreamEvent::ConnectFailed] + retry_trace(
            (n - 1) as nat,
            slot,
            instant_ms,
        )
    }
}

/// Reconnect resumes delivery: however many times connecting fails, once an
/// attempt succeeds the adapter is streaming again, and the next slot
/// notification is forwarded — normalized under the adapter's milestone, its
/// arrival instant untouched. Events missed during the outage are simply
/// absent; nothing else is disturbed.
pub proof fn lemma_reconnect_resumes(n: nat, a: u64, slot: u64, instant_ms: u64, ms: Milestone)
    ensures
        run_adapter((AdapterState::Disconnected { attempts: a }), retry_trace(n, slot, instant_ms), ms)
            is Streaming,
        run_actions((AdapterState::Disconnected { attempts: a }), retry_trace(n, slot, instant_ms), ms)
            .last() == (AdapterAction::Forward {
            event: (ArrivalEvent { key: (EventKey { slot, milestone: ms }), instant_ms }),
        }),
    decreases n,
{
    let st0 = AdapterState::Disconnected { attempts: a };
    let evs = retry_trace(n, slot, instant_ms);
    if n == 0 {
        let e2 = StreamEvent::SlotReceived { slot, instant_ms };
        assert(evs[0] == StreamEvent::RetryElapsed);
        let st1 = spec_adapter_step(st0, StreamEvent::RetryElapsed, ms).0;
        let tail1 = evs.drop_first();
        assert(tail1 =~= seq![StreamEvent::Connected, e2]);
        let st2 = spec_adapter_step(st1, StreamEvent::Connected, ms).0;
        assert(st2 is Streaming);
        let tail2 = tail1.drop_first();
        assert(tail2 =~= seq![e2]);
        assert(tail2.drop_first() =~= Seq::<StreamEvent>::empty());
        assert(tail1[0] == StreamEvent::Connected);
        assert(tail2[0] == e2);
        assert(run_adapter(st0, evs, ms) == run_adapter(st1, tail1, ms));
        assert(run_adapter(st1, tail1, ms) == run_adapter(st2, tail2, ms));
        let st3 = spec_adapter_step(st2, e2, ms).0;
        let empty = tail2.drop_first();
        assert(empty.len() == 0);
        assert(run_adapter(st2, tail2, ms) == run_adapter(st3, empty, ms));
        assert(run_adapter(st3, empty, ms) == st3);
        let acts2 = run_actions(st2, tail2, ms);
        assert(run_actions(st3, empty, ms) =~= Seq::<AdapterAction>::empty());
        assert(acts2 == seq![spec_adapter_step(st2, e2, ms).1] + run_actions(st3, empty, ms));
        assert(acts2 =~= seq![spec_adapter_step(st2, e2, ms).1]);
        assert(run_actions(st1, tail1, ms) == seq![spec_adapter_step(st1, StreamEvent::Connected, ms).1]
            + acts2);
        assert(run_actions(st0, evs, ms) == seq![spec_adapter_step(st0, StreamEvent::RetryElapsed, ms).1]
            + run_actions(st1, tail1, ms));
        assert(run_actions(st0, evs, ms) =~= seq![
            spec_adapter_step(st0, StreamEvent::RetryElapsed, ms).1,
            spec_adapter_step(st1, StreamEvent::Connected, ms).1,
            spec_adapter_step(st2, e2, ms).1,
        ]);
    } else {
        let rest = retry_trace((n - 1) as nat, slot, instant_ms);
        assert(evs == seq![StreamEvent::RetryElapsed, StreamEvent::ConnectFailed] + rest);
        assert(evs[0] == StreamEvent::RetryElapsed);
        let st1 = spec_adapter_step(st0, StreamEvent::RetryElapsed, ms).0;
        assert(st1 == (AdapterState::Connecting { attempts: a }));
        let tail1 = evs.drop_first();
        assert(tail1 =~= seq![StreamEvent::ConnectFailed] + rest);
        assert(tail1[0] == StreamEvent::ConnectFailed);
        let st2 = spec_adapter_step(st1, StreamEvent::ConnectFailed, ms).0;
        assert(st2 == (AdapterState::Disconnected { attempts: spec_bump(a) }));
        assert(tail1.drop_first() =~= rest);
        lemma_reconnect_resumes((n - 1) as nat, spec_bump(a), slot, instant_ms, ms);
        assert(run_adapter(st0, evs, ms) == run_adapter(st1, tail1, ms));
        assert(run_adapter(st1, tail1, ms) == run_adapter(st2, rest, ms));
        lemma_run_actions_len(st2, rest, ms);
        lemma_retry_trace_len((n - 1) as nat, slot, instant_ms);
        let acts2 = run_actions(st2, rest, ms);
        assert(acts2.len() > 0);
        assert(run_actions(st1, tail1, ms) == seq![spec_adapter_step(st1, StreamEvent::ConnectFailed, ms).1]
            + acts2);
        assert(run_actions(st1, tail1, ms).last() == acts2.last());
        assert(run_actions(st0, evs, ms) == seq![spec_adapter_step(st0, StreamEvent::RetryElapsed, ms).1]
            + run_actions(st1, tail1, ms));
        assert(run_actions(st0, evs, ms).last() == run_actions(st1, tail1, ms).last());
    }
}

/// A retry trace always holds at least the final three events.
pub proof fn lemma_retry_trace_len(n: nat, slot: u64, instant_ms: u64)
    ensures
        retry_trace(n, slot, instant_ms).len() == 3 + 2 * n,
    decreases n,
{
    if n > 0 {
        lemma_retry_trace_len((n - 1) as nat, slot, instant_ms);
    }
}

/// Every event provokes exactly one action.
pub proof fn lemma_run_actions_len(st: AdapterState, evs: Seq<StreamEvent>, ms: Milestone)
    ensures
        run_actions(st, evs, ms).len() == evs.len(),
    decreases evs.len(),
{
    if evs.len() > 0 {
        lemma_run_actions_len(spec_adapter_step(st, evs[0], ms).0, evs.drop_first(), ms);
    }
}

/// Only cancellation ends an adapter: a trace with no `Cancel` event never
/// reaches the terminal state and never provokes a `Stop` action.
pub proof fn lemma_stops_only_on_cancel(st: AdapterState, evs: Seq<StreamEvent>, ms: Milestone)
    requires
        !(st is Cancelled),
        forall|i: int| 0 <= i < evs.len() ==> !((#[trigger] evs[i]) is Cancel),
    ensures
        !(run_adapter(st, evs, ms) is Cancelled),
        forall|i: int| 0 <= i < evs.len() ==> !((#[trigger] run_actions(st, evs, ms)[i]) is Stop),
    decreases evs.len(),
{
    lemma_run_actions_len(st, evs, ms);
    if evs.len() > 0 {
        let st1 = spec_adapter_step(st, evs[0], ms).0;
        assert(!(evs[0] is Cancel));
        assert(forall|i: int|
            0 <= i < evs.drop_first().len() ==> !((#[trigger] evs.drop_first()[i]) is Cancel));
        lemma_stops_only_on_cancel(st1, evs.drop_first(), ms);
        assert forall|i: int|
            0 <= i < evs.len() implies !((#[trigger] run_actions(st, evs, ms)[i]) is Stop) by {
            if i > 0 {
                assert(run_actions(st, evs, ms)[i] == run_actions(st1, evs.drop_first(), ms)[i
                    - 1]);
            }
        }
    }
}

} // verus!
