//! The per-session monitor: it drains the fan-out channel into the history
//! and notices when the terminal process has ended.

use vstd::prelude::*;
use crate::events::GlobalEvent;
use crate::history::{retained, History};
use crate::registry::SessionRegistry;
use crate::wire::ChannelEvent;

verus! {

/// An event that ends the session: the empty chunk sent when the terminal
/// process exits, or the channel closing for good.
pub open spec fn is_terminal(event: ChannelEvent) -> bool {
    match event {
        ChannelEvent::Output(d) => d@.len() == 0,
        ChannelEvent::Lagged(_) => false,
        ChannelEvent::Closed => true,
    }
}

/// The state of a monitor: whether it has stopped, and the history.
pub struct MonitorState {
    pub finished: bool,
    pub history: Seq<u8>,
}

/// One step of a monitor: the next state, and whether output ended at
/// this step, so that the session is retired.
pub open spec fn monitor_next(s: MonitorState, event: ChannelEvent) -> (MonitorState, bool) {
    if s.finished {
        (s, false)
    } else if is_terminal(event) {
        (MonitorState { finished: true, history: s.history }, true)
    } else {
        match event {
            ChannelEvent::Output(d) => (
                MonitorState { finished: false, history: retained(s.history + d@) },
                false,
            ),
            _ => (s, false),
        }
    }
}

/// The state after `events`, and at how many steps output ended.
pub open spec fn monitor_run(s: MonitorState, events: Seq<ChannelEvent>) -> (MonitorState, nat)
    decreases events.len(),
{
    if events.len() == 0 {
        (s, 0)
    } else {
        let (mid, n) = monitor_run(s, events.drop_last());
        let (next, ended) = monitor_next(mid, events.last());
        (next, if ended { n + 1 } else { n })
    }
}

/// Watches one session's output channel.
pub struct Monitor {
    session_id: String,
    generation: u64,
    finished: bool,
}

impl Monitor {
    pub closed spec fn session_id(&self) -> Seq<char> {
        self.session_id@
    }

    /// The registration of the watched session.
    pub closed spec fn session_generation(&self) -> u64 {
        self.generation
    }

    pub closed spec fn is_finished(&self) -> bool {
        self.finished
    }

    /// A monitor of the session registered under `session_id` with the
    /// given generation.
    pub fn new(session_id: String, generation: u64) -> (r: Monitor)
        ensures
            r.session_id() == session_id@,
            r.session_generation() == generation,
            !r.is_finished(),
    {
        Monitor { session_id, generation, finished: false }
    }

    pub fn finished(&self) -> (r: bool)
        ensures
            r == self.is_finished(),
    {
        self.finished
    }

    /// Handles one event of the channel. A chunk of output is appended to
    /// the history; a lag is passed over; the end of output stops the
    /// monitor. Returns true at the step where output ended, when the
    /// session is to be retired.
    pub fn step(&mut self, event: ChannelEvent, history: &mut History) -> (r: bool)
        requires
            old(history).wf(),
        ensures
            final(history).wf(),
            final(self).session_id() == old(self).session_id(),
            final(self).session_generation() == old(self).session_generation(),
            ({
                let (next, ended) = monitor_next(
                    MonitorState { finished: old(self).is_finished(), history: old(history)@ },
                    event,
                );
                &&& final(self).is_finished() == next.finished
                &&& final(history)@ == next.history
                &&& r == ended
            }),
    {
        if self.finished {
            return false;
        }
        match event {
            ChannelEvent::Output(d) => {
                if d.len() == 0 {
                    self.finished = true;
                    true
                } else {
                    history.append(d.as_slice());
                    false
                }
            },
            ChannelEvent::Lagged(_) => false,
            ChannelEvent::Closed => {
                self.finished = true;
                true
            },
        }
    }

    /// Takes the watched session out of `registry`, if it is still the
    /// registration this monitor watches, and returns it with the deletion
    /// event to publish. A session that was removed already, or replaced by
    /// a later registration under the same identifier, is left alone and
    /// nothing is published.
    pub fn retire<T>(&self, registry: &mut SessionRegistry<T>) -> (r: Option<(T, GlobalEvent)>)
        requires
            old(registry).wf(),
        ensures
            final(registry).wf(),
            final(registry).next_generation() == old(registry).next_generation(),
            r is Some <==> (old(registry)@.contains_key(self.session_id())
                && old(registry)@[self.session_id()].0 == self.session_generation()),
            r is Some ==> final(registry)@ == old(registry)@.remove(self.session_id()),
            r is None ==> final(registry)@ == old(registry)@,
            r matches Some((s, e)) ==> s == old(registry)@[self.session_id()].1
                && e is SessionDeleted && e.session_id() == self.session_id(),
    {
        match registry.remove_generation(self.session_id.as_str(), self.generation) {
            Some(s) => Some((s, GlobalEvent::SessionDeleted(self.session_id.clone()))),
            None => None,
        }
    }
}

/// Once the end of output arrives, the monitor has stopped and has asked
/// exactly once for its session to be retired, whatever follows; before
/// it, it asked nothing.
pub proof fn lemma_termination_retires_once(
    h: Seq<u8>,
    events: Seq<ChannelEvent>,
    k: int,
)
    requires
        0 <= k < events.len(),
        is_terminal(events[k]),
        forall|j: int| 0 <= j < k ==> !is_terminal(#[trigger] events[j]),
    ensures
        monitor_run(MonitorState { finished: false, history: h }, events).0.finished,
        monitor_run(MonitorState { finished: false, history: h }, events).1 == 1,
        !monitor_run(MonitorState { finished: false, history: h }, events.subrange(0, k)).0.finished,
        monitor_run(MonitorState { finished: false, history: h }, events.subrange(0, k)).1 == 0,
    decreases events.len(),
{
    let s = MonitorState { finished: false, history: h };
    lemma_quiet_prefix(s, events, k);
    if events.len() == k + 1 {
        assert(events.drop_last() =~= events.subrange(0, k));
    } else {
        assert(events.drop_last().subrange(0, k) =~= events.subrange(0, k));
        lemma_termination_retires_once(h, events.drop_last(), k);
    }
}

proof fn lemma_quiet_prefix(s: MonitorState, events: Seq<ChannelEvent>, k: int)
    requires
        !s.finished,
        0 <= k <= events.len(),
        forall|j: int| 0 <= j < k ==> !is_terminal(#[trigger] events[j]),
    ensures
        !monitor_run(s, events.subrange(0, k)).0.finished,
        monitor_run(s, events.subrange(0, k)).1 == 0,
    decreases k,
{
    if k > 0 {
        let pre = events.subrange(0, k);
        assert(pre.drop_last() =~= events.subrange(0, k - 1));
        lemma_quiet_prefix(s, events, k - 1);
    }
}

/// Every event but a lag notice.
pub open spec fn not_lag(event: ChannelEvent) -> bool {
    !(event is Lagged)
}

/// A lag notice changes nothing: the monitor ends in the same state, with
/// the same history and the same publications, as if every lag notice had
/// been absent.
pub proof fn lemma_lag_is_harmless(s: MonitorState, events: Seq<ChannelEvent>)
    ensures
        monitor_run(s, events) == monitor_run(s, events.filter(|e: ChannelEvent| not_lag(e))),
    decreases events.len(),
{
    let pred = |e: ChannelEvent| not_lag(e);
    reveal(Seq::filter);
    if events.len() > 0 {
        lemma_lag_is_harmless(s, events.drop_last());
        let f = events.filter(pred);
        let g = events.drop_last().filter(pred);
        if not_lag(events.last()) {
            assert(f == g.push(events.last()));
            assert(f.drop_last() =~= g);
            assert(f.last() == events.last());
        } else {
            assert(f == g);
        }
    }
}

} // verus!
