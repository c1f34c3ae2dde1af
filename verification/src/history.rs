use vstd::prelude::*;

use crate::events::{Event, Keystroke};
use std::collections::VecDeque;

verus! {

/// One step of the history buffer: a key event is appended (evicting the
/// oldest entry first when the buffer is already at capacity, strict FIFO),
/// any other event leaves the buffer untouched.
pub open spec fn observe_spec(buf: Seq<Keystroke>, cap: nat, e: Event) -> Seq<Keystroke> {
    if e.is_key() {
        let room = if buf.len() >= cap {
            buf.drop_first()
        } else {
            buf
        };
        room.push(e.spec_keystroke())
    } else {
        buf
    }
}

/// The buffer contents after feeding a whole sequence of events, oldest first.
pub open spec fn history_after(init: Seq<Keystroke>, cap: nat, events: Seq<Event>) -> Seq<
    Keystroke,
>
    decreases events.len(),
{
    if events.len() == 0 {
        init
    } else {
        observe_spec(history_after(init, cap, events.drop_last()), cap, events.last())
    }
}

/// A fixed-capacity FIFO window over the most recent key events.
/// The capacity is fixed at construction (to the toggle sequence length)
/// and never changes.
pub struct History {
    entries: VecDeque<Keystroke>,
    capacity: usize,
}

impl View for History {
    type V = Seq<Keystroke>;

    closed spec fn view(&self) -> Seq<Keystroke> {
        self.entries@
    }
}

impl History {
    pub closed spec fn cap(self) -> nat {
        self.capacity as nat
    }

    /// The buffer never holds more entries than its capacity.
    pub open spec fn wf(self) -> bool {
        &&& self@.len() <= self.cap()
        &&& self.cap() >= 1
    }

    pub fn new(capacity: usize) -> (r: History)
        requires
            capacity >= 1,
        ensures
            r.wf(),
            r@ == Seq::<Keystroke>::empty(),
            r.cap() == capacity,
    {
        History { entries: VecDeque::new(), capacity }
    }

    /// The current entries, oldest first, for toggle matching.
    pub fn contents(&self) -> (r: &VecDeque<Keystroke>)
        ensures
            r@ == self@,
    {
        &self.entries
    }

    /// Feed one event: a key event is recorded as a keystroke (evicting the
    /// oldest entry when full), anything else is ignored.
    pub fn observe(&mut self, event: &Event) -> (recorded: bool)
        requires
            old(self).wf(),
        ensures
            final(self).wf(),
            final(self).cap() == old(self).cap(),
            recorded == event.is_key(),
            final(self)@ == observe_spec(old(self)@, old(self).cap(), *event),
    {
        match event {
            Event::Key { code, value } => {
                if self.entries.len() == self.capacity {
                    let _ = self.entries.pop_front();
                    proof {
                        assert(self.entries@ =~= old(self).entries@.drop_first());
                    }
                }
                self.entries.push_back(Keystroke { key: *code, value: *value });
                true
            },
            _ => false,
        }
    }
}

/// Law: however many events are fed and in whatever order, the buffer never
/// grows beyond its capacity.
pub proof fn lemma_buffer_bound(init: Seq<Keystroke>, cap: nat, events: Seq<Event>)
    requires
        init.len() <= cap,
        cap >= 1,
    ensures
        history_after(init, cap, events).len() <= cap,
    decreases events.len(),
{
    if events.len() > 0 {
        lemma_buffer_bound(init, cap, events.drop_last());
    }
}

/// The keystrokes of the key events among `events`, in order.
pub open spec fn keystrokes_of(events: Seq<Event>) -> Seq<Keystroke>
    decreases events.len(),
{
    if events.len() == 0 {
        Seq::empty()
    } else if events.last().is_key() {
        keystrokes_of(events.drop_last()).push(events.last().spec_keystroke())
    } else {
        keystrokes_of(events.drop_last())
    }
}

/// Law: a buffer that started empty always holds exactly the most recent
/// key events — the last `cap` keystrokes of the fed stream, or all of them
/// while fewer have been seen.
pub proof fn lemma_history_is_recent_keystrokes(cap: nat, events: Seq<Event>)
    requires
        cap >= 1,
    ensures
        history_after(Seq::<Keystroke>::empty(), cap, events) == {
            let ks = keystrokes_of(events);
            if ks.len() <= cap {
                ks
            } else {
                ks.skip(ks.len() - cap)
            }
        },
    decreases events.len(),
{
    let init = Seq::<Keystroke>::empty();
    if events.len() == 0 {
        assert(history_after(init, cap, events) =~= keystrokes_of(events));
    } else {
        let shorter = events.drop_last();
        let last = events.last();
        lemma_history_is_recent_keystrokes(cap, shorter);
        let ks0 = keystrokes_of(shorter);
        let prior = history_after(init, cap, shorter);
        if last.is_key() {
            let k = last.spec_keystroke();
            let ks = keystrokes_of(events);
            assert(ks == ks0.push(k));
            if prior.len() >= cap {
                assert(prior.len() == cap);
                assert(ks0.len() >= cap);
                assert(history_after(init, cap, events) == prior.drop_first().push(k));
                assert(prior.drop_first().push(k) =~= ks.skip(ks.len() - cap)) by {
                    assert(prior == ks0.skip(ks0.len() - cap));
                    assert forall|i: int| 0 <= i < cap implies prior.drop_first().push(k)[i]
                        == ks.skip(ks.len() - cap)[i] by {
                        if i < cap - 1 {
                            assert(prior.drop_first().push(k)[i] == prior[i + 1]);
                            assert(prior[i + 1] == ks0[ks0.len() - cap + i + 1]);
                            assert(ks.skip(ks.len() - cap)[i] == ks[ks.len() - cap + i]);
                            assert(ks[ks.len() - cap + i] == ks0[ks0.len() - cap + i + 1]);
                        } else {
                            assert(ks.skip(ks.len() - cap)[i] == ks[ks.len() - 1]);
                        }
                    }
                }
            } else {
                assert(history_after(init, cap, events) == prior.push(k));
                assert(ks0.len() < cap);
                assert(prior == ks0);
                assert(ks.len() <= cap);
            }
        } else {
            assert(keystrokes_of(events) == ks0);
            assert(history_after(init, cap, events) == prior);
        }
    }
}

/// Whether an entry is the keystroke of some key event among `events`.
pub open spec fn derived_from_key(entry: Keystroke, events: Seq<Event>) -> bool {
    exists|i: int|
        0 <= i < events.len() && (#[trigger] events[i]).is_key() && events[i].spec_keystroke()
            == entry
}

proof fn lemma_derived_in_longer(entry: Keystroke, events: Seq<Event>)
    requires
        events.len() > 0,
        derived_from_key(entry, events.drop_last()),
    ensures
        derived_from_key(entry, events),
{
    let shorter = events.drop_last();
    let i = choose|i: int|
        0 <= i < shorter.len() && (#[trigger] shorter[i]).is_key() && shorter[i].spec_keystroke()
            == entry;
    assert(shorter[i] == events.subrange(0, events.len() - 1)[i]);
    assert(events[i].is_key() && events[i].spec_keystroke() == entry);
}

/// Law: the buffer never contains an entry derived from a non-key event:
/// every entry either was present initially or is the keystroke of some key
/// event among those fed.
pub proof fn lemma_content_filter(init: Seq<Keystroke>, cap: nat, events: Seq<Event>)
    requires
        cap >= 1,
    ensures
        forall|entry: Keystroke| #[trigger]
            history_after(init, cap, events).contains(entry) ==> init.contains(entry)
                || derived_from_key(entry, events),
    decreases events.len(),
{
    if events.len() > 0 {
        let shorter = events.drop_last();
        let prior = history_after(init, cap, shorter);
        let last = events.last();
        lemma_content_filter(init, cap, shorter);
        assert forall|entry: Keystroke| #[trigger]
            history_after(init, cap, events).contains(entry) implies init.contains(entry)
            || derived_from_key(entry, events) by {
            if last.is_key() {
                let room = if prior.len() >= cap {
                    prior.drop_first()
                } else {
                    prior
                };
                let cur = room.push(last.spec_keystroke());
                assert(history_after(init, cap, events) == cur);
                let k = choose|k: int| 0 <= k < cur.len() && cur[k] == entry;
                if k == room.len() {
                    assert(entry == last.spec_keystroke());
                    assert(events[events.len() - 1] == last);
                    assert(derived_from_key(entry, events));
                } else {
                    assert(entry == room[k]);
                    if prior.len() >= cap {
                        assert(room[k] == prior.subrange(1, prior.len() as int)[k]);
                        assert(prior[k + 1] == entry);
                    }
                    assert(prior.contains(entry));
                    if !init.contains(entry) {
                        lemma_derived_in_longer(entry, events);
                    }
                }
            } else {
                assert(prior.contains(entry));
                if !init.contains(entry) {
                    lemma_derived_in_longer(entry, events);
                }
            }
        }
    }
}

} // verus!
