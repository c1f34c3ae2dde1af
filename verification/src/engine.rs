use vstd::prelude::*;

use crate::caps::{axis_set_codes, key_set_codes};
use crate::events::{Event, Keystroke, Mode};
use crate::history::{observe_spec, History};
use crate::router::{should_emit, should_forward, VirtualDeviceConfig};
use crate::toggle::{should_toggle, toggle_match};

verus! {

/// What the per-event step decided: whether to forward the event, and on
/// which virtual output — always the one active before any flip.
pub struct StepDecision {
    pub forward: bool,
    pub output: Mode,
}

/// The event-processing state machine: the history buffer, the toggle
/// sequence, the current mode, and the two virtual outputs' configurations.
pub struct Engine {
    pub history: History,
    pub sequence: Vec<Keystroke>,
    pub mode: Mode,
    pub manipulator: VirtualDeviceConfig,
    pub mouse: VirtualDeviceConfig,
}

impl Engine {
    /// The history buffer is sized exactly to the toggle sequence length.
    pub open spec fn wf(self) -> bool {
        &&& self.history.wf()
        &&& self.history.cap() == self.sequence@.len()
        &&& self.sequence@.len() >= 1
    }

    /// The configuration of the output that is active under `mode`.
    pub open spec fn spec_active_config(self, mode: Mode) -> VirtualDeviceConfig {
        match mode {
            Mode::Manipulator => self.manipulator,
            Mode::Mouse => self.mouse,
        }
    }

    pub fn new(
        sequence: Vec<Keystroke>,
        default_mode: Mode,
        manipulator: VirtualDeviceConfig,
        mouse: VirtualDeviceConfig,
    ) -> (r: Engine)
        requires
            sequence@.len() >= 1,
        ensures
            r.wf(),
            r.history@ == Seq::<Keystroke>::empty(),
            r.sequence == sequence,
            r.mode == default_mode,
            r.manipulator == manipulator,
            r.mouse == mouse,
    {
        let capacity = sequence.len();
        Engine { history: History::new(capacity), sequence, mode: default_mode, manipulator, mouse }
    }

    /// Process one incoming event, in the governing order: record it in the
    /// history, decide forwarding under the mode in effect before this event,
    /// then — if the event was recorded and the buffer now matches the toggle
    /// sequence — flip the mode for subsequent events only.
    pub fn step(&mut self, event: &Event) -> (d: StepDecision)
        requires
            old(self).wf(),
        ensures
            final(self).wf(),
            final(self).sequence == old(self).sequence,
            final(self).manipulator == old(self).manipulator,
            final(self).mouse == old(self).mouse,
            final(self).history@ == observe_spec(
                old(self).history@,
                old(self).history.cap(),
                *event,
            ),
            final(self).history.cap() == old(self).history.cap(),
            // The event that completes a match is routed under the pre-flip mode.
            d.output == old(self).mode,
            d.forward == should_forward(
                *event,
                key_set_codes(old(self).spec_active_config(old(self).mode).keys),
                axis_set_codes(old(self).spec_active_config(old(self).mode).axes),
                old(self).mode,
            ),
            // The mode flips exactly when a key event makes the freshly
            // updated buffer equal to the toggle sequence.
            final(self).mode == if event.is_key() && toggle_match(
                final(self).history@,
                old(self).sequence@,
            ) {
                old(self).mode.spec_flipped()
            } else {
                old(self).mode
            },
    {
        let recorded = self.history.observe(event);
        let output = self.mode;
        let forward = match self.mode {
            Mode::Manipulator => should_emit(&self.manipulator, event, self.mode),
            Mode::Mouse => should_emit(&self.mouse, event, self.mode),
        };
        if recorded && should_toggle(self.history.contents(), self.sequence.as_slice()) {
            self.mode = self.mode.flipped();
        }
        StepDecision { forward, output }
    }
}

} // verus!
