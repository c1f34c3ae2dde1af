use vstd::prelude::*;

use crate::events::Keystroke;
use std::collections::VecDeque;

verus! {

/// The buffer matches the toggle sequence exactly when it is the same
/// length (i.e. full) and structurally equal position by position.
pub open spec fn toggle_match(buffer: Seq<Keystroke>, sequence: Seq<Keystroke>) -> bool {
    &&& buffer.len() == sequence.len()
    &&& forall|i: int| 0 <= i < buffer.len() ==> buffer[i] == sequence[i]
}

/// Pure comparison of the history buffer against the toggle sequence:
/// true exactly when the buffer is full and equal to the sequence, in order.
pub fn should_toggle(history: &VecDeque<Keystroke>, sequence: &[Keystroke]) -> (r: bool)
    ensures
        r == toggle_match(history@, sequence@),
{
    if history.len() != sequence.len() {
        return false;
    }
    let mut i: usize = 0;
    while i < sequence.len()
        invariant
            0 <= i <= sequence.len(),
            history@.len() == sequence@.len(),
            forall|j: int| 0 <= j < i ==> history@[j] == sequence@[j],
        decreases sequence.len() - i,
    {
        if history[i] != sequence[i] {
            return false;
        }
        i += 1;
    }
    true
}

/// Law: a buffer shorter than the toggle sequence (the warm-up period, or
/// any partial content) never matches.
pub proof fn lemma_short_buffer_never_matches(buffer: Seq<Keystroke>, sequence: Seq<Keystroke>)
    requires
        buffer.len() < sequence.len(),
    ensures
        !toggle_match(buffer, sequence),
{
}

} // verus!
