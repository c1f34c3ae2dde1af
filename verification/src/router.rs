use vstd::prelude::*;

use crate::caps::{axis_set_codes, key_set_codes, AxisSet, KeySet};
use crate::events::{Event, Mode};

verus! {

/// The name and capability sets a virtual output device is built from.
#[derive(Debug)]
pub struct VirtualDeviceConfig {
    pub name: String,
    pub keys: KeySet,
    pub axes: AxisSet,
}

/// The routing rule. Under `Manipulator` every event is forwarded. Under
/// `Mouse` a key or axis event is forwarded exactly when its code is in the
/// output's capability set for that category, and events of any other
/// category are forwarded unconditionally.
pub open spec fn should_forward(e: Event, keys: Set<u16>, axes: Set<u16>, mode: Mode) -> bool {
    mode == Mode::Manipulator || match e {
        Event::Key { code, value } => keys.contains(code),
        Event::RelAxis { code, value } => axes.contains(code),
        Event::Other => true,
    }
}

/// Decide whether to hand `event` to the output device, given the mode in
/// effect. No side effects and no error conditions.
pub fn should_emit(device: &VirtualDeviceConfig, event: &Event, mode: Mode) -> (r: bool)
    ensures
        r == should_forward(*event, key_set_codes(device.keys), axis_set_codes(device.axes), mode),
        mode == Mode::Manipulator ==> r,
        mode == Mode::Mouse && *event is Other ==> r,
{
    if mode == Mode::Manipulator {
        return true;
    }
    match event {
        Event::Key { code, value } => device.keys.contains(*code),
        Event::RelAxis { code, value } => device.axes.contains(*code),
        Event::Other => true,
    }
}

} // verus!
