use vstd::prelude::*;
use crate::target::Target;

verus! {

/// What to do with the list of connected devices.
#[derive(Clone, Copy, Debug, PartialEq, Eq, Structural)]
pub enum DevicePick {
    /// Take the device at this index without asking.
    Chosen(usize),
    /// Ask the user to choose one.
    Prompt,
    /// No device is connected.
    NoDevice,
    /// Several are connected and nobody may be asked.
    Ambiguous,
}

/// How a device is chosen among `n_devices` connected ones.
pub open spec fn pick_spec(n_devices: nat, non_interactive: bool) -> DevicePick {
    if n_devices == 0 {
        DevicePick::NoDevice
    } else if n_devices == 1 {
        DevicePick::Chosen(0)
    } else if non_interactive {
        DevicePick::Ambiguous
    } else {
        DevicePick::Prompt
    }
}

/// Decides how a device is chosen among `n_devices` connected ones: the only
/// one is taken, several are put to the user unless the run is not
/// interactive.
pub fn pick_device(n_devices: usize, non_interactive: bool) -> (r: DevicePick)
    ensures
        r == pick_spec(n_devices as nat, non_interactive),
{
    if n_devices == 0 {
        DevicePick::NoDevice
    } else if n_devices == 1 {
        DevicePick::Chosen(0)
    } else if non_interactive {
        DevicePick::Ambiguous
    } else {
        DevicePick::Prompt
    }
}

/// The target of the device that `pick` settles on, if any.
pub open spec fn chosen_spec(pick: DevicePick, targets: Seq<Target>, prompted: Option<usize>) -> Option<Target> {
    match pick {
        DevicePick::Chosen(i) => if i < targets.len() { Some(targets[i as int]) } else { None },
        DevicePick::Prompt => match prompted {
            Some(i) => if i < targets.len() { Some(targets[i as int]) } else { None },
            None => None,
        },
        _ => None,
    }
}

/// The target of the device that `pick` settles on, given the targets of
/// the connected devices and, after a prompt, the index the user chose.
pub fn chosen_target(pick: DevicePick, targets: &Vec<Target>, prompted: Option<usize>) -> (r: Option<Target>)
    ensures
        r == chosen_spec(pick, targets@, prompted),
{
    let idx = match pick {
        DevicePick::Chosen(i) => Some(i),
        DevicePick::Prompt => prompted,
        _ => None,
    };
    match idx {
        Some(i) => if i < targets.len() { Some(targets[i]) } else { None },
        None => None,
    }
}

} // verus!
