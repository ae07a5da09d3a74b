//! Choosing the physical device and queue family the renderer runs on:
//! the one piece of the setup that is a decision rather than a call. The
//! collaborator enumerates what the machine offers and hands it in as
//! plain values; the choice made here is what it then opens.

use vstd::prelude::*;

verus! {

/// The classes a physical device can report, ordered by preference.
#[derive(Clone, Copy, PartialEq, Eq, Structural, Debug)]
pub enum DeviceClass {
    Discrete,
    Integrated,
    Virtual,
    Cpu,
    Other,
    Unknown,
}

/// Preference rank of a device class: lower is better, discrete GPUs
/// first, anything unrecognized last.
pub open spec fn class_rank(c: DeviceClass) -> int {
    match c {
        DeviceClass::Discrete => 0,
        DeviceClass::Integrated => 1,
        DeviceClass::Virtual => 2,
        DeviceClass::Cpu => 3,
        DeviceClass::Other => 4,
        DeviceClass::Unknown => 5,
    }
}

/// The preference rank of a device class.
pub fn rank(c: DeviceClass) -> (r: u32)
    ensures
        r == class_rank(c),
{
    match c {
        DeviceClass::Discrete => 0,
        DeviceClass::Integrated => 1,
        DeviceClass::Virtual => 2,
        DeviceClass::Cpu => 3,
        DeviceClass::Other => 4,
        DeviceClass::Unknown => 5,
    }
}

/// Pick the device to render on: the first of the best-ranked class.
/// Nothing is picked from an empty enumeration.
pub fn pick_device(classes: &Vec<DeviceClass>) -> (res: Option<usize>)
    ensures
        res.is_some() <==> classes@.len() > 0,
        res matches Some(i) ==> {
            &&& i < classes@.len()
            &&& forall|j: int|
                0 <= j < classes@.len() ==> class_rank(classes@[i as int]) <= class_rank(
                    #[trigger] classes@[j],
                )
            &&& forall|j: int|
                0 <= j < i ==> class_rank(#[trigger] classes@[j]) > class_rank(
                    classes@[i as int],
                )
        },
{
    if classes.len() == 0 {
        return None;
    }
    let mut best: usize = 0;
    let mut best_rank: u32 = rank(classes[0]);
    let mut i: usize = 1;
    while i < classes.len()
        invariant
            0 < i <= classes@.len(),
            best < i,
            best_rank == class_rank(classes@[best as int]),
            forall|j: int|
                0 <= j < i ==> class_rank(classes@[best as int]) <= class_rank(
                    #[trigger] classes@[j],
                ),
            forall|j: int|
                0 <= j < best ==> class_rank(#[trigger] classes@[j]) > class_rank(
                    classes@[best as int],
                ),
        decreases classes@.len() - i,
    {
        let r = rank(classes[i]);
        if r < best_rank {
            best = i;
            best_rank = r;
        }
        i = i + 1;
    }
    Some(best)
}

/// The capabilities of one queue family, as the renderer cares about them.
#[derive(Clone, Copy, PartialEq, Eq, Structural, Debug)]
pub struct QueueFlags {
    pub graphics: bool,
    pub compute: bool,
    pub transfer: bool,
}

/// A family able to carry the renderer's whole frame: graphics, compute
/// and transfer at once.
pub open spec fn full_family(f: QueueFlags) -> bool {
    f.graphics && f.compute && f.transfer
}

/// Pick the first queue family supporting graphics, compute and transfer;
/// none is picked where no family supports all three.
pub fn pick_queue_family(families: &Vec<QueueFlags>) -> (res: Option<usize>)
    ensures
        res matches Some(i) ==> {
            &&& i < families@.len()
            &&& full_family(families@[i as int])
            &&& forall|j: int| 0 <= j < i ==> !full_family(#[trigger] families@[j])
        },
        res.is_none() ==> forall|j: int|
            0 <= j < families@.len() ==> !full_family(#[trigger] families@[j]),
{
    let mut i: usize = 0;
    while i < families.len()
        invariant
            i <= families@.len(),
            forall|j: int| 0 <= j < i ==> !full_family(#[trigger] families@[j]),
        decreases families@.len() - i,
    {
        let f = families[i];
        if f.graphics && f.compute && f.transfer {
            return Some(i);
        }
        i = i + 1;
    }
    None
}

} // verus!
