//! The cycling of pictures: animated objects show a frame picked at random.

use vstd::prelude::*;

use crate::game_object::object_bundles::GridObject;

verus! {

/// Whether the picture of the object cycles: the object is animated and has
/// frames to show.
pub open spec fn animates(object: GridObject) -> bool {
    object.animatable is Some && object.frame is Some
}

/// A number below `bound`, drawn by `rand`: the call is
/// `gen_range(0..bound)` on the generator that `thread_rng()` hands out.
///
/// `gen_range` panics on an empty range, so `bound` must not be zero. What it
/// returns lies in the range it was given; that is all this contract says of
/// it, and two calls need not agree.
#[verifier::external_body]
fn random_below(bound: usize) -> (r: usize)
    requires
        bound > 0,
    ensures
        r < bound,
{
    rand::Rng::gen_range(&mut rand::thread_rng(), 0..bound)
}

/// The object showing frame `frame`.
pub fn show_frame(object: GridObject, frame: usize) -> (shown: GridObject)
    ensures
        shown == (GridObject { frame: Some(frame), ..object }),
{
    let mut shown = object;
    shown.frame = Some(frame);
    shown
}

/// Lets every animated object show one of its frames, picked at random. It
/// is for the caller to wait for the animation tick.
pub fn animate_objects(objects: &mut Vec<GridObject>)
    requires
        forall|i: int|
            0 <= i < old(objects).len() && animates(#[trigger] old(objects)[i]) ==> old(
                objects,
            )[i].animatable->0 > 0,
    ensures
        final(objects).len() == old(objects).len(),
        forall|i: int|
            0 <= i < old(objects).len() && !animates(old(objects)[i]) ==> (
            #[trigger] final(objects)[i]) == old(objects)[i],
        forall|i: int|
            0 <= i < old(objects).len() && animates(old(objects)[i]) ==> {
                &&& (#[trigger] final(objects)[i]).frame is Some
                &&& final(objects)[i].frame->0 < old(objects)[i].animatable->0
                &&& final(objects)[i] == (GridObject {
                    frame: final(objects)[i].frame,
                    ..old(objects)[i]
                })
            },
{
    let ghost before = objects@;
    let n: usize = objects.len();
    let mut i: usize = 0;
    while i < n
        invariant
            i <= n,
            n == objects.len(),
            n == before.len(),
            forall|j: int|
                0 <= j < n && animates(#[trigger] before[j]) ==> before[j].animatable->0 > 0,
            forall|j: int| i <= j < n ==> objects[j] == before[j],
            forall|j: int| 0 <= j < i && !animates(before[j]) ==> (#[trigger] objects[j]) == before[j],
            forall|j: int|
                0 <= j < i && animates(before[j]) ==> {
                    &&& (#[trigger] objects[j]).frame is Some
                    &&& objects[j].frame->0 < before[j].animatable->0
                    &&& objects[j] == (GridObject { frame: objects[j].frame, ..before[j] })
                },
        decreases n - i,
    {
        let object: GridObject = objects[i];
        match (object.animatable, object.frame) {
            (Some(frames), Some(_)) => {
                assert(animates(before[i as int]));
                let frame: usize = random_below(frames);
                objects.set(i, show_frame(object, frame));
            },
            _ => {},
        }
        i += 1;
    }
}

} // verus!
