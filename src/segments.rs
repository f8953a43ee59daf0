use vstd::prelude::*;

verus! {

/// The frame whose runway annotation validates a flight segment: none when
/// annotating the segment failed (it carries a note), else the frame of its
/// keypoints, else that of its bounding box, else none.
pub fn validated_frame(has_note: bool, keypoints_frame: Option<u32>, bbox_frame: Option<u32>) -> (r:
    Option<u32>)
    ensures
        has_note ==> r is None,
        !has_note && keypoints_frame is Some ==> r == keypoints_frame,
        !has_note && keypoints_frame is None ==> r == bbox_frame,
{
    if has_note {
        None
    } else if keypoints_frame.is_some() {
        keypoints_frame
    } else {
        bbox_frame
    }
}

} // verus!
