//! Labels of the appearance controls.
use vstd::prelude::*;

verus! {

/// Where the sketch toolbar sits.
#[derive(Clone, Copy, Debug, PartialEq, Eq, Structural)]
pub enum SketchToolbarPosition {
    Top,
    Left,
    Right,
}

/// The label of a sketch toolbar position.
pub fn sketch_toolbar_position_label(position: SketchToolbarPosition) -> (label: &'static str)
    ensures
        label@ == match position {
            SketchToolbarPosition::Top => "Top"@,
            SketchToolbarPosition::Left => "Left"@,
            SketchToolbarPosition::Right => "Right"@,
        },
{
    match position {
        SketchToolbarPosition::Top => "Top",
        SketchToolbarPosition::Left => "Left",
        SketchToolbarPosition::Right => "Right",
    }
}

} // verus!
