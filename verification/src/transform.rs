use vstd::prelude::*;
use crate::text::same_text;

verus! {

/// A resampling filter for resizing.
#[derive(Clone, Copy, Debug, PartialEq, Eq, Structural)]
pub enum ResizeFilter {
    Nearest,
    Triangle,
    CatmullRom,
    Gaussian,
    Lanczos3,
}

/// What a filter name asks for: one filter, or the filter that suits the
/// scale of the resize best, which only the sizes of the image decide.
#[derive(Clone, Copy, Debug, PartialEq, Eq, Structural)]
pub enum FilterChoice {
    Fixed(ResizeFilter),
    Optimal,
}

/// The choice that a filter name stands for. Names are matched as they are
/// written, in lower case; an unknown name means the nearest-neighbour
/// filter.
pub open spec fn spec_choose_resize_filter(name: Seq<char>) -> FilterChoice {
    if name == "nearest"@ {
        FilterChoice::Fixed(ResizeFilter::Nearest)
    } else if name == "triangle"@ {
        FilterChoice::Fixed(ResizeFilter::Triangle)
    } else if name == "catmullrom"@ {
        FilterChoice::Fixed(ResizeFilter::CatmullRom)
    } else if name == "gaussian"@ {
        FilterChoice::Fixed(ResizeFilter::Gaussian)
    } else if name == "lanczos"@ {
        FilterChoice::Fixed(ResizeFilter::Lanczos3)
    } else if name == "optimal"@ {
        FilterChoice::Optimal
    } else {
        FilterChoice::Fixed(ResizeFilter::Nearest)
    }
}

/// The choice that a filter name stands for.
pub fn choose_resize_filter(name: &str) -> (choice: FilterChoice)
    ensures
        choice == spec_choose_resize_filter(name@),
{
    if same_text(name, "nearest") {
        FilterChoice::Fixed(ResizeFilter::Nearest)
    } else if same_text(name, "triangle") {
        FilterChoice::Fixed(ResizeFilter::Triangle)
    } else if same_text(name, "catmullrom") {
        FilterChoice::Fixed(ResizeFilter::CatmullRom)
    } else if same_text(name, "gaussian") {
        FilterChoice::Fixed(ResizeFilter::Gaussian)
    } else if same_text(name, "lanczos") {
        FilterChoice::Fixed(ResizeFilter::Lanczos3)
    } else if same_text(name, "optimal") {
        FilterChoice::Optimal
    } else {
        FilterChoice::Fixed(ResizeFilter::Nearest)
    }
}

/// A rotation by quarter turns, clockwise.
#[derive(Clone, Copy, Debug, PartialEq, Eq, Structural)]
pub enum Rotation {
    Unturned,
    Quarter,
    Half,
    ThreeQuarters,
}

/// The rotation for an angle in degrees: 90, 180 and 270 turn the image,
/// every other angle leaves it as it is.
pub open spec fn spec_rotation_for(degrees: i32) -> Rotation {
    if degrees == 90 {
        Rotation::Quarter
    } else if degrees == 180 {
        Rotation::Half
    } else if degrees == 270 {
        Rotation::ThreeQuarters
    } else {
        Rotation::Unturned
    }
}

/// The rotation for an angle in degrees.
pub fn rotation_for(degrees: i32) -> (rotation: Rotation)
    ensures
        rotation == spec_rotation_for(degrees),
{
    if degrees == 90 {
        Rotation::Quarter
    } else if degrees == 180 {
        Rotation::Half
    } else if degrees == 270 {
        Rotation::ThreeQuarters
    } else {
        Rotation::Unturned
    }
}

} // verus!
