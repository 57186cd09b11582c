use vstd::prelude::*;

verus! {

/// How a camera maps space onto the screen.
#[derive(Clone, Copy, Debug, PartialEq, Eq, Structural)]
pub enum ProjectionType {
    /// By a perspective matrix made from aspect ratio, field of view and
    /// the near and far planes; the result is divided by its fourth
    /// coordinate.
    Perspective,
    /// By dividing x and y by the depth before the camera and scaling them
    /// by one factor.
    FocalLength,
}

impl ProjectionType {
    /// Whether points come out with a fourth coordinate by which they are
    /// still to be divided.
    pub fn is_homogeneous(&self) -> (homogeneous: bool)
        ensures
            homogeneous == (*self == ProjectionType::Perspective),
    {
        match self {
            ProjectionType::Perspective => true,
            ProjectionType::FocalLength => false,
        }
    }
}

} // verus!
