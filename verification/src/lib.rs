pub mod buffer;
pub mod engine;
pub mod lighting;
pub mod mesh;
pub mod obj;
pub mod pipeline;
pub mod projection;
pub mod raster;
pub mod utils;
pub mod vector;

pub use buffer::{ClearAuto, ClearColor, ColorBuffer, Drawable};
pub use engine::{EngineConfig, EngineConfigParams, EngineCore, RenderMode};
pub use lighting::GlobalLight;
pub use mesh::{Face, Mesh, Transform, Triangle};
pub use projection::ProjectionType;
pub use vector::{Scalar, Vec3};
