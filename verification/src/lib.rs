//! Real-time hand-gesture recognition pipeline: palm-region selection,
//! region-of-interest tracking, coordinate transforms, landmark decoding,
//! geometric gesture classification with temporal motion detection, and an
//! adaptive frame compositor.
//!
//! All geometry is carried in fixed-point milli-units (one unit split into
//! 1000 parts), so every rule of the pipeline is stated and checked over
//! plain integers.
pub mod camera;
pub mod channel;
pub mod compositor;
pub mod crop;
pub mod geom;
pub mod gesture;
pub mod motion;
pub mod numeric;
pub mod palm;
pub mod pipeline;
pub mod recognizer;
pub mod tracker;
pub mod types;
