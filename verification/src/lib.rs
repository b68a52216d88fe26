//! A compositing video editor core: a timeline of media layers with
//! time-varying effects, rendered frame by frame onto a fixed canvas, with
//! sample-accurate audio mixing.
//!
//! Times are carried in whole milliseconds. Dimensionless factors (playback
//! speed, scale factors, audio gain) and angles are carried in thousandths
//! (a speed of 1500 means 1.5x; an angle of 3142 means about pi radians).
//! Audio samples are carried in thousandths of full scale.

use vstd::prelude::*;

pub mod editor;
pub mod ffmpeg;
pub mod fixed;
pub mod imgops;
pub mod renderer;
pub mod source;

pub use editor::Editor;
pub use ffmpeg::FFmpeg;
pub use source::FileLoader;

