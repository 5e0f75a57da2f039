//! A pixelflut server library: a shared pixel canvas, its wire protocol, the change
//! tracker that feeds subscribers, and the encoders that snapshot the whole canvas.

pub mod color;
pub mod text;
pub mod pixmap;
pub mod framing;
pub mod protocol;
pub mod tracker;
pub mod state_encoding;
pub mod pixmap_actor;
pub mod tracker_actor;
pub mod canvas;
pub mod net;
