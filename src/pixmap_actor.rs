//! The coordinator's view of the pixmap: the messages it serves and their handling.

use vstd::prelude::*;

use crate::color::Color;
use crate::pixmap::{Pixmap, PixmapError, PixmapModel};

verus! {

/// A message to query a certain pixel from the pixmap.
#[derive(Debug, Copy, Clone, PartialEq, Eq, Structural)]
pub struct GetPixelMsg {
    /// X coordinate of the queried pixel.
    pub x: usize,
    /// Y coordinate of the queried pixel.
    pub y: usize,
}

/// A message to set a certain pixel to a certain color.
#[derive(Debug, Copy, Clone, PartialEq, Eq, Structural)]
pub struct SetPixelMsg {
    /// X coordinate of the target pixel.
    pub x: usize,
    /// Y coordinate of the target pixel.
    pub y: usize,
    /// Color which the target pixel should be set to.
    pub color: Color,
}

/// A message to query the size of the pixmap as a *(width, height)* tuple.
#[derive(Debug, Copy, Clone, PartialEq, Eq, Structural)]
pub struct GetSizeMsg {}

/// A message to query the completely dumped color data of a pixmap.
#[derive(Debug, Copy, Clone, PartialEq, Eq, Structural)]
pub struct GetRawDataMsg {}

/// A message to overwrite the complete color data of a pixmap.
#[derive(Debug, Clone, PartialEq, Eq)]
pub struct PutRawDataMsg {
    /// The color data with which the pixmap should be overwritten.
    pub data: Vec<Color>,
}

/// Serializes all operations on a [`Pixmap`]. When changes are tracked, each
/// successful `SetPixelMsg` is handed back so that it can be forwarded to the tracker.
pub struct PixmapActor {
    pixmap: Pixmap,
    track_changes: bool,
}

impl PixmapActor {
    pub closed spec fn pixmap(&self) -> PixmapModel {
        self.pixmap@
    }

    pub closed spec fn tracks_changes(&self) -> bool {
        self.track_changes
    }

    pub open spec fn wf(&self) -> bool {
        self.pixmap().wf()
    }

    /// A coordinator backed by `pixmap`; with `track_changes`, pixel changes are handed
    /// out for the tracker.
    pub fn new(pixmap: Pixmap, track_changes: bool) -> (r: PixmapActor)
        requires
            pixmap.wf(),
        ensures
            r.wf(),
            r.pixmap() == pixmap@,
            r.tracks_changes() == track_changes,
    {
        PixmapActor { pixmap, track_changes }
    }

    pub fn handle_get_pixel(&self, msg: GetPixelMsg) -> (r: Result<Color, PixmapError>)
        requires
            self.wf(),
        ensures
            self.pixmap().in_bounds(msg.x as int, msg.y as int) ==> r == Ok::<
                Color,
                PixmapError,
            >(self.pixmap().get(msg.x as int, msg.y as int)),
            !self.pixmap().in_bounds(msg.x as int, msg.y as int) ==> r == Err::<
                Color,
                PixmapError,
            >(PixmapError::OutOfBounds),
    {
        self.pixmap.get_pixel(msg.x, msg.y)
    }

    /// Set the pixel; where that succeeded and changes are tracked, the message comes
    /// back to be forwarded to the tracker.
    pub fn handle_set_pixel(&mut self, msg: SetPixelMsg) -> (r: Result<
        Option<SetPixelMsg>,
        PixmapError,
    >)
        requires
            old(self).wf(),
        ensures
            final(self).wf(),
            final(self).tracks_changes() == old(self).tracks_changes(),
            old(self).pixmap().in_bounds(msg.x as int, msg.y as int) ==> final(self).pixmap()
                == old(self).pixmap().set(msg.x as int, msg.y as int, msg.color) && r == Ok::<
                Option<SetPixelMsg>,
                PixmapError,
            >(if old(self).tracks_changes() { Some(msg) } else { None }),
            !old(self).pixmap().in_bounds(msg.x as int, msg.y as int) ==> final(self).pixmap()
                == old(self).pixmap() && r == Err::<Option<SetPixelMsg>, PixmapError>(
                PixmapError::OutOfBounds,
            ),
    {
        match self.pixmap.set_pixel(msg.x, msg.y, msg.color) {
            Ok(()) => {
                if self.track_changes {
                    Ok(Some(msg))
                } else {
                    Ok(None)
                }
            },
            Err(e) => Err(e),
        }
    }

    pub fn handle_get_size(&self, _msg: GetSizeMsg) -> (r: (usize, usize))
        ensures
            r.0 == self.pixmap().width,
            r.1 == self.pixmap().height,
    {
        self.pixmap.get_size()
    }

    pub fn handle_get_raw_data(&self, _msg: GetRawDataMsg) -> (r: Vec<Color>)
        ensures
            r@ == self.pixmap().pixels,
    {
        self.pixmap.get_raw_data()
    }

    pub fn handle_put_raw_data(&mut self, msg: &PutRawDataMsg) -> (r: Result<(), PixmapError>)
        requires
            old(self).wf(),
        ensures
            final(self).wf(),
            final(self).tracks_changes() == old(self).tracks_changes(),
            msg.data@.len() == old(self).pixmap().pixels.len() ==> r is Ok && final(self).pixmap()
                == (PixmapModel { pixels: msg.data@, ..old(self).pixmap() }),
            msg.data@.len() != old(self).pixmap().pixels.len() ==> r == Err::<(), PixmapError>(
                PixmapError::SizeMismatch,
            ) && final(self).pixmap() == old(self).pixmap(),
    {
        self.pixmap.put_raw_data(msg.data.as_slice())
    }
}

} // verus!
