//! The coordinator: the single owner of the pixmap, the change tracker and the
//! encoder caches. Every request of every transport is applied here, one at a time.

use vstd::prelude::*;
use vstd::string::StringSliceAdditionalSpecFns;
use vstd::utf8::encode_utf8;

use crate::color::Color;
use crate::framing::{first_frame, Frame, NEWLINE};
use crate::pixmap::{max_pixels, Pixmap, PixmapError, PixmapModel};
use crate::pixmap_actor::{
    GetPixelMsg, GetRawDataMsg, GetSizeMsg, PixmapActor, PutRawDataMsg, SetPixelMsg,
};
use crate::protocol::{
    algorithm_name, lit_state, parse_request, response_payload, space, Request, Response,
    StateEncodingAlgorithm,
};
use crate::state_encoding::{base64_of, rgb_bytes, rgba_bytes, MultiEncodersClient};
use crate::text::push_bytes;
use crate::tracker::{change_of, TrackedChange};
use crate::tracker_actor::{is_batch_of, update_of, TrackerActor};

verus! {

/// Why a request could not be served. Either way the connection goes on.
#[derive(Debug, Copy, Clone, PartialEq, Eq, Structural)]
pub enum RequestError {
    /// The frame is no request.
    Malformed,
    /// The request names a pixel outside the pixmap.
    OutOfBounds,
}

/// The one-line text of the error frame sent for an error.
pub open spec fn error_message(e: RequestError) -> &'static str {
    match e {
        RequestError::Malformed => "ERROR malformed request",
        RequestError::OutOfBounds => "ERROR coordinates out of bounds",
    }
}

fn error_message_of(e: RequestError) -> (r: &'static str)
    ensures
        r == error_message(e),
{
    match e {
        RequestError::Malformed => "ERROR malformed request",
        RequestError::OutOfBounds => "ERROR coordinates out of bounds",
    }
}

/// A client's choices that last across its requests.
#[derive(Debug, Copy, Clone, PartialEq, Eq, Structural)]
pub struct ConnectionPreferences {
    /// The client wants to receive pixel updates.
    pub subscribed: bool,
}

impl Default for ConnectionPreferences {
    fn default() -> (r: ConnectionPreferences)
        ensures
            !r.subscribed,
    {
        ConnectionPreferences { subscribed: false }
    }
}

/// What the coordinator holds.
pub struct CanvasModel {
    pub pixmap: PixmapModel,
    /// The changes collected since the last tracker tick, keyed by pixel index.
    pub pending: Map<nat, TrackedChange>,
    pub rgb64: Seq<char>,
    pub rgba64: Seq<char>,
    /// Every pixel write applied so far, in order.
    pub applied: Seq<SetPixelMsg>,
}

/// The frame bytes of a `STATE` response carrying `data`.
pub open spec fn state_payload(a: StateEncodingAlgorithm, data: Seq<char>) -> Seq<u8> {
    lit_state() + space() + algorithm_name(a) + space() + encode_utf8(data)
}

pub open spec fn cache_of(m: CanvasModel, a: StateEncodingAlgorithm) -> Seq<char> {
    match a {
        StateEncodingAlgorithm::Rgb64 => m.rgb64,
        StateEncodingAlgorithm::Rgba64 => m.rgba64,
    }
}

/// The bytes of the response to `req` (if any), or the error.
pub open spec fn reply(m: CanvasModel, req: Request) -> Result<Option<Seq<u8>>, RequestError> {
    match req {
        Request::GetSize => Ok(
            Some(
                response_payload(
                    Response::Size {
                        width: m.pixmap.width as usize,
                        height: m.pixmap.height as usize,
                    },
                ),
            ),
        ),
        Request::GetPixel { x, y } => if m.pixmap.in_bounds(x as int, y as int) {
            Ok(
                Some(
                    response_payload(
                        Response::Px { x, y, color: m.pixmap.get(x as int, y as int) },
                    ),
                ),
            )
        } else {
            Err(RequestError::OutOfBounds)
        },
        Request::SetPixel { x, y, color } => if m.pixmap.in_bounds(x as int, y as int) {
            Ok(None)
        } else {
            Err(RequestError::OutOfBounds)
        },
        Request::Help(t) => Ok(Some(response_payload(Response::Help(t)))),
        Request::State(a) => Ok(Some(state_payload(a, cache_of(m, a)))),
        Request::Subscribe => Ok(None),
        Request::Unsubscribe => Ok(None),
    }
}

/// The coordinator's state after serving `req`.
pub open spec fn after(m: CanvasModel, req: Request) -> CanvasModel {
    match req {
        Request::SetPixel { x, y, color } => if m.pixmap.in_bounds(x as int, y as int) {
            CanvasModel {
                pixmap: m.pixmap.set(x as int, y as int, color),
                pending: m.pending.insert(
                    (y * m.pixmap.width + x) as nat,
                    change_of(m.pixmap.width as int, x, y, color),
                ),
                applied: m.applied.push(SetPixelMsg { x, y, color }),
                ..m
            }
        } else {
            m
        },
        _ => m,
    }
}

/// A client's preferences after it sent `req`.
pub open spec fn prefs_after(p: ConnectionPreferences, req: Request) -> ConnectionPreferences {
    match req {
        Request::Subscribe => ConnectionPreferences { subscribed: true },
        Request::Unsubscribe => ConnectionPreferences { subscribed: false },
        _ => p,
    }
}

/// The bytes of the frame sent back for a received frame, if any: the response, or an
/// error frame.
pub open spec fn frame_reply(m: CanvasModel, payload: Seq<u8>) -> Option<Seq<u8>> {
    match parse_request(payload) {
        Err(_) => Some(error_message(RequestError::Malformed).spec_bytes()),
        Ok(req) => match reply(m, req) {
            Err(e) => Some(error_message(e).spec_bytes()),
            Ok(o) => o,
        },
    }
}

pub open spec fn frame_after(m: CanvasModel, payload: Seq<u8>) -> CanvasModel {
    match parse_request(payload) {
        Err(_) => m,
        Ok(req) => after(m, req),
    }
}

pub open spec fn frame_prefs_after(p: ConnectionPreferences, payload: Seq<u8>) -> ConnectionPreferences {
    match parse_request(payload) {
        Err(_) => p,
        Ok(req) => prefs_after(p, req),
    }
}

/// The frames of a datagram, in order, up to the first bytes that end without `\n`.
pub open spec fn datagram_frames(s: Seq<u8>) -> Seq<Seq<u8>>
    decreases s.len(),
{
    match first_frame(s) {
        None => seq![],
        Some((f, n)) => if 0 < n <= s.len() {
            seq![f] + datagram_frames(s.skip(n as int))
        } else {
            seq![]
        },
    }
}

/// The coordinator's state and the bytes sent back, terminators included, after
/// serving `frames` in order, each without connection state.
pub open spec fn serve_frames(m: CanvasModel, frames: Seq<Seq<u8>>) -> (CanvasModel, Seq<Seq<u8>>)
    decreases frames.len(),
{
    if frames.len() == 0 {
        (m, seq![])
    } else {
        let (m1, sent) = serve_frames(m, frames.drop_last());
        let f = frames.last();
        let sent2 = match frame_reply(m1, f) {
            Some(p) => sent.push(p.push(NEWLINE)),
            None => sent,
        };
        (frame_after(m1, f), sent2)
    }
}

/// The bytes behind the rgb64 cache that an encoder tick leaves: exactly three per
/// pixel of the `W x H` pixmap, bytes `3i..3i+3` being the channels of pixel `i`.
pub proof fn lemma_rgb64_cache_layout(m: CanvasModel)
    requires
        m.pixmap.wf(),
    ensures
        rgb_bytes(m.pixmap.pixels).len() == 3 * m.pixmap.width * m.pixmap.height,
        forall|i: int|
            0 <= i < m.pixmap.width * m.pixmap.height ==> #[trigger] rgb_bytes(
                m.pixmap.pixels,
            ).subrange(3 * i, 3 * i + 3) == seq![
                m.pixmap.pixels[i].0,
                m.pixmap.pixels[i].1,
                m.pixmap.pixels[i].2,
            ],
{
    crate::state_encoding::lemma_rgb_layout(m.pixmap.pixels);
    assert(3 * m.pixmap.width * m.pixmap.height == 3 * (m.pixmap.width * m.pixmap.height))
        by (nonlinear_arith);
}

/// An empty datagram is no frame: nothing is applied and nothing is sent back.
pub proof fn lemma_empty_datagram(m: CanvasModel)
    ensures
        datagram_frames(Seq::<u8>::empty()) == Seq::<Seq<u8>>::empty(),
        serve_frames(m, datagram_frames(Seq::<u8>::empty())) == (m, Seq::<Seq<u8>>::empty()),
{
    assert(!crate::framing::has_newline(Seq::<u8>::empty()));
}

/// A datagram of one frame followed by bytes without a terminator: the frame is
/// served, and the tail is dropped without a reply.
pub proof fn lemma_datagram_drops_tail(m: CanvasModel, frame: Seq<u8>, tail: Seq<u8>)
    requires
        forall|i: int| 0 <= i < frame.len() ==> frame[i] != NEWLINE,
        forall|i: int| 0 <= i < tail.len() ==> tail[i] != NEWLINE,
    ensures
        datagram_frames(frame.push(NEWLINE) + tail) == seq![frame],
        serve_frames(m, datagram_frames(frame.push(NEWLINE) + tail)).0 == frame_after(m, frame),
        serve_frames(m, datagram_frames(frame.push(NEWLINE) + tail)).1 == match frame_reply(
            m,
            frame,
        ) {
            Some(p) => seq![p.push(NEWLINE)],
            None => Seq::<Seq<u8>>::empty(),
        },
{
    let d = frame.push(NEWLINE) + tail;
    let k = frame.len() as int;
    crate::framing::lemma_first_frame_at(d, k);
    assert(d.subrange(0, k) =~= frame);
    assert(d.skip(k + 1) =~= tail);
    assert(!crate::framing::has_newline(tail));
    assert(datagram_frames(tail) == Seq::<Seq<u8>>::empty());
    assert(datagram_frames(d) =~= seq![frame]);
    let fs = seq![frame];
    assert(fs.drop_last() =~= Seq::<Seq<u8>>::empty());
    assert(fs.last() == frame);
    assert(serve_frames(m, fs.drop_last()) == (m, Seq::<Seq<u8>>::empty()));
    if let Some(p) = frame_reply(m, frame) {
        assert(Seq::<Seq<u8>>::empty().push(p.push(NEWLINE)) =~= seq![p.push(NEWLINE)]);
    }
}

/// The response bytes that a handler's result stands for.
pub open spec fn result_payload(r: Result<Option<Response>, RequestError>) -> Result<
    Option<Seq<u8>>,
    RequestError,
> {
    match r {
        Ok(Some(resp)) => Ok(Some(response_payload(resp))),
        Ok(None) => Ok(None),
        Err(e) => Err(e),
    }
}

/// The coordinator of one canvas.
pub struct Canvas {
    pixmap: PixmapActor,
    tracker: TrackerActor,
    encoders: MultiEncodersClient,
    applied: Ghost<Seq<SetPixelMsg>>,
}

impl View for Canvas {
    type V = CanvasModel;

    closed spec fn view(&self) -> CanvasModel {
        CanvasModel {
            pixmap: self.pixmap.pixmap(),
            pending: self.tracker.pending(),
            rgb64: self.encoders.rgb64_cached(),
            rgba64: self.encoders.rgba64_cached(),
            applied: self.applied@,
        }
    }
}

impl Canvas {
    pub closed spec fn wf(&self) -> bool {
        &&& self.pixmap.wf()
        &&& self.pixmap.tracks_changes()
        &&& self.tracker.wf()
        &&& self.tracker.width() == self.pixmap.pixmap().width
        &&& self.tracker.height() == self.pixmap.pixmap().height
        &&& forall|p: nat| #[trigger]
            self.tracker.pending().contains_key(p) ==> self.applied@.contains(
                update_of(self.tracker.pending()[p]),
            )
    }

    /// Every pending change comes from a write that was applied.
    pub proof fn lemma_pending_applied(&self)
        requires
            self.wf(),
        ensures
            self@.pixmap.wf(),
            forall|p: nat| #[trigger]
                self@.pending.contains_key(p) ==> self@.applied.contains(
                    update_of(self@.pending[p]),
                ),
    {
    }

    /// A black canvas of the given dimensions, with nothing pending and empty caches.
    pub fn new(width: usize, height: usize) -> (r: Result<Canvas, PixmapError>)
        ensures
            (width > 0 && height > 0 && width * height <= max_pixels()) <==> r is Ok,
            r is Err ==> r->Err_0 == PixmapError::InvalidSize,
            r matches Ok(c) ==> {
                &&& c.wf()
                &&& c@.pixmap.width == width
                &&& c@.pixmap.height == height
                &&& c@.pixmap.pixels == Seq::new((width * height) as nat, |i: int| Color(0, 0, 0))
                &&& c@.pending == Map::<nat, TrackedChange>::empty()
                &&& c@.rgb64 == Seq::<char>::empty()
                &&& c@.rgba64 == Seq::<char>::empty()
                &&& c@.applied == Seq::<SetPixelMsg>::empty()
            },
    {
        match Pixmap::new(width, height) {
            Err(e) => Err(e),
            Ok(pixmap) => {
                let c = Canvas {
                    pixmap: PixmapActor::new(pixmap, true),
                    tracker: TrackerActor::new(width, height),
                    encoders: MultiEncodersClient::new(),
                    applied: Ghost(Seq::empty()),
                };
                Ok(c)
            },
        }
    }

    /// The dimensions as *(width, height)*.
    pub fn get_size(&self) -> (r: (usize, usize))
        ensures
            r.0 == self@.pixmap.width,
            r.1 == self@.pixmap.height,
    {
        self.pixmap.handle_get_size(GetSizeMsg {})
    }

    /// All colors in row-major order, read in one turn.
    pub fn get_raw_data(&self) -> (r: Vec<Color>)
        ensures
            r@ == self@.pixmap.pixels,
    {
        self.pixmap.handle_get_raw_data(GetRawDataMsg {})
    }

    /// Replace all colors, as when a snapshot is loaded; such a replacement is no
    /// tracked change.
    pub fn put_raw_data(&mut self, msg: &PutRawDataMsg) -> (r: Result<(), PixmapError>)
        requires
            old(self).wf(),
        ensures
            final(self).wf(),
            msg.data@.len() == old(self)@.pixmap.pixels.len() ==> r is Ok && final(self)@ == (
            CanvasModel {
                pixmap: PixmapModel { pixels: msg.data@, ..old(self)@.pixmap },
                ..old(self)@
            }),
            msg.data@.len() != old(self)@.pixmap.pixels.len() ==> r == Err::<(), PixmapError>(
                PixmapError::SizeMismatch,
            ) && final(self)@ == old(self)@,
    {
        self.pixmap.handle_put_raw_data(msg)
    }

    /// Serve a request: answer it, apply it, and update the client's preferences.
    pub fn handle_request(&mut self, request: Request, prefs: &mut ConnectionPreferences) -> (r:
        Result<Option<Response>, RequestError>)
        requires
            old(self).wf(),
        ensures
            final(self).wf(),
            final(self)@ == after(old(self)@, request),
            *final(prefs) == prefs_after(*old(prefs), request),
            result_payload(r) == reply(old(self)@, request),
            r matches Ok(Some(Response::State(a, data))) ==> request == Request::State(a)
                && data@ == cache_of(old(self)@, a),
    {
        match request {
            Request::GetSize => {
                let (width, height) = self.pixmap.handle_get_size(GetSizeMsg {});
                Ok(Some(Response::Size { width, height }))
            },
            Request::GetPixel { x, y } => match self.pixmap.handle_get_pixel(GetPixelMsg { x, y }) {
                Ok(color) => Ok(Some(Response::Px { x, y, color })),
                Err(_) => Err(RequestError::OutOfBounds),
            },
            Request::SetPixel { x, y, color } => {
                let msg = SetPixelMsg { x, y, color };
                let ghost m0 = self@;
                match self.pixmap.handle_set_pixel(msg) {
                    Ok(forward) => {
                        match forward {
                            Some(m) => {
                                let _ = self.tracker.handle_set_pixel(m);
                                self.applied = Ghost(self.applied@.push(m));
                            },
                            None => {},
                        }
                        proof {
                            assert(update_of(change_of(m0.pixmap.width as int, x, y, color))
                                == msg);
                            assert forall|p: nat| #[trigger]
                                self.tracker.pending().contains_key(p) implies self.applied@.contains(
                                update_of(self.tracker.pending()[p]),
                            ) by {
                                if p != (y * m0.pixmap.width + x) as nat {
                                    assert(m0.applied.contains(update_of(m0.pending[p])));
                                    let k = choose|k: int|
                                        0 <= k < m0.applied.len() && m0.applied[k] == update_of(
                                            m0.pending[p],
                                        );
                                    assert(self.applied@[k] == m0.applied[k]);
                                } else {
                                    assert(self.applied@[self.applied@.len() - 1] == msg);
                                }
                            }
                        }
                        Ok(None)
                    },
                    Err(_) => Err(RequestError::OutOfBounds),
                }
            },
            Request::Help(t) => Ok(Some(Response::Help(t))),
            Request::State(a) => {
                let data = match a {
                    StateEncodingAlgorithm::Rgb64 => self.encoders.get_rgb64_data(),
                    StateEncodingAlgorithm::Rgba64 => self.encoders.get_rgba64_data(),
                };
                Ok(Some(Response::State(a, data)))
            },
            Request::Subscribe => {
                prefs.subscribed = true;
                Ok(None)
            },
            Request::Unsubscribe => {
                prefs.subscribed = false;
                Ok(None)
            },
        }
    }

    /// Serve a received frame: the frame sent back is the response, or an error frame
    /// where the frame is no request or the request failed.
    pub fn handle_frame(&mut self, frame: &Frame, prefs: &mut ConnectionPreferences) -> (r:
        Option<Frame>)
        requires
            old(self).wf(),
        ensures
            final(self).wf(),
            final(self)@ == frame_after(old(self)@, frame@),
            *final(prefs) == frame_prefs_after(*old(prefs), frame@),
            r matches Some(f) ==> frame_reply(old(self)@, frame@) == Some(f@),
            r is None ==> frame_reply(old(self)@, frame@) is None,
    {
        match Request::from_frame(frame) {
            Err(_) => Some(Frame::new_from_string(error_message_of(RequestError::Malformed))),
            Ok(request) => match self.handle_request(request, prefs) {
                Err(e) => Some(Frame::new_from_string(error_message_of(e))),
                Ok(None) => None,
                Ok(Some(response)) => Some(response.to_frame()),
            },
        }
    }

    /// A tracker tick: the updates of all pixels changed since the last tick, one per
    /// pixel. Each of them is a write that was applied before this tick.
    pub fn trigger_flush(&mut self) -> (r: Vec<SetPixelMsg>)
        requires
            old(self).wf(),
        ensures
            final(self).wf(),
            final(self)@ == (CanvasModel {
                pending: Map::<nat, TrackedChange>::empty(),
                ..old(self)@
            }),
            is_batch_of(r@, old(self)@.pending),
            forall|i: int| 0 <= i < r@.len() ==> old(self)@.applied.contains(#[trigger] r@[i]),
    {
        let ghost m0 = self@;
        let r = self.tracker.handle_trigger_updates();
        proof {
            let s = choose|s: Seq<TrackedChange>|
                crate::tracker::lists_changes(s, m0.pending) && r@ == s.map_values(
                    |c| update_of(c),
                );
            assert forall|i: int| 0 <= i < r@.len() implies m0.applied.contains(
                #[trigger] r@[i],
            ) by {
                assert(m0.pending.contains_key(s[i].pixmap_index as nat));
                assert(m0.pending[s[i].pixmap_index as nat] == s[i]);
            }
        }
        r
    }

    /// An encoder tick: re-encode both caches from the current pixels.
    pub fn trigger_encoding(&mut self)
        requires
            old(self).wf(),
        ensures
            final(self).wf(),
            final(self)@ == (CanvasModel {
                rgb64: base64_of(rgb_bytes(old(self)@.pixmap.pixels)),
                rgba64: base64_of(rgba_bytes(old(self)@.pixmap.pixels)),
                ..old(self)@
            }),
    {
        let (width, height) = self.pixmap.handle_get_size(GetSizeMsg {});
        let data = self.pixmap.handle_get_raw_data(GetRawDataMsg {});
        self.encoders.update(width, height, data.as_slice());
    }

    /// Serve a datagram: its frames in order, up to bytes that end without `\n`, each
    /// without connection state. The result holds the frames to send back, each with
    /// its terminator.
    pub fn process_datagram(&mut self, data: &[u8]) -> (r: Vec<Vec<u8>>)
        requires
            old(self).wf(),
        ensures
            final(self).wf(),
            final(self)@ == serve_frames(old(self)@, datagram_frames(data@)).0,
            r@.len() == serve_frames(old(self)@, datagram_frames(data@)).1.len(),
            forall|i: int|
                0 <= i < r@.len() ==> #[trigger] r@[i]@ == serve_frames(
                    old(self)@,
                    datagram_frames(data@),
                ).1[i],
    {
        let ghost m0 = self@;
        let ghost mut done: Seq<Seq<u8>> = seq![];
        let mut out: Vec<Vec<u8>> = Vec::new();
        let mut pos: usize = 0;
        proof {
            assert(data@.skip(0) =~= data@);
            assert(datagram_frames(data@) =~= done + datagram_frames(data@.skip(0)));
        }
        while pos < data.len()
            invariant
                self.wf(),
                m0 == old(self)@,
                pos <= data@.len(),
                datagram_frames(data@) == done + datagram_frames(data@.skip(pos as int)),
                self@ == serve_frames(m0, done).0,
                out@.len() == serve_frames(m0, done).1.len(),
                forall|i: int|
                    0 <= i < out@.len() ==> #[trigger] out@[i]@ == serve_frames(m0, done).1[i],
            decreases data@.len() - pos,
        {
            match Frame::from_input_at(data, pos) {
                Err(_) => {
                    proof {
                        assert(first_frame(data@.skip(pos as int)) is None);
                        assert(datagram_frames(data@.skip(pos as int)) == Seq::<Seq<u8>>::empty());
                        assert(datagram_frames(data@) =~= done);
                    }
                    return out;
                },
                Ok((frame, n)) => {
                    let ghost rest = data@.skip(pos as int);
                    let ghost m1 = self@;
                    let ghost sent = serve_frames(m0, done).1;
                    proof {
                        assert(rest.skip(n as int) =~= data@.skip(pos + n));
                        assert(datagram_frames(rest) == seq![frame@] + datagram_frames(
                            rest.skip(n as int),
                        ));
                        assert(done + (seq![frame@] + datagram_frames(rest.skip(n as int)))
                            =~= done.push(frame@) + datagram_frames(rest.skip(n as int)));
                        assert(done.push(frame@).drop_last() =~= done);
                    }
                    let mut prefs = ConnectionPreferences { subscribed: false };
                    let reply = self.handle_frame(&frame, &mut prefs);
                    match reply {
                        Some(f) => {
                            out.push(f.encode());
                            proof {
                                assert forall|i: int| 0 <= i < out@.len() implies #[trigger] out@[i]@
                                    == sent.push(f@.push(NEWLINE))[i] by {
                                    if i < out@.len() - 1 {
                                        assert(out@[i]@ == sent[i]);
                                    }
                                }
                            }
                        },
                        None => {},
                    }
                    proof {
                        done = done.push(frame@);
                    }
                    pos = pos + n;
                },
            }
        }
        proof {
            assert(data@.skip(pos as int) =~= seq![]);
            assert(first_frame(seq![]) is None);
            assert(datagram_frames(data@.skip(pos as int)) == Seq::<Seq<u8>>::empty());
            assert(datagram_frames(data@) =~= done);
        }
        out
    }

    /// Serve a websocket text message as one frame; the reply is the text of the
    /// response or error frame, empty where there is none.
    pub fn process_ws_text(&mut self, text: &str) -> (r: Vec<u8>)
        requires
            old(self).wf(),
        ensures
            final(self).wf(),
            final(self)@ == frame_after(old(self)@, text.spec_bytes()),
            frame_reply(old(self)@, text.spec_bytes()) matches Some(p) ==> r@ == p,
            frame_reply(old(self)@, text.spec_bytes()) is None ==> r@.len() == 0,
    {
        let frame = Frame::new_from_string(text);
        let mut prefs = ConnectionPreferences { subscribed: false };
        match self.handle_frame(&frame, &mut prefs) {
            Some(f) => f.payload().clone(),
            None => Vec::new(),
        }
    }
}

} // verus!
