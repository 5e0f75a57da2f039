//! Encodings of the whole pixmap as base64 text, and the caches that keep the most
//! recent encoding of each kind.
//!
//! *rgb64* writes three bytes `R, G, B` per pixel in row-major order, *rgba64* four
//! bytes `R, G, B, 255`; the byte string is then base64-encoded.

use core::marker::PhantomData;
use vstd::prelude::*;

use crate::color::Color;
use crate::pixmap::max_pixels;

verus! {

/// The standard base64 text (with padding) of a byte string.
pub uninterp spec fn base64_of(b: Seq<u8>) -> Seq<char>;

/// The bytes that a standard base64 text stands for, if it is valid base64.
pub uninterp spec fn base64_decoded(s: Seq<char>) -> Option<Seq<u8>>;

#[verifier::external_type_specification]
#[verifier::external_body]
pub struct ExDecodeError(base64::DecodeError);

/// Relies on `base64::encode`, which encodes with the standard alphabet and padding;
/// it panics only where the output length overflows `usize`.
#[verifier::external_body]
fn base64_encode(b: &[u8]) -> (r: String)
    requires
        b@.len() <= usize::MAX / 2,
    ensures
        r@ == base64_of(b@),
{
    base64::encode(b)
}

/// Relies on `base64::decode` with the standard alphabet and padding, which gives back
/// the bytes that `base64::encode` was given.
#[verifier::external_body]
fn base64_decode(s: &String) -> (r: Result<Vec<u8>, base64::DecodeError>)
    ensures
        r is Ok <==> base64_decoded(s@) is Some,
        r is Ok ==> r->Ok_0@ == base64_decoded(s@)->0,
        forall|b: Seq<u8>| #[trigger] base64_of(b) == s@ ==> r is Ok && r->Ok_0@ == b,
{
    base64::decode(s)
}

/// Why encoded data could not be decoded.
#[derive(Debug, Copy, Clone, PartialEq, Eq, Structural)]
pub enum EncodingError {
    /// The text is not valid base64.
    InvalidBase64,
}

/// Three bytes `R, G, B` per pixel, in order.
pub open spec fn rgb_bytes(px: Seq<Color>) -> Seq<u8>
    decreases px.len(),
{
    if px.len() == 0 {
        seq![]
    } else {
        rgb_bytes(px.drop_last()) + seq![px.last().0, px.last().1, px.last().2]
    }
}

/// Four bytes `R, G, B, 255` per pixel, in order.
pub open spec fn rgba_bytes(px: Seq<Color>) -> Seq<u8>
    decreases px.len(),
{
    if px.len() == 0 {
        seq![]
    } else {
        rgba_bytes(px.drop_last()) + seq![px.last().0, px.last().1, px.last().2, 255u8]
    }
}

/// The colors of consecutive groups of three bytes; an incomplete last group is
/// dropped.
pub open spec fn colors_of_rgb(b: Seq<u8>) -> Seq<Color> {
    Seq::new(b.len() / 3, |i: int| Color(b[3 * i], b[3 * i + 1], b[3 * i + 2]))
}

/// The colors of consecutive groups of four bytes, the fourth (alpha) ignored; an
/// incomplete last group is dropped.
pub open spec fn colors_of_rgba(b: Seq<u8>) -> Seq<Color> {
    Seq::new(b.len() / 4, |i: int| Color(b[4 * i], b[4 * i + 1], b[4 * i + 2]))
}

proof fn lemma_rgb_bytes_at(px: Seq<Color>)
    ensures
        rgb_bytes(px).len() == 3 * px.len(),
        forall|i: int|
            #![trigger px[i]]
            0 <= i < px.len() ==> rgb_bytes(px)[3 * i] == px[i].0 && rgb_bytes(px)[3 * i + 1]
                == px[i].1 && rgb_bytes(px)[3 * i + 2] == px[i].2,
    decreases px.len(),
{
    if px.len() > 0 {
        let init = px.drop_last();
        lemma_rgb_bytes_at(init);
        assert forall|i: int|
            #![trigger px[i]]
            0 <= i < px.len() implies rgb_bytes(px)[3 * i] == px[i].0 && rgb_bytes(px)[3 * i + 1]
            == px[i].1 && rgb_bytes(px)[3 * i + 2] == px[i].2 by {
            if i < init.len() {
                assert(init[i] == px[i]);
            }
        }
    }
}

proof fn lemma_rgba_bytes_at(px: Seq<Color>)
    ensures
        rgba_bytes(px).len() == 4 * px.len(),
        forall|i: int|
            #![trigger px[i]]
            0 <= i < px.len() ==> rgba_bytes(px)[4 * i] == px[i].0 && rgba_bytes(px)[4 * i + 1]
                == px[i].1 && rgba_bytes(px)[4 * i + 2] == px[i].2 && rgba_bytes(px)[4 * i + 3]
                == 255,
    decreases px.len(),
{
    if px.len() > 0 {
        let init = px.drop_last();
        lemma_rgba_bytes_at(init);
        assert forall|i: int|
            #![trigger px[i]]
            0 <= i < px.len() implies rgba_bytes(px)[4 * i] == px[i].0 && rgba_bytes(px)[4 * i
            + 1] == px[i].1 && rgba_bytes(px)[4 * i + 2] == px[i].2 && rgba_bytes(px)[4 * i + 3]
            == 255 by {
            if i < init.len() {
                assert(init[i] == px[i]);
            }
        }
    }
}

/// The rgb64 byte string holds exactly three bytes per pixel, and bytes `3i..3i+3`
/// are the channels of pixel `i`.
pub proof fn lemma_rgb_layout(px: Seq<Color>)
    ensures
        rgb_bytes(px).len() == 3 * px.len(),
        forall|i: int|
            0 <= i < px.len() ==> #[trigger] rgb_bytes(px).subrange(3 * i, 3 * i + 3) == seq![
                px[i].0,
                px[i].1,
                px[i].2,
            ],
{
    lemma_rgb_bytes_at(px);
    assert forall|i: int| 0 <= i < px.len() implies #[trigger] rgb_bytes(px).subrange(
        3 * i,
        3 * i + 3,
    ) == seq![px[i].0, px[i].1, px[i].2] by {
        assert(px[i] == px[i]);
        assert(rgb_bytes(px).subrange(3 * i, 3 * i + 3) =~= seq![px[i].0, px[i].1, px[i].2]);
    }
}

/// The rgba64 byte string holds exactly four bytes per pixel, and bytes `4i..4i+4`
/// are the channels of pixel `i` followed by 255.
pub proof fn lemma_rgba_layout(px: Seq<Color>)
    ensures
        rgba_bytes(px).len() == 4 * px.len(),
        forall|i: int|
            0 <= i < px.len() ==> #[trigger] rgba_bytes(px).subrange(4 * i, 4 * i + 4) == seq![
                px[i].0,
                px[i].1,
                px[i].2,
                255u8,
            ],
{
    lemma_rgba_bytes_at(px);
    assert forall|i: int| 0 <= i < px.len() implies #[trigger] rgba_bytes(px).subrange(
        4 * i,
        4 * i + 4,
    ) == seq![px[i].0, px[i].1, px[i].2, 255u8] by {
        assert(px[i] == px[i]);
        assert(rgba_bytes(px).subrange(4 * i, 4 * i + 4) =~= seq![
            px[i].0,
            px[i].1,
            px[i].2,
            255u8,
        ]);
    }
}

/// Reading the rgb64 byte string back gives the pixels that were encoded.
pub proof fn lemma_rgb_round_trip(px: Seq<Color>)
    ensures
        colors_of_rgb(rgb_bytes(px)) == px,
{
    lemma_rgb_bytes_at(px);
    let b = rgb_bytes(px);
    assert(b.len() / 3 == px.len());
    assert forall|i: int| 0 <= i < px.len() implies #[trigger] colors_of_rgb(b)[i] == px[i] by {
        assert(px[i] == px[i]);
    }
    assert(colors_of_rgb(b) =~= px);
}

/// Reading the rgba64 byte string back gives the pixels that were encoded.
pub proof fn lemma_rgba_round_trip(px: Seq<Color>)
    ensures
        colors_of_rgba(rgba_bytes(px)) == px,
{
    lemma_rgba_bytes_at(px);
    let b = rgba_bytes(px);
    assert(b.len() / 4 == px.len());
    assert forall|i: int| 0 <= i < px.len() implies #[trigger] colors_of_rgba(b)[i] == px[i] by {
        assert(px[i] == px[i]);
    }
    assert(colors_of_rgba(b) =~= px);
}

/// An encoder turns pixmap data into text in its own format and back.
pub trait Encoder {
    /// The bytes that are base64-encoded for the given pixels.
    spec fn encoded_bytes(px: Seq<Color>) -> Seq<u8>;

    /// The pixels that the given decoded bytes stand for.
    spec fn decoded_colors(b: Seq<u8>) -> Seq<Color>;

    /// Encode `pixmap_data`, the pixels of a `pixmap_width` x `pixmap_height` pixmap in
    /// row-major order.
    fn encode(pixmap_width: usize, pixmap_height: usize, pixmap_data: &[Color]) -> (r: String)
        requires
            pixmap_data@.len() <= max_pixels(),
        ensures
            r@ == base64_of(Self::encoded_bytes(pixmap_data@)),
    ;

    /// Decode text of this format back into colors.
    fn decode(data: &String) -> (r: Result<Vec<Color>, EncodingError>)
        ensures
            base64_decoded(data@) is None ==> r == Err::<Vec<Color>, EncodingError>(
                EncodingError::InvalidBase64,
            ),
            base64_decoded(data@) matches Some(b) ==> r is Ok && r->Ok_0@ == Self::decoded_colors(
                b,
            ),
    ;
}

/// An encoder that implements *rgb64* encoding.
#[derive(Debug, Copy, Clone)]
pub struct Rgb64Encoder {}

/// An encoder that implements *rgba64* encoding.
#[derive(Debug, Copy, Clone)]
pub struct Rgba64Encoder {}

impl Encoder for Rgb64Encoder {
    open spec fn encoded_bytes(px: Seq<Color>) -> Seq<u8> {
        rgb_bytes(px)
    }

    open spec fn decoded_colors(b: Seq<u8>) -> Seq<Color> {
        colors_of_rgb(b)
    }

    fn encode(pixmap_width: usize, pixmap_height: usize, pixmap_data: &[Color]) -> (r: String) {
        let mut bytes: Vec<u8> = Vec::new();
        let mut i: usize = 0;
        while i < pixmap_data.len()
            invariant
                i <= pixmap_data@.len(),
                pixmap_data@.len() <= max_pixels(),
                bytes@ == rgb_bytes(pixmap_data@.take(i as int)),
                bytes@.len() == 3 * i,
            decreases pixmap_data@.len() - i,
        {
            let c = pixmap_data[i];
            bytes.push(c.0);
            bytes.push(c.1);
            bytes.push(c.2);
            proof {
                let next = pixmap_data@.take(i + 1);
                assert(next.drop_last() =~= pixmap_data@.take(i as int));
                assert(bytes@ =~= rgb_bytes(next));
            }
            i = i + 1;
        }
        assert(pixmap_data@.take(pixmap_data@.len() as int) =~= pixmap_data@);
        base64_encode(bytes.as_slice())
    }

    fn decode(data: &String) -> (r: Result<Vec<Color>, EncodingError>) {
        match base64_decode(data) {
            Err(_) => Err(EncodingError::InvalidBase64),
            Ok(b) => {
                let mut out: Vec<Color> = Vec::new();
                let n = b.len() / 3;
                let mut k: usize = 0;
                while k < n
                    invariant
                        n == b@.len() / 3,
                        k <= n,
                        out@ =~= colors_of_rgb(b@).take(k as int),
                    decreases n - k,
                {
                    proof {
                        assert(3 * k + 2 < b@.len()) by (nonlinear_arith)
                            requires
                                k < n,
                                n == b@.len() / 3,
                        ;
                    }
                    assert(3 * k < b.len());
                    let j: usize = 3 * k;
                    out.push(Color(b[j], b[j + 1], b[j + 2]));
                    k = k + 1;
                }
                Ok(out)
            },
        }
    }
}

impl Encoder for Rgba64Encoder {
    open spec fn encoded_bytes(px: Seq<Color>) -> Seq<u8> {
        rgba_bytes(px)
    }

    open spec fn decoded_colors(b: Seq<u8>) -> Seq<Color> {
        colors_of_rgba(b)
    }

    fn encode(pixmap_width: usize, pixmap_height: usize, pixmap_data: &[Color]) -> (r: String) {
        let mut bytes: Vec<u8> = Vec::new();
        let mut i: usize = 0;
        while i < pixmap_data.len()
            invariant
                i <= pixmap_data@.len(),
                pixmap_data@.len() <= max_pixels(),
                bytes@ == rgba_bytes(pixmap_data@.take(i as int)),
                bytes@.len() == 4 * i,
            decreases pixmap_data@.len() - i,
        {
            let c = pixmap_data[i];
            bytes.push(c.0);
            bytes.push(c.1);
            bytes.push(c.2);
            bytes.push(255);
            proof {
                let next = pixmap_data@.take(i + 1);
                assert(next.drop_last() =~= pixmap_data@.take(i as int));
                assert(bytes@ =~= rgba_bytes(next));
            }
            i = i + 1;
        }
        assert(pixmap_data@.take(pixmap_data@.len() as int) =~= pixmap_data@);
        base64_encode(bytes.as_slice())
    }

    fn decode(data: &String) -> (r: Result<Vec<Color>, EncodingError>) {
        match base64_decode(data) {
            Err(_) => Err(EncodingError::InvalidBase64),
            Ok(b) => {
                let mut out: Vec<Color> = Vec::new();
                let n = b.len() / 4;
                let mut k: usize = 0;
                while k < n
                    invariant
                        n == b@.len() / 4,
                        k <= n,
                        out@ =~= colors_of_rgba(b@).take(k as int),
                    decreases n - k,
                {
                    proof {
                        assert(4 * k + 3 < b@.len()) by (nonlinear_arith)
                            requires
                                k < n,
                                n == b@.len() / 4,
                        ;
                    }
                    assert(4 * k < b.len());
                    let j: usize = 4 * k;
                    out.push(Color(b[j], b[j + 1], b[j + 2]));
                    k = k + 1;
                }
                Ok(out)
            },
        }
    }
}

/// The most recent encoding of a pixmap in the format of `E`; empty until the first
/// encoding.
pub struct AutoEncoder<E: Encoder> {
    cache: String,
    encoder: PhantomData<E>,
}

impl<E: Encoder> AutoEncoder<E> {
    pub closed spec fn cached(&self) -> Seq<char> {
        self.cache@
    }

    /// An encoder cache that holds nothing yet.
    pub fn new() -> (r: AutoEncoder<E>)
        ensures
            r.cached() == Seq::<char>::empty(),
    {
        AutoEncoder { cache: String::new(), encoder: PhantomData }
    }

    /// Encode a snapshot of the pixmap and replace the cache by it.
    pub fn handle_trigger_encoding(
        &mut self,
        pixmap_width: usize,
        pixmap_height: usize,
        pixmap_data: &[Color],
    )
        requires
            pixmap_data@.len() <= max_pixels(),
        ensures
            final(self).cached() == base64_of(E::encoded_bytes(pixmap_data@)),
    {
        self.cache = E::encode(pixmap_width, pixmap_height, pixmap_data);
    }

    /// A copy of the most recent encoding.
    pub fn get_encoded_data(&self) -> (r: String)
        ensures
            r@ == self.cached(),
    {
        self.cache.clone()
    }
}

/// The caches of both encodings.
pub struct MultiEncodersClient {
    rgb64: AutoEncoder<Rgb64Encoder>,
    rgba64: AutoEncoder<Rgba64Encoder>,
}

impl MultiEncodersClient {
    pub closed spec fn rgb64_cached(&self) -> Seq<char> {
        self.rgb64.cached()
    }

    pub closed spec fn rgba64_cached(&self) -> Seq<char> {
        self.rgba64.cached()
    }

    /// Both caches empty.
    pub fn new() -> (r: MultiEncodersClient)
        ensures
            r.rgb64_cached() == Seq::<char>::empty(),
            r.rgba64_cached() == Seq::<char>::empty(),
    {
        MultiEncodersClient { rgb64: AutoEncoder::new(), rgba64: AutoEncoder::new() }
    }

    /// Re-encode both caches from a snapshot of the pixmap.
    pub fn update(&mut self, pixmap_width: usize, pixmap_height: usize, pixmap_data: &[Color])
        requires
            pixmap_data@.len() <= max_pixels(),
        ensures
            final(self).rgb64_cached() == base64_of(rgb_bytes(pixmap_data@)),
            final(self).rgba64_cached() == base64_of(rgba_bytes(pixmap_data@)),
    {
        self.rgb64.handle_trigger_encoding(pixmap_width, pixmap_height, pixmap_data);
        self.rgba64.handle_trigger_encoding(pixmap_width, pixmap_height, pixmap_data);
    }

    /// The most recent *rgb64* encoding.
    pub fn get_rgb64_data(&self) -> (r: String)
        ensures
            r@ == self.rgb64_cached(),
    {
        self.rgb64.get_encoded_data()
    }

    /// The most recent *rgba64* encoding.
    pub fn get_rgba64_data(&self) -> (r: String)
        ensures
            r@ == self.rgba64_cached(),
    {
        self.rgba64.get_encoded_data()
    }
}

} // verus!
