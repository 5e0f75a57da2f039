//! The request/response grammar of the wire protocol.
//!
//! Requests are ASCII lines of space-separated words with a case-insensitive command:
//! `SIZE`, `PX x y`, `PX x y RRGGBB`, `HELP [topic]`, `STATE <algo>`, `SUBSCRIBE` and
//! `UNSUBSCRIBE`.

use vstd::prelude::*;
use vstd::string::StringSliceAdditionalSpecFns;
use vstd::utf8::encode_utf8;

use crate::color::{hex_text, parse_hex_color, Color};
use crate::framing::Frame;
use crate::text::{decimal_text, parse_number, parse_number_of, push_bytes, push_decimal};

verus! {

/// Separates words: space, tab and carriage return.
pub open spec fn is_space(b: u8) -> bool {
    b == 32 || b == 9 || b == 13
}

/// The maximal runs of non-space bytes of `s`, in order.
pub open spec fn words(s: Seq<u8>) -> Seq<Seq<u8>>
    decreases s.len(),
{
    if s.len() == 0 {
        seq![]
    } else {
        let w = words(s.drop_last());
        if is_space(s.last()) {
            w
        } else if s.len() >= 2 && !is_space(s[s.len() - 2]) {
            w.update(w.len() - 1, w.last().push(s.last()))
        } else {
            w.push(seq![s.last()])
        }
    }
}

/// Lower case of an ASCII letter; other bytes are kept.
pub open spec fn ascii_lower(b: u8) -> u8 {
    if 65 <= b <= 90 {
        (b + 32) as u8
    } else {
        b
    }
}

/// `w` spells the lower-case keyword `k`, in any case.
pub open spec fn is_keyword(w: Seq<u8>, k: Seq<u8>) -> bool {
    &&& w.len() == k.len()
    &&& forall|i: int| 0 <= i < w.len() ==> ascii_lower(w[i]) == k[i]
}

pub open spec fn kw_size() -> Seq<u8> {
    seq!['s' as u8, 'i' as u8, 'z' as u8, 'e' as u8]
}

pub open spec fn kw_px() -> Seq<u8> {
    seq!['p' as u8, 'x' as u8]
}

pub open spec fn kw_help() -> Seq<u8> {
    seq!['h' as u8, 'e' as u8, 'l' as u8, 'p' as u8]
}

pub open spec fn kw_state() -> Seq<u8> {
    seq!['s' as u8, 't' as u8, 'a' as u8, 't' as u8, 'e' as u8]
}

pub open spec fn kw_subscribe() -> Seq<u8> {
    seq![
        's' as u8,
        'u' as u8,
        'b' as u8,
        's' as u8,
        'c' as u8,
        'r' as u8,
        'i' as u8,
        'b' as u8,
        'e' as u8,
    ]
}

pub open spec fn kw_unsubscribe() -> Seq<u8> {
    seq!['u' as u8, 'n' as u8] + kw_subscribe()
}

pub open spec fn kw_rgb64() -> Seq<u8> {
    seq!['r' as u8, 'g' as u8, 'b' as u8, '6' as u8, '4' as u8]
}

pub open spec fn kw_rgba64() -> Seq<u8> {
    seq!['r' as u8, 'g' as u8, 'b' as u8, 'a' as u8, '6' as u8, '4' as u8]
}

/// A named scheme for dumping the whole canvas as base64 text.
#[derive(Debug, Copy, Clone, PartialEq, Eq, Structural, Hash)]
pub enum StateEncodingAlgorithm {
    /// Three bytes `R, G, B` per pixel.
    Rgb64,
    /// Four bytes `R, G, B, 255` per pixel.
    Rgba64,
}

/// What a `HELP` request asks about.
#[derive(Debug, Copy, Clone, PartialEq, Eq, Structural, Hash)]
pub enum HelpTopic {
    General,
    Size,
    Px,
    State,
    Subscribe,
    Unsubscribe,
}

/// A parsed request.
#[derive(Debug, Copy, Clone, PartialEq, Eq, Structural, Hash)]
pub enum Request {
    GetSize,
    GetPixel { x: usize, y: usize },
    SetPixel { x: usize, y: usize, color: Color },
    Help(HelpTopic),
    State(StateEncodingAlgorithm),
    Subscribe,
    Unsubscribe,
}

/// Why a frame is no request.
#[derive(Debug, Copy, Clone, PartialEq, Eq, Structural, Hash)]
pub enum ParseError {
    /// Unknown command, wrong number of arguments, a coordinate that is no number, or
    /// a color that is not six hex digits.
    Malformed,
}

/// A response to be sent back.
#[derive(Debug, Clone, PartialEq, Eq)]
pub enum Response {
    Size { width: usize, height: usize },
    Px { x: usize, y: usize, color: Color },
    Help(HelpTopic),
    State(StateEncodingAlgorithm, String),
    SubscriptionActivated,
    SubscriptionDeactivated,
}

pub open spec fn parse_algorithm(w: Seq<u8>) -> Option<StateEncodingAlgorithm> {
    if is_keyword(w, kw_rgb64()) {
        Some(StateEncodingAlgorithm::Rgb64)
    } else if is_keyword(w, kw_rgba64()) {
        Some(StateEncodingAlgorithm::Rgba64)
    } else {
        None
    }
}

pub open spec fn parse_topic(w: Seq<u8>) -> Option<HelpTopic> {
    if is_keyword(w, kw_size()) {
        Some(HelpTopic::Size)
    } else if is_keyword(w, kw_px()) {
        Some(HelpTopic::Px)
    } else if is_keyword(w, kw_state()) {
        Some(HelpTopic::State)
    } else if is_keyword(w, kw_subscribe()) {
        Some(HelpTopic::Subscribe)
    } else if is_keyword(w, kw_unsubscribe()) {
        Some(HelpTopic::Unsubscribe)
    } else {
        None
    }
}

/// The request that the words `ws` make up.
pub open spec fn parse_words(ws: Seq<Seq<u8>>) -> Result<Request, ParseError> {
    if ws.len() == 0 {
        Err(ParseError::Malformed)
    } else if is_keyword(ws[0], kw_size()) && ws.len() == 1 {
        Ok(Request::GetSize)
    } else if is_keyword(ws[0], kw_px()) && ws.len() == 3 && parse_number(ws[1]) is Some
        && parse_number(ws[2]) is Some {
        Ok(Request::GetPixel { x: parse_number(ws[1])->0, y: parse_number(ws[2])->0 })
    } else if is_keyword(ws[0], kw_px()) && ws.len() == 4 && parse_number(ws[1]) is Some
        && parse_number(ws[2]) is Some && parse_hex_color(ws[3]) is Some {
        Ok(
            Request::SetPixel {
                x: parse_number(ws[1])->0,
                y: parse_number(ws[2])->0,
                color: parse_hex_color(ws[3])->0,
            },
        )
    } else if is_keyword(ws[0], kw_help()) && ws.len() == 1 {
        Ok(Request::Help(HelpTopic::General))
    } else if is_keyword(ws[0], kw_help()) && ws.len() == 2 && parse_topic(ws[1]) is Some {
        Ok(Request::Help(parse_topic(ws[1])->0))
    } else if is_keyword(ws[0], kw_state()) && ws.len() == 2 && parse_algorithm(ws[1]) is Some {
        Ok(Request::State(parse_algorithm(ws[1])->0))
    } else if is_keyword(ws[0], kw_subscribe()) && ws.len() == 1 {
        Ok(Request::Subscribe)
    } else if is_keyword(ws[0], kw_unsubscribe()) && ws.len() == 1 {
        Ok(Request::Unsubscribe)
    } else {
        Err(ParseError::Malformed)
    }
}

/// The request that a frame's bytes spell.
pub open spec fn parse_request(payload: Seq<u8>) -> Result<Request, ParseError> {
    parse_words(words(payload))
}

pub open spec fn lit_size() -> Seq<u8> {
    seq!['S' as u8, 'I' as u8, 'Z' as u8, 'E' as u8]
}

pub open spec fn lit_px() -> Seq<u8> {
    seq!['P' as u8, 'X' as u8]
}

pub open spec fn lit_state() -> Seq<u8> {
    seq!['S' as u8, 'T' as u8, 'A' as u8, 'T' as u8, 'E' as u8]
}

pub open spec fn lit_subscribed() -> Seq<u8> {
    seq![
        'S' as u8,
        'U' as u8,
        'B' as u8,
        'S' as u8,
        'C' as u8,
        'R' as u8,
        'I' as u8,
        'B' as u8,
        'E' as u8,
        'D' as u8,
    ]
}

pub open spec fn lit_unsubscribed() -> Seq<u8> {
    seq!['U' as u8, 'N' as u8] + lit_subscribed()
}

/// The name of an encoding as it stands in a `STATE` response.
pub open spec fn algorithm_name(a: StateEncodingAlgorithm) -> Seq<u8> {
    match a {
        StateEncodingAlgorithm::Rgb64 => kw_rgb64(),
        StateEncodingAlgorithm::Rgba64 => kw_rgba64(),
    }
}

/// The one-line help text of a topic.
pub open spec fn help_text(t: HelpTopic) -> &'static str {
    match t {
        HelpTopic::General => "HELP commands: SIZE, PX, STATE, SUBSCRIBE, UNSUBSCRIBE; HELP <command> for details",
        HelpTopic::Size => "HELP SIZE: answers SIZE <width> <height>",
        HelpTopic::Px => "HELP PX <x> <y>: answers PX <x> <y> <RRGGBB>; PX <x> <y> <RRGGBB>: sets the pixel",
        HelpTopic::State => "HELP STATE <rgb64|rgba64>: answers STATE <algo> <base64 of the whole canvas>",
        HelpTopic::Subscribe => "HELP SUBSCRIBE: streams PX lines for every changed pixel",
        HelpTopic::Unsubscribe => "HELP UNSUBSCRIBE: stops the stream of PX lines",
    }
}

pub open spec fn space() -> Seq<u8> {
    seq![32u8]
}

/// The bytes of the frame that carries a response.
pub open spec fn response_payload(r: Response) -> Seq<u8> {
    match r {
        Response::Size { width, height } => lit_size() + space() + decimal_text(width as nat)
            + space() + decimal_text(height as nat),
        Response::Px { x, y, color } => lit_px() + space() + decimal_text(x as nat) + space()
            + decimal_text(y as nat) + space() + hex_text(color),
        Response::Help(t) => help_text(t).spec_bytes(),
        Response::State(a, data) => lit_state() + space() + algorithm_name(a) + space()
            + encode_utf8(data@),
        Response::SubscriptionActivated => lit_subscribed(),
        Response::SubscriptionDeactivated => lit_unsubscribed(),
    }
}

fn to_lower(b: u8) -> (r: u8)
    ensures
        r == ascii_lower(b),
{
    if 65 <= b && b <= 90 {
        b + 32
    } else {
        b
    }
}

/// Whether `w` spells the lower-case keyword `k`, in any case.
fn word_is(w: &[u8], k: &[u8]) -> (r: bool)
    ensures
        r == is_keyword(w@, k@),
{
    if w.len() != k.len() {
        return false;
    }
    let mut i: usize = 0;
    while i < w.len()
        invariant
            w@.len() == k@.len(),
            i <= w@.len(),
            forall|j: int| 0 <= j < i ==> ascii_lower(w@[j]) == k@[j],
        decreases w@.len() - i,
    {
        if to_lower(w[i]) != k[i] {
            return false;
        }
        i = i + 1;
    }
    true
}

/// The words of `s`: its maximal runs of bytes other than space, tab and carriage
/// return.
pub fn split_words(s: &[u8]) -> (r: Vec<Vec<u8>>)
    ensures
        r@.len() == words(s@).len(),
        forall|i: int| 0 <= i < r@.len() ==> #[trigger] r@[i]@ == words(s@)[i],
{
    let mut out: Vec<Vec<u8>> = Vec::new();
    let mut cur: Vec<u8> = Vec::new();
    let mut in_word = false;
    let mut i: usize = 0;
    while i < s.len()
        invariant
            i <= s@.len(),
            in_word == (i > 0 && !is_space(s@[i - 1])),
            in_word ==> words(s@.take(i as int)) =~= out@.map_values(|v: Vec<u8>| v@).push(
                cur@,
            ),
            !in_word ==> words(s@.take(i as int)) =~= out@.map_values(|v: Vec<u8>| v@),
        decreases s@.len() - i,
    {
        let c = s[i];
        let ghost prev = s@.take(i as int);
        let ghost next = s@.take(i + 1);
        assert(next.drop_last() =~= prev);
        assert(next.last() == c);
        if c == 32 || c == 9 || c == 13 {
            if in_word {
                let ghost outv = out@.map_values(|v: Vec<u8>| v@);
                out.push(cur);
                assert(out@.map_values(|v: Vec<u8>| v@) =~= outv.push(cur@));
                cur = Vec::new();
            }
            in_word = false;
        } else if in_word {
            proof {
                assert(next.len() >= 2 && !is_space(next[next.len() - 2]));
            }
            cur.push(c);
        } else {
            cur = Vec::new();
            cur.push(c);
            assert(cur@ =~= seq![c]);
            in_word = true;
        }
        i = i + 1;
    }
    assert(s@.take(s@.len() as int) =~= s@);
    if in_word {
        let ghost outv = out@.map_values(|v: Vec<u8>| v@);
        out.push(cur);
        assert(out@.map_values(|v: Vec<u8>| v@) =~= outv.push(cur@));
    }
    assert forall|i: int| 0 <= i < out@.len() implies #[trigger] out@[i]@ == words(s@)[i] by {
        assert(out@.map_values(|v: Vec<u8>| v@)[i] == out@[i]@);
    }
    out
}

fn parse_algorithm_of(w: &[u8]) -> (r: Option<StateEncodingAlgorithm>)
    ensures
        r == parse_algorithm(w@),
{
    let rgb64: [u8; 5] = ['r' as u8, 'g' as u8, 'b' as u8, '6' as u8, '4' as u8];
    let rgba64: [u8; 6] = ['r' as u8, 'g' as u8, 'b' as u8, 'a' as u8, '6' as u8, '4' as u8];
    if word_is(w, rgb64.as_slice()) {
        Some(StateEncodingAlgorithm::Rgb64)
    } else if word_is(w, rgba64.as_slice()) {
        Some(StateEncodingAlgorithm::Rgba64)
    } else {
        None
    }
}

fn kw_size_bytes() -> (r: [u8; 4])
    ensures
        r@ == kw_size(),
{
    ['s' as u8, 'i' as u8, 'z' as u8, 'e' as u8]
}

fn kw_px_bytes() -> (r: [u8; 2])
    ensures
        r@ == kw_px(),
{
    ['p' as u8, 'x' as u8]
}

fn kw_help_bytes() -> (r: [u8; 4])
    ensures
        r@ == kw_help(),
{
    ['h' as u8, 'e' as u8, 'l' as u8, 'p' as u8]
}

fn kw_state_bytes() -> (r: [u8; 5])
    ensures
        r@ == kw_state(),
{
    ['s' as u8, 't' as u8, 'a' as u8, 't' as u8, 'e' as u8]
}

fn kw_subscribe_bytes() -> (r: [u8; 9])
    ensures
        r@ == kw_subscribe(),
{
    [
        's' as u8,
        'u' as u8,
        'b' as u8,
        's' as u8,
        'c' as u8,
        'r' as u8,
        'i' as u8,
        'b' as u8,
        'e' as u8,
    ]
}

fn kw_unsubscribe_bytes() -> (r: [u8; 11])
    ensures
        r@ == kw_unsubscribe(),
{
    let r = [
        'u' as u8,
        'n' as u8,
        's' as u8,
        'u' as u8,
        'b' as u8,
        's' as u8,
        'c' as u8,
        'r' as u8,
        'i' as u8,
        'b' as u8,
        'e' as u8,
    ];
    assert(r@ =~= kw_unsubscribe());
    r
}

fn parse_topic_of(w: &[u8]) -> (r: Option<HelpTopic>)
    ensures
        r == parse_topic(w@),
{
    if word_is(w, kw_size_bytes().as_slice()) {
        Some(HelpTopic::Size)
    } else if word_is(w, kw_px_bytes().as_slice()) {
        Some(HelpTopic::Px)
    } else if word_is(w, kw_state_bytes().as_slice()) {
        Some(HelpTopic::State)
    } else if word_is(w, kw_subscribe_bytes().as_slice()) {
        Some(HelpTopic::Subscribe)
    } else if word_is(w, kw_unsubscribe_bytes().as_slice()) {
        Some(HelpTopic::Unsubscribe)
    } else {
        None
    }
}

fn help_message(t: HelpTopic) -> (r: &'static str)
    ensures
        r == help_text(t),
{
    match t {
        HelpTopic::General => "HELP commands: SIZE, PX, STATE, SUBSCRIBE, UNSUBSCRIBE; HELP <command> for details",
        HelpTopic::Size => "HELP SIZE: answers SIZE <width> <height>",
        HelpTopic::Px => "HELP PX <x> <y>: answers PX <x> <y> <RRGGBB>; PX <x> <y> <RRGGBB>: sets the pixel",
        HelpTopic::State => "HELP STATE <rgb64|rgba64>: answers STATE <algo> <base64 of the whole canvas>",
        HelpTopic::Subscribe => "HELP SUBSCRIBE: streams PX lines for every changed pixel",
        HelpTopic::Unsubscribe => "HELP UNSUBSCRIBE: stops the stream of PX lines",
    }
}

impl Request {
    /// The request spelled by the bytes of a frame.
    pub fn parse(payload: &[u8]) -> (r: Result<Request, ParseError>)
        ensures
            r == parse_request(payload@),
    {
        let ws = split_words(payload);
        let ghost sw = words(payload@);
        let n = ws.len();
        if n == 0 {
            return Err(ParseError::Malformed);
        }
        let cmd = ws[0].as_slice();
        if word_is(cmd, kw_size_bytes().as_slice()) && n == 1 {
            return Ok(Request::GetSize);
        }
        if word_is(cmd, kw_px_bytes().as_slice()) && (n == 3 || n == 4) {
            let x = parse_number_of(ws[1].as_slice());
            let y = parse_number_of(ws[2].as_slice());
            if n == 3 {
                match (x, y) {
                    (Some(x), Some(y)) => {
                        return Ok(Request::GetPixel { x, y });
                    },
                    _ => {},
                }
            } else {
                let color = Color::parse_hex(ws[3].as_slice());
                match (x, y, color) {
                    (Some(x), Some(y), Some(color)) => {
                        return Ok(Request::SetPixel { x, y, color });
                    },
                    _ => {},
                }
            }
        }
        if word_is(cmd, kw_help_bytes().as_slice()) {
            if n == 1 {
                return Ok(Request::Help(HelpTopic::General));
            }
            if n == 2 {
                match parse_topic_of(ws[1].as_slice()) {
                    Some(t) => {
                        return Ok(Request::Help(t));
                    },
                    None => {},
                }
            }
        }
        if word_is(cmd, kw_state_bytes().as_slice()) && n == 2 {
            match parse_algorithm_of(ws[1].as_slice()) {
                Some(a) => {
                    return Ok(Request::State(a));
                },
                None => {},
            }
        }
        if word_is(cmd, kw_subscribe_bytes().as_slice()) && n == 1 {
            return Ok(Request::Subscribe);
        }
        if word_is(cmd, kw_unsubscribe_bytes().as_slice()) && n == 1 {
            return Ok(Request::Unsubscribe);
        }
        proof {
            assert(!is_keyword(sw[0], kw_px()) || sw.len() != 3 || parse_number(sw[1]) is None
                || parse_number(sw[2]) is None);
        }
        Err(ParseError::Malformed)
    }

    /// The request carried by a frame.
    pub fn from_frame(frame: &Frame) -> (r: Result<Request, ParseError>)
        ensures
            r == parse_request(frame@),
    {
        Request::parse(frame.payload().as_slice())
    }
}

impl Response {
    /// The bytes of the frame that carries this response.
    pub fn to_bytes(&self) -> (r: Vec<u8>)
        ensures
            r@ == response_payload(*self),
    {
        let mut out: Vec<u8> = Vec::new();
        match self {
            Response::Size { width, height } => {
                let lit: [u8; 4] = ['S' as u8, 'I' as u8, 'Z' as u8, 'E' as u8];
                push_bytes(&mut out, lit.as_slice());
                out.push(32);
                push_decimal(&mut out, *width);
                out.push(32);
                push_decimal(&mut out, *height);
            },
            Response::Px { x, y, color } => {
                let lit: [u8; 2] = ['P' as u8, 'X' as u8];
                push_bytes(&mut out, lit.as_slice());
                out.push(32);
                push_decimal(&mut out, *x);
                out.push(32);
                push_decimal(&mut out, *y);
                out.push(32);
                let hex = color.hex_bytes();
                push_bytes(&mut out, hex.as_slice());
            },
            Response::Help(t) => {
                let text = help_message(*t);
                push_bytes(&mut out, text.as_bytes());
            },
            Response::State(a, data) => {
                let lit: [u8; 5] = ['S' as u8, 'T' as u8, 'A' as u8, 'T' as u8, 'E' as u8];
                push_bytes(&mut out, lit.as_slice());
                out.push(32);
                match a {
                    StateEncodingAlgorithm::Rgb64 => {
                        let name: [u8; 5] = ['r' as u8, 'g' as u8, 'b' as u8, '6' as u8, '4' as u8];
                        push_bytes(&mut out, name.as_slice());
                    },
                    StateEncodingAlgorithm::Rgba64 => {
                        let name: [u8; 6] = [
                            'r' as u8,
                            'g' as u8,
                            'b' as u8,
                            'a' as u8,
                            '6' as u8,
                            '4' as u8,
                        ];
                        push_bytes(&mut out, name.as_slice());
                    },
                }
                out.push(32);
                push_bytes(&mut out, data.as_str().as_bytes());
            },
            Response::SubscriptionActivated => {
                let lit: [u8; 10] = [
                    'S' as u8,
                    'U' as u8,
                    'B' as u8,
                    'S' as u8,
                    'C' as u8,
                    'R' as u8,
                    'I' as u8,
                    'B' as u8,
                    'E' as u8,
                    'D' as u8,
                ];
                push_bytes(&mut out, lit.as_slice());
            },
            Response::SubscriptionDeactivated => {
                let lit: [u8; 12] = [
                    'U' as u8,
                    'N' as u8,
                    'S' as u8,
                    'U' as u8,
                    'B' as u8,
                    'S' as u8,
                    'C' as u8,
                    'R' as u8,
                    'I' as u8,
                    'B' as u8,
                    'E' as u8,
                    'D' as u8,
                ];
                push_bytes(&mut out, lit.as_slice());
                assert(lit@ =~= lit_unsubscribed());
            },
        }
        assert(out@ =~= response_payload(*self));
        out
    }

    /// The frame that carries this response.
    pub fn to_frame(&self) -> (r: Frame)
        ensures
            r@ == response_payload(*self),
    {
        Frame::new(self.to_bytes())
    }
}

} // verus!
