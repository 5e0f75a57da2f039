use pixelflut::color::Color;
use pixelflut::framing::{Frame, FrameError};
use pixelflut::protocol::{
    split_words, HelpTopic, ParseError, Request, Response, StateEncodingAlgorithm,
};

#[test]
fn frame_from_input() {
    let (f, n) = Frame::from_input(b"SIZE\nPX 1 2\n").unwrap();
    assert_eq!(f.payload(), &b"SIZE".to_vec());
    assert_eq!(n, 5);
    assert_eq!(Frame::from_input(b"SIZE"), Err(FrameError::Incomplete));
    assert_eq!(Frame::from_input(b""), Err(FrameError::Incomplete));
    let (f, n) = Frame::from_input(b"\n").unwrap();
    assert!(f.payload().is_empty());
    assert_eq!(n, 1);
    let (f, n) = Frame::from_input_at(b"SIZE\nPX 1 2\n", 5).unwrap();
    assert_eq!(f.payload(), &b"PX 1 2".to_vec());
    assert_eq!(n, 7);
}

#[test]
fn frame_encode_appends_newline() {
    assert_eq!(Frame::new(b"PX 1 2".to_vec()).encode(), b"PX 1 2\n".to_vec());
    assert_eq!(Frame::new_from_string("SIZE").encode(), b"SIZE\n".to_vec());
}

#[test]
fn words_split_on_spaces() {
    assert_eq!(
        split_words(b"  PX\t1  2\r"),
        vec![b"PX".to_vec(), b"1".to_vec(), b"2".to_vec()]
    );
    assert!(split_words(b"   ").is_empty());
}

#[test]
fn parse_requests() {
    assert_eq!(Request::parse(b"SIZE"), Ok(Request::GetSize));
    assert_eq!(Request::parse(b"size"), Ok(Request::GetSize));
    assert_eq!(Request::parse(b"PX 10 20"), Ok(Request::GetPixel { x: 10, y: 20 }));
    assert_eq!(
        Request::parse(b"px 10 20 ff0000"),
        Ok(Request::SetPixel { x: 10, y: 20, color: Color(255, 0, 0) })
    );
    assert_eq!(Request::parse(b"HELP"), Ok(Request::Help(HelpTopic::General)));
    assert_eq!(Request::parse(b"HELP px"), Ok(Request::Help(HelpTopic::Px)));
    assert_eq!(Request::parse(b"STATE rgb64"), Ok(Request::State(StateEncodingAlgorithm::Rgb64)));
    assert_eq!(Request::parse(b"STATE RGBA64"), Ok(Request::State(StateEncodingAlgorithm::Rgba64)));
    assert_eq!(Request::parse(b"SUBSCRIBE"), Ok(Request::Subscribe));
    assert_eq!(Request::parse(b"UNSUBSCRIBE\r"), Ok(Request::Unsubscribe));
}

#[test]
fn parse_rejects_malformed() {
    for bad in [
        &b""[..],
        b"FOO",
        b"SIZE 1",
        b"PX 1",
        b"PX a 2",
        b"PX -1 2",
        b"PX 1 2 GG0000",
        b"PX 1 2 FF00",
        b"PX 1 2 FF0000 5",
        b"PX 99999999999999999999999 0",
        b"STATE rgb32",
        b"STATE",
        b"HELP me please",
        b"SUBSCRIBE now",
    ] {
        assert_eq!(Request::parse(bad), Err(ParseError::Malformed));
    }
}

#[test]
fn render_responses() {
    assert_eq!(Response::Size { width: 800, height: 600 }.to_bytes(), b"SIZE 800 600".to_vec());
    assert_eq!(
        Response::Px { x: 10, y: 20, color: Color(255, 0, 0) }.to_bytes(),
        b"PX 10 20 FF0000".to_vec()
    );
    assert_eq!(
        Response::State(StateEncodingAlgorithm::Rgb64, "qrvM".to_string()).to_bytes(),
        b"STATE rgb64 qrvM".to_vec()
    );
    assert_eq!(Response::SubscriptionActivated.to_bytes(), b"SUBSCRIBED".to_vec());
    assert_eq!(Response::SubscriptionDeactivated.to_bytes(), b"UNSUBSCRIBED".to_vec());
    assert_eq!(Response::Size { width: 0, height: 7 }.to_frame().encode(), b"SIZE 0 7\n".to_vec());
    let help = Response::Help(HelpTopic::General).to_bytes();
    assert!(!help.is_empty());
    assert!(!help.contains(&b'\n'));
}
