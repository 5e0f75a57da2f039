use std::collections::HashSet;

use pixelflut::canvas::{Canvas, ConnectionPreferences, RequestError};
use pixelflut::color::Color;
use pixelflut::framing::Frame;
use pixelflut::net::{SubscriptionChange, TcpConnection};
use pixelflut::pixmap::PixmapError;
use pixelflut::pixmap_actor::SetPixelMsg;
use pixelflut::protocol::{Request, Response, StateEncodingAlgorithm};

/// Feed `input` to a connection and collect everything written back.
fn tcp_exchange(canvas: &mut Canvas, conn: &mut TcpConnection, input: &[u8]) -> Vec<u8> {
    let mut written = Vec::new();
    conn.receive(input);
    while let Some(frame) = conn.read_frame() {
        let mut prefs = conn.get_preferences();
        if let Some(reply) = canvas.handle_frame(&frame, &mut prefs) {
            written.extend(reply.encode());
        }
        conn.set_preferences(prefs);
        if let Some(change) = conn.reconcile_subscription() {
            written.extend(change.response().to_frame().encode());
        }
    }
    written
}

#[test]
fn get_set_round_trip_over_tcp() {
    let mut canvas = Canvas::new(10, 10).unwrap();
    let mut conn = TcpConnection::new();
    assert_eq!(tcp_exchange(&mut canvas, &mut conn, b"PX 3 4 AABBCC\n"), b"".to_vec());
    assert_eq!(tcp_exchange(&mut canvas, &mut conn, b"PX 3 4\n"), b"PX 3 4 AABBCC\n".to_vec());
}

#[test]
fn split_frames_over_reads() {
    let mut canvas = Canvas::new(10, 10).unwrap();
    let mut conn = TcpConnection::new();
    assert_eq!(tcp_exchange(&mut canvas, &mut conn, b"SI"), b"".to_vec());
    assert_eq!(tcp_exchange(&mut canvas, &mut conn, b"ZE\nSIZE\n"), b"SIZE 10 10\nSIZE 10 10\n".to_vec());
}

#[test]
fn size_query() {
    let mut canvas = Canvas::new(800, 600).unwrap();
    let mut conn = TcpConnection::new();
    assert_eq!(tcp_exchange(&mut canvas, &mut conn, b"SIZE\n"), b"SIZE 800 600\n".to_vec());
    assert_eq!(canvas.get_size(), (800, 600));
}

#[test]
fn out_of_bounds_keeps_connection() {
    let mut canvas = Canvas::new(10, 10).unwrap();
    let mut conn = TcpConnection::new();
    let reply = tcp_exchange(&mut canvas, &mut conn, b"PX 10 0\n");
    assert!(!reply.starts_with(b"PX"));
    assert!(reply.ends_with(b"\n"));
    assert_eq!(reply, b"ERROR coordinates out of bounds\n".to_vec());
    assert_eq!(tcp_exchange(&mut canvas, &mut conn, b"SIZE\n"), b"SIZE 10 10\n".to_vec());
}

#[test]
fn malformed_request_gets_error_frame() {
    let mut canvas = Canvas::new(10, 10).unwrap();
    let mut conn = TcpConnection::new();
    assert_eq!(tcp_exchange(&mut canvas, &mut conn, b"HELLO\n"), b"ERROR malformed request\n".to_vec());
    assert_eq!(tcp_exchange(&mut canvas, &mut conn, b"SIZE\n"), b"SIZE 10 10\n".to_vec());
}

#[test]
fn boundary_pixels() {
    let mut canvas = Canvas::new(10, 7).unwrap();
    let mut prefs = ConnectionPreferences::default();
    let c = Color(1, 2, 3);
    assert_eq!(canvas.handle_request(Request::SetPixel { x: 9, y: 6, color: c }, &mut prefs), Ok(None));
    assert_eq!(
        canvas.handle_request(Request::SetPixel { x: 10, y: 0, color: c }, &mut prefs),
        Err(RequestError::OutOfBounds)
    );
    assert_eq!(
        canvas.handle_request(Request::SetPixel { x: 0, y: 7, color: c }, &mut prefs),
        Err(RequestError::OutOfBounds)
    );
    assert_eq!(
        canvas.handle_request(Request::GetPixel { x: 9, y: 6 }, &mut prefs),
        Ok(Some(Response::Px { x: 9, y: 6, color: c }))
    );
}

#[test]
fn canvas_rejects_empty_dimensions() {
    assert_eq!(Canvas::new(0, 5).err(), Some(PixmapError::InvalidSize));
}

#[test]
fn subscribe_and_stream() {
    let mut canvas = Canvas::new(2, 2).unwrap();
    let mut a = TcpConnection::new();
    let mut b = TcpConnection::new();
    assert_eq!(tcp_exchange(&mut canvas, &mut a, b"SUBSCRIBE\n"), b"SUBSCRIBED\n".to_vec());
    assert_eq!(tcp_exchange(&mut canvas, &mut b, b"PX 0 0 010203\nPX 1 1 040506\n"), b"".to_vec());
    let batch = canvas.trigger_flush();
    let lines = TcpConnection::handle_new_subscription_data(&batch);
    let got: HashSet<Vec<u8>> = lines
        .split(|b| *b == b'\n')
        .filter(|l| !l.is_empty())
        .map(|l| l.to_vec())
        .collect();
    let want: HashSet<Vec<u8>> =
        [b"PX 0 0 010203".to_vec(), b"PX 1 1 040506".to_vec()].into_iter().collect();
    assert_eq!(got, want);
    assert_eq!(lines.len(), 2 * 14);
    assert!(canvas.trigger_flush().is_empty());
    assert_eq!(tcp_exchange(&mut canvas, &mut a, b"UNSUBSCRIBE\n"), b"UNSUBSCRIBED\n".to_vec());
}

#[test]
fn tracker_coalescing() {
    let mut canvas = Canvas::new(2, 2).unwrap();
    let mut conn = TcpConnection::new();
    tcp_exchange(&mut canvas, &mut conn, b"PX 0 0 010101\nPX 0 0 020202\n");
    let batch = canvas.trigger_flush();
    assert_eq!(batch, vec![SetPixelMsg { x: 0, y: 0, color: Color(2, 2, 2) }]);
    assert_eq!(TcpConnection::handle_new_subscription_data(&batch), b"PX 0 0 020202\n".to_vec());
}

#[test]
fn flushed_updates_were_applied() {
    let mut canvas = Canvas::new(3, 3).unwrap();
    let mut prefs = ConnectionPreferences::default();
    let writes = [(0usize, 0usize, Color(1, 1, 1)), (2, 1, Color(2, 2, 2)), (0, 0, Color(3, 3, 3))];
    for (x, y, color) in writes {
        canvas.handle_request(Request::SetPixel { x, y, color }, &mut prefs).unwrap();
    }
    let _ = canvas.handle_request(Request::SetPixel { x: 5, y: 5, color: Color(9, 9, 9) }, &mut prefs);
    let batch = canvas.trigger_flush();
    assert_eq!(batch.len(), 2);
    for u in &batch {
        assert!(writes.contains(&(u.x, u.y, u.color)));
    }
    canvas.handle_request(Request::SetPixel { x: 1, y: 1, color: Color(4, 4, 4) }, &mut prefs).unwrap();
    assert_eq!(canvas.trigger_flush(), vec![SetPixelMsg { x: 1, y: 1, color: Color(4, 4, 4) }]);
}

#[test]
fn subscribing_twice_is_idempotent() {
    let mut canvas = Canvas::new(2, 2).unwrap();
    let mut conn = TcpConnection::new();
    assert_eq!(tcp_exchange(&mut canvas, &mut conn, b"SUBSCRIBE\n"), b"SUBSCRIBED\n".to_vec());
    assert_eq!(tcp_exchange(&mut canvas, &mut conn, b"SUBSCRIBE\n"), b"".to_vec());
    assert_eq!(conn.reconcile_subscription(), None);
    assert_eq!(tcp_exchange(&mut canvas, &mut conn, b"UNSUBSCRIBE\n"), b"UNSUBSCRIBED\n".to_vec());
    assert_eq!(tcp_exchange(&mut canvas, &mut conn, b"UNSUBSCRIBE\n"), b"".to_vec());
    assert_eq!(SubscriptionChange::Activated.response(), Response::SubscriptionActivated);
}

#[test]
fn rgb64_state_after_encoding() {
    let mut canvas = Canvas::new(1, 1).unwrap();
    let mut conn = TcpConnection::new();
    assert_eq!(tcp_exchange(&mut canvas, &mut conn, b"STATE rgb64\n"), b"STATE rgb64 \n".to_vec());
    tcp_exchange(&mut canvas, &mut conn, b"PX 0 0 AABBCC\n");
    canvas.trigger_encoding();
    let reply = tcp_exchange(&mut canvas, &mut conn, b"STATE rgb64\n");
    let text = String::from_utf8(reply).unwrap();
    let payload = text.strip_prefix("STATE rgb64 ").unwrap().strip_suffix('\n').unwrap();
    assert_eq!(base64::decode(payload).unwrap(), vec![0xAA, 0xBB, 0xCC]);
    let mut prefs = ConnectionPreferences::default();
    assert_eq!(
        canvas.handle_request(Request::State(StateEncodingAlgorithm::Rgba64), &mut prefs),
        Ok(Some(Response::State(StateEncodingAlgorithm::Rgba64, "qrvM/w==".to_string())))
    );
}

#[test]
fn empty_datagram() {
    let mut canvas = Canvas::new(2, 2).unwrap();
    assert!(canvas.process_datagram(b"").is_empty());
}

#[test]
fn datagram_with_malformed_tail() {
    let mut canvas = Canvas::new(2, 2).unwrap();
    assert!(canvas.process_datagram(b"PX 1 1 0A0B0C\nPX 0 0 FF").is_empty());
    assert_eq!(canvas.process_datagram(b"PX 1 1\nPX 0 0\n"), vec![
        b"PX 1 1 0A0B0C\n".to_vec(),
        b"PX 0 0 000000\n".to_vec(),
    ]);
    assert_eq!(canvas.process_datagram(b"SIZE\nPX"), vec![b"SIZE 2 2\n".to_vec()]);
    assert_eq!(canvas.process_datagram(b"FOO\nSIZE\n"), vec![
        b"ERROR malformed request\n".to_vec(),
        b"SIZE 2 2\n".to_vec(),
    ]);
}

#[test]
fn websocket_text() {
    let mut canvas = Canvas::new(4, 3).unwrap();
    assert_eq!(canvas.process_ws_text("SIZE"), b"SIZE 4 3".to_vec());
    assert_eq!(canvas.process_ws_text("PX 1 1 123456"), b"".to_vec());
    assert_eq!(canvas.process_ws_text("PX 1 1"), b"PX 1 1 123456".to_vec());
    assert_eq!(canvas.process_ws_text("nonsense"), b"ERROR malformed request".to_vec());
}

#[test]
fn help_is_answered() {
    let mut canvas = Canvas::new(2, 2).unwrap();
    let mut prefs = ConnectionPreferences::default();
    let frame = Frame::new(b"HELP".to_vec());
    let reply = canvas.handle_frame(&frame, &mut prefs).unwrap();
    assert!(reply.payload().starts_with(b"HELP"));
}
