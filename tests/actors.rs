use pixelflut::canvas::{Canvas, ConnectionPreferences};
use pixelflut::color::Color;
use pixelflut::pixmap::{Pixmap, PixmapError};
use pixelflut::pixmap_actor::{
    GetPixelMsg, GetRawDataMsg, GetSizeMsg, PixmapActor, PutRawDataMsg, SetPixelMsg,
};
use pixelflut::protocol::Request;
use pixelflut::tracker_actor::TrackerActor;

#[test]
fn pixmap_actor_forwards_successful_writes() {
    let mut actor = PixmapActor::new(Pixmap::new(2, 2).unwrap(), true);
    let msg = SetPixelMsg { x: 1, y: 0, color: Color(1, 2, 3) };
    assert_eq!(actor.handle_set_pixel(msg), Ok(Some(msg)));
    assert_eq!(
        actor.handle_set_pixel(SetPixelMsg { x: 2, y: 0, color: Color(1, 2, 3) }),
        Err(PixmapError::OutOfBounds)
    );
    assert_eq!(actor.handle_get_pixel(GetPixelMsg { x: 1, y: 0 }), Ok(Color(1, 2, 3)));
    assert_eq!(actor.handle_get_size(GetSizeMsg {}), (2, 2));

    let mut quiet = PixmapActor::new(Pixmap::new(2, 2).unwrap(), false);
    assert_eq!(quiet.handle_set_pixel(msg), Ok(None));
}

#[test]
fn pixmap_actor_raw_data() {
    let mut actor = PixmapActor::new(Pixmap::new(1, 2).unwrap(), false);
    let data = vec![Color(1, 1, 1), Color(2, 2, 2)];
    assert_eq!(actor.handle_put_raw_data(&PutRawDataMsg { data: data.clone() }), Ok(()));
    assert_eq!(actor.handle_get_raw_data(GetRawDataMsg {}), data);
    assert_eq!(
        actor.handle_put_raw_data(&PutRawDataMsg { data: vec![] }),
        Err(PixmapError::SizeMismatch)
    );
}

#[test]
fn tracker_actor_batches() {
    let mut tracker = TrackerActor::new(2, 2);
    assert_eq!(tracker.handle_set_pixel(SetPixelMsg { x: 1, y: 1, color: Color(5, 5, 5) }), Ok(()));
    assert_eq!(
        tracker.handle_set_pixel(SetPixelMsg { x: 2, y: 1, color: Color(5, 5, 5) }),
        Err(PixmapError::OutOfBounds)
    );
    assert_eq!(
        tracker.handle_trigger_updates(),
        vec![SetPixelMsg { x: 1, y: 1, color: Color(5, 5, 5) }]
    );
    assert!(tracker.handle_trigger_updates().is_empty());
    tracker.handle_set_pixel(SetPixelMsg { x: 0, y: 1, color: Color(6, 6, 6) }).unwrap();
    tracker.restarting();
    assert!(tracker.handle_trigger_updates().is_empty());
}

#[test]
fn canvas_raw_data_is_not_tracked() {
    let mut canvas = Canvas::new(2, 1).unwrap();
    let data = vec![Color(7, 7, 7), Color(8, 8, 8)];
    assert_eq!(canvas.put_raw_data(&PutRawDataMsg { data: data.clone() }), Ok(()));
    assert_eq!(canvas.get_raw_data(), data);
    assert!(canvas.trigger_flush().is_empty());
    let mut prefs = ConnectionPreferences::default();
    assert_eq!(canvas.handle_request(Request::Subscribe, &mut prefs), Ok(None));
    assert!(prefs.subscribed);
    assert_eq!(canvas.handle_request(Request::Unsubscribe, &mut prefs), Ok(None));
    assert!(!prefs.subscribed);
}
