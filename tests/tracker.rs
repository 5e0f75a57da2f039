use pixelflut::color::Color;
use pixelflut::tracker::{TrackedChange, Tracker};

#[test]
fn test_add_and_get_changes() {
    let mut tracker = Tracker::new(10, 10);

    // an added change is among the changes
    tracker.add(5, 5, Color(42, 42, 42));
    let changes = tracker.get_changes();
    assert_eq!(
        changes,
        vec![TrackedChange {
            pixmap_index: 55,
            coordinates: (5, 5),
            color: Color(42, 42, 42)
        }]
    );
    assert_eq!(changes[0].coordinates, (5, 5));
    assert_eq!(changes[0].color, Color(42, 42, 42));

    // the changes have been reset
    assert_eq!(tracker.get_changes(), vec![]);

    // only the most recent change is kept
    tracker.add(5, 5, Color(42, 42, 42));
    tracker.add(5, 5, Color(120, 120, 120));
    let changes = tracker.get_changes();
    assert_eq!(
        changes,
        vec![TrackedChange {
            pixmap_index: 55,
            coordinates: (5, 5),
            color: Color(120, 120, 120)
        }]
    );
    assert_eq!(changes[0].color, Color(120, 120, 120));

    // no two pixels collide
    for x in 0..10 {
        for y in 0..10 {
            tracker.add(x, y, Color(x as u8, y as u8, 0));
        }
    }
    assert_eq!(tracker.get_changes().len(), 100);
}

#[test]
fn many_writes_to_one_pixel_leave_the_last() {
    let mut tracker = Tracker::new(3, 2);
    for i in 0..50u8 {
        tracker.add(2, 1, Color(i, i, i));
    }
    tracker.add(0, 0, Color(9, 9, 9));
    let changes = tracker.get_changes();
    let at: Vec<&TrackedChange> = changes.iter().filter(|c| c.coordinates == (2, 1)).collect();
    assert_eq!(at.len(), 1);
    assert_eq!(at[0].color, Color(49, 49, 49));
    assert_eq!(at[0].pixmap_index, 5);
    assert_eq!(changes.len(), 2);
}

#[test]
fn clear_forgets_changes() {
    let mut tracker = Tracker::new(2, 2);
    tracker.add(1, 1, Color(1, 2, 3));
    tracker.clear();
    assert!(tracker.get_changes().is_empty());
    tracker.add(1, 1, Color(1, 2, 3));
    assert_eq!(tracker.get_changes().len(), 1);
}
