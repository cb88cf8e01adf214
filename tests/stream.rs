use membrane_videocompositor::geometry::{Point, VideoPosition};
use membrane_videocompositor::stream::InputVideo;

fn video() -> InputVideo<&'static str> {
    InputVideo::new(VideoPosition {
        top_left: Point { x: 0, y: 0 },
        size: Point { x: 4, y: 4 },
        z: 0,
        scale_percent: 100,
    })
}

#[test]
fn empty_video_is_starved() {
    let mut v = video();
    assert_eq!(v.front_pts(), None);
    assert_eq!(v.last_uploaded_pts(), None);
    assert_eq!(v.draw(None, 10), None);
    assert_eq!(v.draw(Some(5), 10), None);
}

#[test]
fn front_follows_upload_order() {
    let mut v = video();
    v.upload(3, "a");
    v.upload(3, "b");
    v.upload(9, "c");
    assert_eq!(v.front_pts(), Some(3));
    assert_eq!(v.last_uploaded_pts(), Some(9));
    assert_eq!(v.draw(None, 1), Some((3, "a")));
    assert_eq!(v.front_pts(), Some(3));
    assert_eq!(v.draw(None, 1), Some((3, "b")));
    assert_eq!(v.front_pts(), Some(9));
}

#[test]
fn draw_retires_frames_before_window() {
    let mut v = video();
    v.upload(1, "a");
    v.upload(2, "b");
    v.upload(12, "c");
    v.upload(30, "d");
    assert_eq!(v.draw(Some(10), 10), Some((12, "c")));
    assert_eq!(v.front_pts(), Some(30));
    // the front is past the window: nothing drawn, nothing retired
    assert_eq!(v.draw(Some(10), 10), None);
    assert_eq!(v.front_pts(), Some(30));
    // every frame is before the window
    assert_eq!(v.draw(Some(40), 10), None);
    assert_eq!(v.front_pts(), None);
    assert_eq!(v.last_uploaded_pts(), Some(30));
}

#[test]
fn window_end_is_exclusive() {
    let mut v = video();
    v.upload(20, "a");
    assert_eq!(v.draw(Some(10), 10), None);
    assert_eq!(v.draw(Some(10), 11), Some((20, "a")));
    assert_eq!(v.position().size, Point { x: 4, y: 4 });
}
