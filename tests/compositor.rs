use membrane_videocompositor::compositor::{visible_frame_at, DrawnFrame, State};
use membrane_videocompositor::errors::CompositorError;
use membrane_videocompositor::formats::{Framerate, PixelFormat, RawVideo};
use membrane_videocompositor::geometry::{Point, VideoPosition};
use membrane_videocompositor::scene::{Scene, VideoConfig};

fn caps() -> RawVideo {
    RawVideo::new(1280, 720, PixelFormat::I420, Framerate { num: 30, den: 1 }).unwrap()
}

fn place(x: u32, y: u32, z: u32) -> VideoPosition {
    VideoPosition {
        top_left: Point { x, y },
        size: Point { x: 640, y: 480 },
        z,
        scale_percent: 100,
    }
}

#[test]
fn upload_to_added_video_succeeds() {
    let mut state: State<u32> = State::new(&caps()).unwrap();
    assert_eq!(state.add_video(3, place(0, 0, 0)), Ok(()));
    assert_eq!(state.upload_texture(3, 7, 0), Ok(()));
    assert_eq!(state.upload_texture(3, 8, 10), Ok(()));
}

#[test]
fn upload_to_unknown_video_fails() {
    let mut state: State<u32> = State::new(&caps()).unwrap();
    assert_eq!(state.upload_texture(1, 7, 0), Err(CompositorError::BadVideoIndex(1)));
    assert_eq!(state.remove_video(1), Err(CompositorError::BadVideoIndex(1)));
}

#[test]
fn upload_and_remove_after_removal_fail() {
    let mut state: State<u32> = State::new(&caps()).unwrap();
    state.add_video(2, place(0, 0, 0)).unwrap();
    assert_eq!(state.remove_video(2), Ok(()));
    assert_eq!(state.upload_texture(2, 1, 0), Err(CompositorError::BadVideoIndex(2)));
    assert_eq!(state.remove_video(2), Err(CompositorError::BadVideoIndex(2)));
}

#[test]
fn adding_twice_reports_taken_index() {
    let mut state: State<u32> = State::new(&caps()).unwrap();
    state.add_video(5, place(10, 20, 1)).unwrap();
    state.upload_texture(5, 42, 0).unwrap();
    assert_eq!(
        state.add_video(5, place(0, 0, 0)),
        Err(CompositorError::VideoIndexAlreadyTaken(5))
    );
    let mut out: Vec<DrawnFrame<u32>> = Vec::new();
    state.draw_into(33, &mut out);
    assert_eq!(out.len(), 1);
    assert_eq!(out[0].frame, 42);
    assert_eq!(out[0].position, place(10, 20, 1));
}

#[test]
fn uploads_going_back_in_time_are_refused_by_the_guard() {
    let mut state: State<u32> = State::new(&caps()).unwrap();
    state.add_video(0, place(0, 0, 0)).unwrap();
    assert_eq!(state.last_uploaded_pts(0), Ok(None));
    state.upload_texture(0, 1, 40).unwrap();
    assert_eq!(state.last_uploaded_pts(0), Ok(Some(40)));
    assert_eq!(state.last_uploaded_pts(9), Err(CompositorError::BadVideoIndex(9)));
}

#[test]
fn ready_without_videos() {
    let state: State<u32> = State::new(&caps()).unwrap();
    assert!(state.all_frames_ready(33));
    assert!(state.all_frames_ready(0));
}

#[test]
fn ready_needs_every_video() {
    let mut state: State<u32> = State::new(&caps()).unwrap();
    state.add_video(0, place(0, 0, 0)).unwrap();
    state.add_video(1, place(0, 0, 1)).unwrap();
    state.upload_texture(0, 1, 0).unwrap();
    assert!(!state.all_frames_ready(33));
    state.upload_texture(1, 1, 5).unwrap();
    assert!(state.all_frames_ready(33));
}

#[test]
fn ready_uses_window_from_last_output() {
    let mut state: State<u32> = State::new(&caps()).unwrap();
    state.add_video(0, place(0, 0, 0)).unwrap();
    state.upload_texture(0, 1, 100).unwrap();
    let mut out = Vec::new();
    assert_eq!(state.draw_into(33, &mut out), 100);
    assert_eq!(state.last_pts(), Some(100));
    state.upload_texture(0, 2, 133).unwrap();
    // 133 is past [100, 133)
    assert!(!state.all_frames_ready(33));
    assert!(state.all_frames_ready(34));
    state.remove_video(0).unwrap();
    state.add_video(0, place(0, 0, 0)).unwrap();
    state.upload_texture(0, 3, 99).unwrap();
    // 99 is before the window
    assert!(!state.all_frames_ready(1000));
}

#[test]
fn draw_retires_stale_frames_and_skips_future_ones() {
    let mut state: State<u32> = State::new(&caps()).unwrap();
    state.add_video(0, place(0, 0, 0)).unwrap();
    state.add_video(1, place(0, 0, 1)).unwrap();
    state.upload_texture(0, 10, 0).unwrap();
    state.upload_texture(1, 20, 40).unwrap();
    let mut out = Vec::new();
    assert_eq!(state.draw_into(33, &mut out), 40);
    assert_eq!(out.len(), 2);
    assert_eq!((out[0].idx, out[1].idx), (0, 1));
    // video 0: one frame before the window [40, 73), one in it; video 1: a frame after it
    state.upload_texture(0, 11, 5).unwrap();
    state.upload_texture(0, 12, 50).unwrap();
    state.upload_texture(1, 21, 100).unwrap();
    let mut out = Vec::new();
    assert_eq!(state.draw_into(33, &mut out), 50);
    assert_eq!(out.len(), 1);
    assert_eq!(out[0].idx, 0);
    assert_eq!(out[0].frame, 12);
    assert_eq!(out[0].pts, 50);
    // the future frame stays queued
    let mut out = Vec::new();
    assert_eq!(state.draw_into(33, &mut out), 50);
    assert!(out.is_empty());
}

#[test]
fn draw_pts_never_decreases() {
    let mut state: State<u32> = State::new(&caps()).unwrap();
    let mut out = Vec::new();
    assert_eq!(state.last_pts(), None);
    assert_eq!(state.draw_into(33, &mut out), 0);
    // a tick that draws nothing still produces a frame, at the anchor it returns
    assert_eq!(state.last_pts(), Some(0));
    state.add_video(0, place(0, 0, 0)).unwrap();
    state.upload_texture(0, 1, 20).unwrap();
    let a = state.draw_into(33, &mut out);
    let b = state.draw_into(33, &mut out);
    state.upload_texture(0, 2, 30).unwrap();
    let c = state.draw_into(33, &mut out);
    assert_eq!((a, b, c), (20, 20, 30));
    assert_eq!(state.last_pts(), Some(30));
    assert!(a <= b && b <= c);
}

#[test]
fn two_overlapping_videos_end_to_end() {
    let mut state: State<u32> = State::new(&caps()).unwrap();
    state.add_video(0, place(0, 0, 0)).unwrap();
    state.add_video(1, place(100, 100, 1)).unwrap();
    state.upload_texture(0, 100, 0).unwrap();
    state.upload_texture(1, 200, 0).unwrap();
    assert!(state.all_frames_ready(33));
    let mut out = Vec::new();
    assert_eq!(state.draw_into(33, &mut out), 0);
    assert_eq!(out.len(), 2);
    let at = |x: u32, y: u32| visible_frame_at(&out, x, y).map(|k| out[k].frame);
    // the overlap shows video 0, whose z is smaller
    assert_eq!(at(150, 150), Some(100));
    assert_eq!(at(639, 479), Some(100));
    assert_eq!(at(640, 480), Some(200));
    assert_eq!(at(50, 50), Some(100));
    assert_eq!(at(739, 579), Some(200));
    assert_eq!(at(740, 100), None);
}

#[test]
fn equal_depth_keeps_first_drawn() {
    let frames = vec![
        DrawnFrame { idx: 0, position: place(0, 0, 4), pts: 0, frame: 'a' },
        DrawnFrame { idx: 1, position: place(0, 0, 4), pts: 0, frame: 'b' },
        DrawnFrame { idx: 2, position: place(0, 0, 3), pts: 0, frame: 'c' },
    ];
    assert_eq!(visible_frame_at(&frames, 1, 1), Some(2));
    let tied = vec![
        DrawnFrame { idx: 0, position: place(0, 0, 4), pts: 0, frame: 'a' },
        DrawnFrame { idx: 1, position: place(0, 0, 4), pts: 0, frame: 'b' },
    ];
    assert_eq!(visible_frame_at(&tied, 1, 1), Some(0));
    assert_eq!(visible_frame_at(&Vec::<DrawnFrame<char>>::new(), 1, 1), None);
}

#[test]
fn scaled_placement_covers_scaled_area() {
    let p = VideoPosition {
        top_left: Point { x: 10, y: 10 },
        size: Point { x: 100, y: 50 },
        z: 0,
        scale_percent: 50,
    };
    assert!(p.covers(10, 10));
    assert!(p.covers(59, 34));
    assert!(!p.covers(60, 34));
    assert!(!p.covers(59, 35));
    assert!(!p.covers(9, 10));
}

fn config(z: u32) -> VideoConfig {
    VideoConfig { placement: place(0, 0, z), texture_transformations: Vec::new() }
}

#[test]
fn scene_must_name_the_active_videos() {
    let mut state: State<u32> = State::new(&caps()).unwrap();
    let mut scene = Scene::empty();
    assert!(scene.video_configs.is_empty());
    assert_eq!(state.check_scene(&scene), Ok(()));
    state.add_video(0, place(0, 0, 0)).unwrap();
    state.add_video(4, place(0, 0, 1)).unwrap();
    assert_eq!(state.check_scene(&scene), Err(CompositorError::DifferentVideoIndexes));
    scene.video_configs.insert(0, config(0));
    scene.video_configs.insert(3, config(1));
    assert_eq!(state.check_scene(&scene), Err(CompositorError::DifferentVideoIndexes));
    scene.video_configs.remove(&3);
    scene.video_configs.insert(4, config(1));
    assert_eq!(state.check_scene(&scene), Ok(()));
    scene.video_configs.insert(5, config(2));
    assert_eq!(state.check_scene(&scene), Err(CompositorError::DifferentVideoIndexes));
}

#[test]
fn error_tags() {
    assert_eq!(CompositorError::NotImplemented.tag(), "function_not_implemented");
    assert_eq!(CompositorError::BadVideoIndex(3).tag(), "bad_video_index");
    assert_eq!(CompositorError::BadFramerate.tag(), "bad_framerate");
    assert_eq!(CompositorError::UnsupportedPixelFormat.tag(), "unsupported_pixel_format");
    assert_eq!(CompositorError::BadVideoResolution(1, 2).tag(), "bad_video_resolution");
    assert_eq!(CompositorError::VideoIndexAlreadyTaken(0).tag(), "video_index_already_taken");
    assert_eq!(CompositorError::DifferentVideoIndexes.tag(), "different_video_indexes");
}

#[test]
fn error_video_index() {
    assert_eq!(CompositorError::BadVideoIndex(3).video_index(), Some(3));
    assert_eq!(CompositorError::VideoIndexAlreadyTaken(7).video_index(), Some(7));
    assert_eq!(CompositorError::BadVideoResolution(1, 2).video_index(), None);
    assert_eq!(CompositorError::DifferentVideoIndexes.video_index(), None);
}

#[test]
fn error_resolution_payload() {
    assert_eq!(CompositorError::BadVideoResolution(641, 480).resolution(), Some((641, 480)));
    assert_eq!(CompositorError::BadVideoIndex(1).resolution(), None);
    assert_eq!(CompositorError::BadFramerate.resolution(), None);
}

#[test]
fn state_rejects_bad_output_format() {
    let bad_size = RawVideo { width: 0, height: 480, pixel_format: PixelFormat::I420, framerate: Framerate { num: 30, den: 1 } };
    assert_eq!(State::<u32>::new(&bad_size).err(), Some(CompositorError::BadVideoResolution(0, 480)));
    let odd = RawVideo { width: 641, height: 480, ..bad_size };
    assert_eq!(State::<u32>::new(&odd).err(), Some(CompositorError::BadVideoResolution(641, 480)));
    let bad_rate = RawVideo { width: 640, height: 480, pixel_format: PixelFormat::I420, framerate: Framerate { num: 30, den: 0 } };
    assert_eq!(State::<u32>::new(&bad_rate).err(), Some(CompositorError::BadFramerate));
    let good = RawVideo { framerate: Framerate { num: 30, den: 1 }, ..bad_rate };
    let state = State::<u32>::new(&good).unwrap();
    assert_eq!(state.output_caps(), good);
    assert_eq!(state.last_pts(), None);
}
