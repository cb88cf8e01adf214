use membrane_videocompositor::compositor::State;
use membrane_videocompositor::errors::CompositorError;
use membrane_videocompositor::formats::{download, padded_bytes_per_row, Framerate, PixelFormat, RawVideo};

const FPS: Framerate = Framerate { num: 30, den: 1 };

#[test]
fn resolution_is_checked() {
    assert_eq!(
        RawVideo::new(0, 480, PixelFormat::I420, FPS),
        Err(CompositorError::BadVideoResolution(0, 480))
    );
    assert_eq!(
        RawVideo::new(641, 480, PixelFormat::I420, FPS),
        Err(CompositorError::BadVideoResolution(641, 480))
    );
    assert_eq!(
        RawVideo::new(640, 481, PixelFormat::I420, FPS),
        Err(CompositorError::BadVideoResolution(640, 481))
    );
    assert!(RawVideo::new(640, 481, PixelFormat::I422, FPS).is_ok());
    assert!(RawVideo::new(641, 481, PixelFormat::I444, FPS).is_ok());
    assert!(RawVideo::new(8192, 8192, PixelFormat::I420, FPS).is_ok());
    assert_eq!(
        RawVideo::new(8194, 8, PixelFormat::I444, FPS),
        Err(CompositorError::BadVideoResolution(8194, 8))
    );
}

#[test]
fn framerate_is_checked() {
    assert_eq!(
        RawVideo::new(640, 480, PixelFormat::I420, Framerate { num: 0, den: 1 }),
        Err(CompositorError::BadFramerate)
    );
    assert_eq!(
        RawVideo::new(640, 480, PixelFormat::I420, Framerate { num: 30, den: 0 }),
        Err(CompositorError::BadFramerate)
    );
    // the resolution is checked first
    assert_eq!(
        RawVideo::new(0, 0, PixelFormat::I420, Framerate { num: 0, den: 0 }),
        Err(CompositorError::BadVideoResolution(0, 0))
    );
}

#[test]
fn frame_sizes() {
    let f = |p| RawVideo::new(640, 480, p, FPS).unwrap().frame_size();
    assert_eq!(f(PixelFormat::I420), 460_800);
    assert_eq!(f(PixelFormat::I422), 614_400);
    assert_eq!(f(PixelFormat::I444), 921_600);
    let v = RawVideo::new(640, 480, PixelFormat::I420, FPS).unwrap();
    assert_eq!(v.plane_sizes(), (640, 480, 320, 240));
}

#[test]
fn row_pitch() {
    assert_eq!(padded_bytes_per_row(0), 0);
    assert_eq!(padded_bytes_per_row(1), 256);
    assert_eq!(padded_bytes_per_row(256), 256);
    assert_eq!(padded_bytes_per_row(257), 512);
    assert_eq!(padded_bytes_per_row(640), 768);
}

#[test]
fn download_strips_row_padding() {
    let caps = RawVideo::new(4, 2, PixelFormat::I420, FPS).unwrap();
    // padding bytes are 0xee; plane bytes count up
    let mut y = vec![0xee_u8; 512];
    for r in 0..2 {
        for c in 0..4 {
            y[r * 256 + c] = (r * 4 + c) as u8;
        }
    }
    let mut u = vec![0xee_u8; 256];
    u[0] = 100;
    u[1] = 101;
    let mut v = vec![0xee_u8; 256];
    v[0] = 200;
    v[1] = 201;
    let out = download(&caps, &y, &u, &v);
    assert_eq!(out.len(), caps.frame_size());
    assert_eq!(out, vec![0, 1, 2, 3, 4, 5, 6, 7, 100, 101, 200, 201]);
    assert!(!out.contains(&0xee));
}

#[test]
fn download_length_matches_format() {
    for (w, h, p) in [(640, 480, PixelFormat::I420), (300, 2, PixelFormat::I422), (3, 5, PixelFormat::I444)] {
        let caps = RawVideo::new(w, h, p, FPS).unwrap();
        let (lw, lh, cw, ch) = caps.plane_sizes();
        let y = vec![1u8; lh * padded_bytes_per_row(lw)];
        let u = vec![2u8; ch * padded_bytes_per_row(cw)];
        let v = vec![3u8; ch * padded_bytes_per_row(cw)];
        let out = download(&caps, &y, &u, &v);
        assert_eq!(out.len(), caps.frame_size());
        assert_eq!(out.iter().filter(|b| **b == 1).count(), lw * lh);
        assert_eq!(out.iter().filter(|b| **b == 3).count(), cw * ch);
    }
}

#[test]
fn state_download_uses_output_format() {
    let caps = RawVideo::new(100, 50, PixelFormat::I420, FPS).unwrap();
    let state = State::<u32>::new(&caps).unwrap();
    let y: Vec<u8> = (0..50 * 256).map(|i| if i % 256 < 100 { (i / 256) as u8 } else { 0xee }).collect();
    let u: Vec<u8> = (0..25 * 256).map(|i| if i % 256 < 50 { 100 + (i / 256) as u8 } else { 0xee }).collect();
    let v: Vec<u8> = (0..25 * 256).map(|i| if i % 256 < 50 { 200 } else { 0xee }).collect();
    let out = state.download(&y, &u, &v);
    assert_eq!(out.len(), 100 * 50 * 3 / 2);
    assert!(!out.contains(&0xee));
    assert_eq!(&out[100 * 7..100 * 8], &[7u8; 100][..]);
    assert_eq!(&out[5000 + 50 * 3..5000 + 50 * 4], &[103u8; 50][..]);
    assert_eq!(&out[5000 + 1250..], &[200u8; 1250][..]);
}
