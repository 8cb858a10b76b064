use raytracer::config::{Camera, Config};
use raytracer::dispatch::{channels_to_bytes, Batch, DispatchError, DispatchSchedule, DISPATCH_BUDGET};
use raytracer::packed::PackedVec3;

fn config(sample_count: u32, max_bounces: u32, width: u32, height: u32) -> Config {
    let z = PackedVec3::zero();
    Config {
        num_spheres: 0,
        sample_count,
        max_bounces,
        width,
        height,
        camera: Camera {
            origin: z,
            lower_left_corner: z,
            horizontal: z,
            vertical: z,
            up: z,
            u: z,
            v: z,
            w: z,
            lens_radius: 0,
        },
    }
}

fn drain(s: &mut DispatchSchedule) -> Vec<Batch> {
    let mut out = Vec::new();
    while let Some(b) = s.next_batch() {
        out.push(b);
    }
    out
}

#[test]
fn per_dispatch_sizes() {
    let s = DispatchSchedule::new(&config(32, 4, 1080, 720)).unwrap();
    assert_eq!(DISPATCH_BUDGET, 10_240_000);
    assert_eq!(s.samples_per_dispatch(), 2_560_000);
    assert_eq!(s.pixels_per_dispatch(), 80_000);
    assert_eq!(s.total_pixels(), 777_600);
    assert_eq!(s.channel_count(), 2_332_800);
}

#[test]
fn batches_with_short_last() {
    // 10_240_000 / 1 / 1_000_000 = 10 pixels per dispatch
    let mut s = DispatchSchedule::new(&config(1_000_000, 1, 5, 5)).unwrap();
    assert_eq!(s.pixels_per_dispatch(), 10);
    let b = drain(&mut s);
    assert_eq!(
        b,
        vec![
            Batch { index: 0, num_pixels: 10 },
            Batch { index: 10, num_pixels: 10 },
            Batch { index: 20, num_pixels: 5 },
        ]
    );
    assert_eq!(s.next_batch(), None);
}

#[test]
fn batches_with_full_last() {
    let mut s = DispatchSchedule::new(&config(1_000_000, 1, 4, 5)).unwrap();
    let b = drain(&mut s);
    assert_eq!(b, vec![Batch { index: 0, num_pixels: 10 }, Batch { index: 10, num_pixels: 10 }]);
}

#[test]
fn one_batch_for_small_image() {
    let mut s = DispatchSchedule::new(&config(1, 1, 4, 3)).unwrap();
    assert_eq!(drain(&mut s), vec![Batch { index: 0, num_pixels: 12 }]);
}

#[test]
fn empty_image_has_no_batches() {
    let mut s = DispatchSchedule::new(&config(4, 4, 0, 10)).unwrap();
    assert_eq!(s.next_batch(), None);
    assert_eq!(s.channel_count(), 0);
}

#[test]
fn schedule_errors() {
    assert_eq!(DispatchSchedule::new(&config(1, 0, 4, 3)).err(), Some(DispatchError::ZeroBounces));
    assert_eq!(DispatchSchedule::new(&config(0, 0, 4, 3)).err(), Some(DispatchError::ZeroBounces));
    assert_eq!(DispatchSchedule::new(&config(0, 4, 4, 3)).err(), Some(DispatchError::ZeroSamples));
    assert_eq!(DispatchSchedule::new(&config(10_240_001, 1, 4, 3)).err(), Some(DispatchError::TooManySamples));
    assert_eq!(DispatchSchedule::new(&config(5_000, 2_049, 4, 3)).err(), Some(DispatchError::TooManySamples));
    assert_eq!(DispatchSchedule::new(&config(1, 1, 65_536, 65_536)).err(), Some(DispatchError::ImageTooLarge));
    assert!(DispatchSchedule::new(&config(1, 1, 1_431_655_765, 1)).is_ok());
    assert_eq!(DispatchSchedule::new(&config(1, 1, 1_431_655_766, 1)).err(), Some(DispatchError::ImageTooLarge));
}

#[test]
fn output_words_to_bytes() {
    assert_eq!(channels_to_bytes(&vec![0, 17, 255], 3), Some(vec![0u8, 17, 255]));
    assert_eq!(channels_to_bytes(&vec![0, 256, 1], 3), None);
    assert_eq!(channels_to_bytes(&vec![0, 1], 3), None);
    assert_eq!(channels_to_bytes(&vec![], 0), Some(vec![]));
}
