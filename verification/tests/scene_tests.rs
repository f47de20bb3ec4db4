use disco::audio::{next_noise_seed, noise_level, AudioVisualizer, NOISE_SEED};
use disco::scene::{density_base, star_base, trim_population, SceneSize, DENSITY_HEAVY, DENSITY_LIGHT, DENSITY_NORMAL};
use std::sync::atomic::{AtomicBool, AtomicU32, Ordering};
use std::sync::Arc;

#[test]
fn test_density_base() {
    assert_eq!(density_base(DENSITY_LIGHT), 20);
    assert_eq!(density_base(DENSITY_NORMAL), 60);
    assert_eq!(density_base(DENSITY_HEAVY), 150);
    assert_eq!(density_base(7), 60);
}

#[test]
fn test_star_base_clamped() {
    assert_eq!(star_base(80, 24), 90);
    assert_eq!(star_base(10, 10), 20);
    assert_eq!(star_base(40, 30), 60);
    assert_eq!(star_base(0, 0), 20);
}

#[test]
fn test_scene_size_resize_detection() {
    let mut s = SceneSize::new();
    assert_eq!(s.cols, 0);
    assert_eq!(s.rows, 0);
    assert!(s.observe(80, 24));
    assert_eq!((s.cols, s.rows), (80, 24));
    assert!(!s.observe(80, 24));
    assert!(s.observe(80, 25));
    assert!(!s.observe(80, 25));
}

#[test]
fn test_trim_population() {
    let mut v = vec![1, 2, 3, 4, 5];
    assert_eq!(trim_population(&mut v, 3), 0);
    assert_eq!(v, vec![1, 2, 3]);
    assert_eq!(trim_population(&mut v, 7), 4);
    assert_eq!(v, vec![1, 2, 3]);
    assert_eq!(trim_population(&mut v, 3), 0);
    assert_eq!(v, vec![1, 2, 3]);
}

#[test]
fn test_noise_sequence() {
    let s1 = next_noise_seed(NOISE_SEED);
    assert_eq!(s1, 12345u32.wrapping_mul(1103515245).wrapping_add(12345));
    assert_eq!(noise_level(s1), (s1 / 65536) % 32768);
    assert_eq!(noise_level(u32::MAX), 32767);
    assert_eq!(noise_level(65535), 0);
}

#[test]
fn test_audio_visualizer_reads_and_stops() {
    let volume = Arc::new(AtomicU32::new(0));
    let stop = Arc::new(AtomicBool::new(false));
    let v = AudioVisualizer::new(volume.clone(), stop.clone());
    assert_eq!(v.volume_permille(), 0);
    volume.store(420, Ordering::SeqCst);
    assert_eq!(v.volume_permille(), 420);
    drop(v);
    assert!(stop.load(Ordering::SeqCst));
}

#[test]
fn test_trim_then_refill_reaches_target() {
    for (start, target) in [(5usize, 3usize), (2, 6), (4, 4), (0, 0), (0, 3)] {
        let mut v: Vec<usize> = (0..start).collect();
        let missing = trim_population(&mut v, target);
        for k in 0..missing {
            v.push(100 + k);
        }
        assert_eq!(v.len(), target);
        for i in 0..target.min(start) {
            assert_eq!(v[i], i);
        }
    }
}
