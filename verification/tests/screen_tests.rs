use rusty_ache::bitmap::Pixel;
use rusty_ache::screen::{derive_displacement, gradient_color, Keys, HEIGHT, WIDTH};
use std::sync::atomic::{AtomicBool, Ordering};

#[test]
fn test_keys_new_all_false() {
    let keys = Keys {
        w: AtomicBool::new(false),
        a: AtomicBool::new(false),
        s: AtomicBool::new(false),
        d: AtomicBool::new(false),
    };

    assert_eq!(keys.w.load(Ordering::Relaxed), false);
    assert_eq!(keys.a.load(Ordering::Relaxed), false);
    assert_eq!(keys.s.load(Ordering::Relaxed), false);
    assert_eq!(keys.d.load(Ordering::Relaxed), false);
}

#[test]
fn test_keys_store_and_load() {
    let keys = Keys {
        w: AtomicBool::new(false),
        a: AtomicBool::new(false),
        s: AtomicBool::new(false),
        d: AtomicBool::new(false),
    };

    keys.w.store(true, Ordering::Relaxed);
    keys.a.store(true, Ordering::SeqCst);

    assert_eq!(keys.w.load(Ordering::Relaxed), true);
    assert_eq!(keys.a.load(Ordering::SeqCst), true);
    assert_eq!(keys.s.load(Ordering::Relaxed), false);
    assert_eq!(keys.d.load(Ordering::Relaxed), false);
}

#[test]
fn test_keys_toggle_operations() {
    let keys = Keys {
        w: AtomicBool::new(false),
        a: AtomicBool::new(false),
        s: AtomicBool::new(false),
        d: AtomicBool::new(false),
    };

    keys.w.store(true, Ordering::Relaxed);
    assert_eq!(keys.w.load(Ordering::Relaxed), true);
    keys.w.store(false, Ordering::Relaxed);
    assert_eq!(keys.w.load(Ordering::Relaxed), false);
}

#[test]
fn test_keys_all_true() {
    let keys = Keys {
        w: AtomicBool::new(true),
        a: AtomicBool::new(true),
        s: AtomicBool::new(true),
        d: AtomicBool::new(true),
    };

    assert_eq!(keys.w.load(Ordering::Relaxed), true);
    assert_eq!(keys.a.load(Ordering::Relaxed), true);
    assert_eq!(keys.s.load(Ordering::Relaxed), true);
    assert_eq!(keys.d.load(Ordering::Relaxed), true);
}

#[test]
fn test_keys_compare_and_swap() {
    let keys = Keys {
        w: AtomicBool::new(false),
        a: AtomicBool::new(false),
        s: AtomicBool::new(false),
        d: AtomicBool::new(false),
    };

    let old = keys.w.swap(true, Ordering::Relaxed);
    assert_eq!(old, false);
    assert_eq!(keys.w.load(Ordering::Relaxed), true);
}

#[test]
fn test_width_constant() {
    assert_eq!(WIDTH, 300);
    assert!(WIDTH > 0);
}

#[test]
fn test_height_constant() {
    assert_eq!(HEIGHT, 300);
    assert!(HEIGHT > 0);
}

#[test]
fn test_empty_pixel_data() {
    let pixel_data: Vec<Pixel> = vec![];
    assert_eq!(pixel_data.len(), 0);
}

#[test]
fn test_single_pixel_data() {
    let pixel_data: Vec<Pixel> = vec![(1, 2, 3, 4)];
    assert_eq!(pixel_data.len(), 1);
    assert_eq!(pixel_data, vec![(1, 2, 3, 4)]);
}

#[test]
fn test_derive_displacement_directions() {
    assert_eq!(derive_displacement(false, false, false, false), (0, 0));
    assert_eq!(derive_displacement(true, false, false, false), (0, 1));
    assert_eq!(derive_displacement(false, true, false, false), (-1, 0));
    assert_eq!(derive_displacement(false, false, true, false), (0, -1));
    assert_eq!(derive_displacement(false, false, false, true), (1, 0));
    assert_eq!(derive_displacement(true, false, false, true), (1, 1));
}

#[test]
fn test_derive_displacement_opposites_cancel() {
    assert_eq!(derive_displacement(true, false, true, false), (0, 0));
    assert_eq!(derive_displacement(false, true, false, true), (0, 0));
    assert_eq!(derive_displacement(true, true, true, true), (0, 0));
}

#[test]
fn test_read_displacement_matches_flags() {
    let keys = Keys {
        w: AtomicBool::new(true),
        a: AtomicBool::new(false),
        s: AtomicBool::new(false),
        d: AtomicBool::new(true),
    };

    assert_eq!(keys.read_displacement(), (1, 1));
}

#[test]
fn test_gradient_color_exact_values() {
    assert_eq!(gradient_color(0), (1, 0, 0, 255));
    assert_eq!(gradient_color(1), (2, 0, 1, 255));
    assert_eq!(gradient_color(255), (0, 1, 0, 255));
}
