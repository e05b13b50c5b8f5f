use rusty_ache::bitmap::Bitmap;
use rusty_ache::renderer::{Rectangle, Renderer};

fn create_sprite_with_color(width: u32, height: u32, color: [u8; 4]) -> Bitmap {
    let pixels = vec![(color[0], color[1], color[2], color[3]); (width * height) as usize];
    Bitmap::from_pixels(width, height, pixels)
}

#[test]
fn test_find_intersection_symmetric_rectangles() {
    let fst = Rectangle { top_left: (0, 200), bot_right: (200, 0) };
    let snd = Rectangle { top_left: (0, 200), bot_right: (200, 0) };
    let result = Renderer::_find_intersection(&fst, &snd);
    match result {
        None => assert!(false),
        Some(res) => {
            assert_eq!(res.top_left, (0, 200));
            assert_eq!(res.bot_right, (200, 0));
        }
    }
}

#[test]
fn test_find_intersection_simple_case() {
    let fst = Rectangle { top_left: (0, 200), bot_right: (200, 0) };
    let snd = Rectangle { top_left: (0, 200), bot_right: (150, 150) };
    let result = Renderer::_find_intersection(&fst, &snd);
    match result {
        None => assert!(false),
        Some(res) => {
            assert_eq!(res.top_left, (0, 200));
            assert_eq!(res.bot_right, (150, 150));
        }
    }
}

#[test]
fn test_find_intersection_zero_intersection() {
    let fst = Rectangle { top_left: (0, 200), bot_right: (200, 0) };
    let snd = Rectangle { top_left: (-200, 200), bot_right: (0, 0) };
    let result = Renderer::_find_intersection(&fst, &snd);
    match result {
        None => assert!(true),
        Some(_) => assert!(false),
    }
}

#[test]
fn test_fully_opaque_no_shadow() {
    let mut frame = vec![(0u8, 0u8, 0u8, 0u8); 10 * 10];
    let sprite = create_sprite_with_color(3, 3, [255, 0, 0, 255]); // red opaque
    let visible_area = Rectangle { top_left: (0, 5), bot_right: (5, 0) };
    Renderer::blit_sprite(&mut frame, &sprite, &visible_area, (1, 3), (0, 5), (10, 10), false);
    let idx = (2 * 10 + 1) as usize;
    assert_eq!(frame[idx].0, 255);
    assert_eq!(frame[idx].3, 255);
}

#[test]
fn test_transparent_pixels_skipped() {
    let mut frame = vec![(100, 100, 100, 100); 10 * 10];
    let sprite_pixels = vec![
        (0u8, 0u8, 0u8, 0u8),       // (0, 0) transparent
        (50u8, 50u8, 50u8, 255u8),  // (1, 0) opaque
        (10u8, 10u8, 10u8, 0u8),    // (0, 1) transparent
        (20u8, 20u8, 20u8, 255u8),  // (1, 1) opaque
    ];
    let sprite = Bitmap::from_pixels(2, 2, sprite_pixels);
    let visible_area = Rectangle { top_left: (1, 2), bot_right: (3, 0) };
    Renderer::blit_sprite(&mut frame, &sprite, &visible_area, (1, 1), (0, 2), (10, 10), false);

    assert_eq!(frame[1 * 10 + 0], (100, 100, 100, 100));
}

#[test]
fn test_shadow_pixels_with_partial_alpha_subtract() {
    let mut frame = vec![(100, 100, 100, 255); 10 * 10];
    let sprite = Bitmap::from_pixels(1, 1, vec![(0u8, 0u8, 0u8, 10u8)]);
    let visible_area = Rectangle { top_left: (0, 1), bot_right: (1, 0) };
    Renderer::blit_sprite(&mut frame, &sprite, &visible_area, (0, 0), (0, 1), (10, 10), false);

    let idx = (1 * 10 + 0) as usize;
    assert_eq!(frame[idx].0, 90);
    assert_eq!(frame[idx].1, 90);
    assert_eq!(frame[idx].2, 90);
}

#[test]
fn test_pixels_outside_visible_area_not_drawn() {
    let mut frame = vec![(50, 50, 50, 255); 10 * 10];
    let sprite = create_sprite_with_color(2, 2, [255, 255, 255, 255]);
    let visible_area = Rectangle { top_left: (0, 2), bot_right: (2, 1) };
    Renderer::blit_sprite(&mut frame, &sprite, &visible_area, (3, 3), (0, 2), (10, 10), false);

    for color in frame.iter() {
        assert_eq!(*color, (50, 50, 50, 255));
    }
}
