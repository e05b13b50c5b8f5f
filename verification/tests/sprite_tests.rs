use rusty_ache::bitmap::Bitmap;
use rusty_ache::component::{Component, ComponentType, Sprite};

fn create_test_image(width: u32, height: u32) -> Bitmap {
    let pixels = vec![(0u8, 0u8, 0u8, 255u8); (width * height) as usize];
    Bitmap::from_pixels(width, height, pixels)
}

#[test]
fn test_sprite_without_image() {
    let sprite = Sprite::new(None, false, (0, 0));
    assert!(sprite.image.is_none());
}

#[test]
fn test_new_sprite_with_image() {
    let image = create_test_image(100, 100);
    let sprite = Sprite::new(Some(image), false, (0, 0));

    assert!(sprite.image.is_some());
}

#[test]
fn test_sprite_correct_dimensions() {
    let image = create_test_image(200, 150);
    let sprite = Sprite::new(Some(image), false, (0, 0));

    assert!(sprite.image.is_some());
    if let Some(ref img) = sprite.image {
        assert_eq!(img.width(), 200);
        assert_eq!(img.height(), 150);
    } else {
        panic!("No image presented");
    }
}

#[test]
fn test_get_component_type_returns_sprite() {
    let sprite = Sprite::new(None, false, (0, 0));
    assert_eq!(sprite.get_component_type(), ComponentType::Sprite);
}

#[test]
fn test_as_any_returns_correct_type() {
    let sprite = Sprite::new(None, false, (0, 0));
    let component = Component::Sprite(sprite);

    assert_eq!(component.get_component_type(), ComponentType::Sprite);
    assert!(component.as_sprite().is_some());
}

#[test]
fn sprite_test_as_any_downcasting() {
    let sprite = Sprite::new(None, false, (0, 0));
    let component = Component::Sprite(sprite);

    let downcasted = component.as_sprite();
    assert!(downcasted.is_some());

    if let Some(s) = downcasted {
        assert_eq!(s.get_component_type(), ComponentType::Sprite);
    }
}

#[test]
fn test_get_sprite_unchecked_returns_image() {
    let image = create_test_image(50, 50);
    let sprite = Sprite::new(Some(image), false, (0, 0));

    let result = sprite.get_sprite_unchecked();
    assert!(result.is_some());
}

#[test]
fn test_get_sprite_unchecked_without_image() {
    let sprite = Sprite::new(None, false, (0, 0));
    let result = sprite.get_sprite_unchecked();
    assert!(result.is_none());
}
