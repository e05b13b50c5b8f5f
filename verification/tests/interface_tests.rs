use rusty_ache::bitmap::Bitmap;
use rusty_ache::interface::{create_gameobj_vec, create_obj_with_img, init_scene};

fn decoded_test_image(width: u32, height: u32) -> Bitmap {
    let pixels = vec![(120u8, 130u8, 140u8, 255u8); (width * height) as usize];
    Bitmap::from_pixels(width, height, pixels)
}

#[test]
fn test_create_obj_with_img() {
    let obj = create_obj_with_img("./image", 100, 100, true);
    assert_eq!(obj.image_path, "./image");
    assert_eq!(obj.x, 100);
    assert_eq!(obj.y, 100);
    assert!(obj.has_shadow);
}

#[test]
fn test_create_gameobj_vec() {
    let objs = vec![create_obj_with_img("./resources/perf_diag.png", 200, 200, false)];
    let images = vec![decoded_test_image(4, 4)];
    let owi = create_gameobj_vec(&objs, images);
    assert_eq!(owi.len(), objs.len());
    assert_eq!(objs[0].x, owi[0].position.x);
    assert_eq!(objs[0].y, owi[0].position.y);
}

#[test]
fn test_init_scene() {
    let objs = vec![create_obj_with_img("./resources/perf_diag.png", 200, 200, false)];
    let images = vec![decoded_test_image(4, 4)];
    let main_obj = create_obj_with_img("./resources/perf_diag.png", 300, 300, true);
    let main_obj_x = main_obj.x;
    let main_obj_y = main_obj.y;
    let scene = init_scene(&objs, images, &main_obj, decoded_test_image(4, 4));
    assert_eq!(scene.main_object.position.x, main_obj_x);
    assert_eq!(scene.main_object.position.y, main_obj_y);
}
