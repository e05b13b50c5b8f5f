//! Helpers for assembling scenes from simplified object descriptions.
//!
//! An `ObjectWithImage` names a sprite image by file path together with a
//! world position and a shadow flag. Decoding the named files into bitmaps
//! is the asset-loading collaborator's business; the helpers here take the
//! already-decoded bitmaps side by side with the descriptions.

use crate::bitmap::Bitmap;
use crate::component::{Component, Sprite};
use crate::game_object::GameObject;
use crate::position::Position;
use crate::scene::{Scene, SCENE_CAPACITY};
use vstd::prelude::*;

verus! {

broadcast use vstd::string::to_string_from_display_ensures_for_str;

/// A simplified description of a game object: the filepath of its sprite
/// image, its world position, and whether it casts a shadow.
#[derive(Clone)]
pub struct ObjectWithImage {
    /// The filepath to the sprite's image.
    pub image_path: String,
    /// The x-coordinate position in the game world.
    pub x: i32,
    /// The y-coordinate position in the game world.
    pub y: i32,
    /// Whether the sprite should cast a shadow.
    pub has_shadow: bool,
}

/// Creates an `ObjectWithImage` instance from image path and position data.
pub fn create_obj_with_img(image_path: &str, x: i32, y: i32, has_shadow: bool) -> (r:
    ObjectWithImage)
    ensures
        r.image_path@ == image_path@,
        r.x == x,
        r.y == y,
        r.has_shadow == has_shadow,
{
    ObjectWithImage { image_path: image_path.to_string(), x, y, has_shadow }
}

/// Converts object descriptions and their decoded images into fully
/// constructed game objects, assigning z-coordinates incrementally from 1
/// so that earlier objects are farther and later ones closer.
pub fn create_gameobj_vec(objs: &Vec<ObjectWithImage>, images: Vec<Bitmap>) -> (r: Vec<GameObject>)
    requires
        objs@.len() == images@.len(),
        objs@.len() < i32::MAX,
    ensures
        r@.len() == objs@.len(),
        forall|i: int|
            0 <= i < r@.len() ==> {
                &&& (#[trigger] r@[i]).components@ == seq![
                    Component::Sprite(
                        Sprite {
                            image: Some(images@[i]),
                            shadow: objs@[i].has_shadow,
                            offset: (0i32, 0i32),
                        },
                    ),
                ]
                &&& r@[i].script is None
                &&& r@[i].position == (Position {
                    x: objs@[i].x,
                    y: objs@[i].y,
                    z: (i + 1) as i32,
                    is_relative: false,
                })
            },
{
    let ghost orig_images = images@;
    let mut images = images;
    let mut res: Vec<GameObject> = Vec::new();
    let mut z_coord: i32 = 1;
    while images.len() > 0
        invariant
            objs@.len() == orig_images.len() < i32::MAX,
            res@.len() + images@.len() == orig_images.len(),
            z_coord == res@.len() + 1,
            images@ == orig_images.subrange(res@.len() as int, orig_images.len() as int),
            forall|i: int|
                0 <= i < res@.len() ==> {
                    &&& (#[trigger] res@[i]).components@ == seq![
                        Component::Sprite(
                            Sprite {
                                image: Some(orig_images[i]),
                                shadow: objs@[i].has_shadow,
                                offset: (0i32, 0i32),
                            },
                        ),
                    ]
                    &&& res@[i].script is None
                    &&& res@[i].position == (Position {
                        x: objs@[i].x,
                        y: objs@[i].y,
                        z: (i + 1) as i32,
                        is_relative: false,
                    })
                },
        decreases images@.len(),
    {
        let ghost done = res@.len() as int;
        let image = images.remove(0);
        assert(image == orig_images[done]);
        let idx: usize = res.len();
        let obj = &objs[idx];
        let components = vec![
            Component::Sprite(Sprite::new(Some(image), obj.has_shadow, (0, 0))),
        ];
        assert(components@ =~= seq![
            Component::Sprite(
                Sprite {
                    image: Some(orig_images[done]),
                    shadow: objs@[done].has_shadow,
                    offset: (0i32, 0i32),
                },
            ),
        ]);
        res.push(
            GameObject::new(
                components,
                None,
                Position { x: obj.x, y: obj.y, z: z_coord, is_relative: false },
            ),
        );
        z_coord = z_coord + 1;
        proof {
            assert(images@ =~= orig_images.subrange(res@.len() as int, orig_images.len() as int));
        }
    }
    res
}

/// Initializes a `Scene` from background object descriptions with their
/// decoded images and a single main object with its decoded image. The
/// main object's sprite always casts a shadow and carries the fixed draw
/// offset of the player's visual origin; the main object sits at depth 0.
pub fn init_scene(
    objs: &Vec<ObjectWithImage>,
    images: Vec<Bitmap>,
    main_obj: &ObjectWithImage,
    main_image: Bitmap,
) -> (r: Scene)
    requires
        objs@.len() == images@.len(),
        objs@.len() <= SCENE_CAPACITY,
    ensures
        r.manager.wf(),
        r.manager.game_objects@.len() == objs@.len(),
        forall|i: int|
            0 <= i < objs@.len() ==> {
                &&& (#[trigger] r.manager.game_objects@[i]).0 == i + 1
                &&& r.manager.game_objects@[i].1.components@ == seq![
                    Component::Sprite(
                        Sprite {
                            image: Some(images@[i]),
                            shadow: objs@[i].has_shadow,
                            offset: (0i32, 0i32),
                        },
                    ),
                ]
                &&& r.manager.game_objects@[i].1.position == (Position {
                    x: objs@[i].x,
                    y: objs@[i].y,
                    z: (i + 1) as i32,
                    is_relative: false,
                })
            },
        r.main_object.components@ == seq![
            Component::Sprite(
                Sprite { image: Some(main_image), shadow: true, offset: (60i32, -60i32) },
            ),
        ],
        r.main_object.position == (Position {
            x: main_obj.x,
            y: main_obj.y,
            z: 0,
            is_relative: false,
        }),
{
    let game_objs = create_gameobj_vec(objs, images);
    let main_components = vec![
        Component::Sprite(Sprite::new(Some(main_image), true, (60, -60))),
    ];
    Scene::new(
        game_objs,
        main_components,
        Position { x: main_obj.x, y: main_obj.y, z: 0, is_relative: false },
    )
}

} // verus!
