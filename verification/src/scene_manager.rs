//! Holds the active scene and hands out its renderable entries.

use crate::scene::{is_render_list, views_of, RenderEntry, Scene};
use vstd::prelude::*;

verus! {

/// Owns the scene currently being rendered. Scenes are swapped wholesale
/// when the game changes scene.
pub struct SceneManager {
    /// The scene currently being rendered.
    pub active_scene: Scene,
}

impl SceneManager {
    /// Creates a manager holding `main_scene` as the active scene.
    pub fn new(main_scene: Scene) -> (r: Self)
        ensures
            r.active_scene == main_scene,
    {
        SceneManager { active_scene: main_scene }
    }

    /// Read access to the active scene.
    pub fn active_scene(&self) -> (r: &Scene)
        ensures
            r == &self.active_scene,
    {
        &self.active_scene
    }

    /// Collects the active scene's renderable entries in painting order:
    /// registry entries sorted by ascending depth, then the main object's
    /// entries.
    pub fn init_active_scene(&self) -> (r: Vec<RenderEntry>)
        ensures
            is_render_list(self.active_scene, views_of(r@)),
            forall|j: int| 0 <= j < r@.len() ==> (#[trigger] views_of(r@)[j]).image.wf(),
    {
        self.active_scene.init()
    }

    /// Replaces the active scene wholesale.
    pub fn replace_active(&mut self, scene: Scene)
        ensures
            final(self).active_scene == scene,
    {
        self.active_scene = scene;
    }
}

} // verus!
