//! A game scene: a registry of background objects plus one distinguished
//! main object (the camera-bearing entity), and the collection of the
//! scene's renderable sprite entries in painting order.

use crate::bitmap::{Bitmap, BitmapView};
use crate::component::Component;
use crate::game_object::GameObject;
use crate::object_manager::GameObjectManager;
use crate::position::Position;
use vstd::prelude::*;
use vstd::seq_lib::group_to_multiset_ensures;

verus! {

/// Capacity of a scene's registry: the most background objects one scene
/// can hold.
pub const SCENE_CAPACITY: usize = 256;

/// The abstract value of one renderable entry.
pub struct EntryView {
    /// The owning object's position; its `z` is the depth key.
    pub position: Position,
    /// The sprite's image.
    pub image: BitmapView,
    /// The sprite's draw offset.
    pub offset: (i32, i32),
    /// Whether a drop shadow is painted under the sprite.
    pub has_shadow: bool,
}

/// One renderable entry: a sprite image together with its owning object's
/// position, its draw offset and its shadow flag.
pub struct RenderEntry {
    pub position: Position,
    pub image: Bitmap,
    pub offset: (i32, i32),
    pub has_shadow: bool,
}

impl View for RenderEntry {
    type V = EntryView;

    open spec fn view(&self) -> EntryView {
        EntryView {
            position: self.position,
            image: self.image@,
            offset: self.offset,
            has_shadow: self.has_shadow,
        }
    }
}

/// The abstract values of a sequence of renderable entries.
pub open spec fn views_of(s: Seq<RenderEntry>) -> Seq<EntryView> {
    s.map_values(|e: RenderEntry| e@)
}

/// The renderable entries one component contributes for an object standing
/// at `position`: one entry for a sprite carrying an image, none otherwise.
pub open spec fn component_entries(c: Component, position: Position) -> Seq<EntryView> {
    match c {
        Component::Sprite(s) => match s.image {
            Some(b) => seq![
                EntryView { position, image: b@, offset: s.offset, has_shadow: s.shadow },
            ],
            None => Seq::<EntryView>::empty(),
        },
        _ => Seq::<EntryView>::empty(),
    }
}

/// The renderable entries of one object: its components' entries in
/// component order.
pub open spec fn object_entries(components: Seq<Component>, position: Position) -> Seq<EntryView>
    decreases components.len(),
{
    if components.len() == 0 {
        Seq::<EntryView>::empty()
    } else {
        object_entries(components.drop_last(), position) + component_entries(
            components.last(),
            position,
        )
    }
}

/// The renderable entries of a whole registry, in storage order.
pub open spec fn table_entries(entries: Seq<(usize, GameObject)>) -> Seq<EntryView>
    decreases entries.len(),
{
    if entries.len() == 0 {
        Seq::<EntryView>::empty()
    } else {
        table_entries(entries.drop_last()) + object_entries(
            entries.last().1.components@,
            entries.last().1.position,
        )
    }
}

/// Entries stand in ascending depth order: lower `z` (farther) first.
pub open spec fn sorted_by_z(s: Seq<EntryView>) -> bool {
    forall|i: int, j: int| 0 <= i <= j < s.len() ==> (#[trigger] s[i]).position.z <= (#[trigger] s[j]).position.z
}

/// Whether `s` is a valid renderable list for `scene`: some depth-sorted
/// permutation of the registry's sprite entries, with the main object's
/// entries appended last.
pub open spec fn is_render_list(scene: Scene, s: Seq<EntryView>) -> bool {
    exists|mid: Seq<EntryView>|
        {
            &&& #[trigger] mid.to_multiset() == table_entries(
                scene.manager.game_objects@,
            ).to_multiset()
            &&& sorted_by_z(mid)
            &&& s == mid + object_entries(scene.main_object.components@, scene.main_object.position)
        }
}

/// Represents the game scene containing game objects and main entity.
pub struct Scene {
    /// Manager responsible for storing and controlling multiple game objects.
    pub manager: GameObjectManager,
    /// The main game object within this scene. It is never stored in the
    /// registry: every frame needs it unconditionally.
    pub main_object: GameObject,
}

impl Scene {
    /// Creates a new `Scene` from background game objects, the main
    /// object's components, and the main object's position. The registry
    /// assigns fresh ids to the background objects in order; incoming
    /// identities are discarded.
    pub fn new(
        objects: Vec<GameObject>,
        main_components: Vec<Component>,
        main_position: Position,
    ) -> (r: Self)
        requires
            objects@.len() <= SCENE_CAPACITY,
        ensures
            r.manager.wf(),
            r.manager.factory.max_objects == SCENE_CAPACITY,
            r.manager.factory.uids@.len() == 0,
            r.manager.factory.allocated_objects == objects@.len(),
            r.manager.game_objects@.len() == objects@.len(),
            forall|i: int|
                0 <= i < objects@.len() ==> #[trigger] r.manager.game_objects@[i] == (
                    (i + 1) as usize,
                    GameObject {
                        components: objects@[i].components,
                        script: None,
                        position: objects@[i].position,
                    },
                ),
            r.main_object.components == main_components,
            r.main_object.script is None,
            r.main_object.position == main_position,
    {
        let ghost orig = objects@;
        let mut objects = objects;
        let mut manager = GameObjectManager::new(SCENE_CAPACITY);
        while objects.len() > 0
            invariant
                orig.len() <= SCENE_CAPACITY,
                manager.wf(),
                manager.factory.max_objects == SCENE_CAPACITY,
                manager.factory.uids@.len() == 0,
                manager.factory.allocated_objects == manager.game_objects@.len(),
                manager.game_objects@.len() + objects@.len() == orig.len(),
                objects@ == orig.subrange(orig.len() - objects@.len(), orig.len() as int),
                forall|i: int|
                    0 <= i < manager.game_objects@.len() ==> #[trigger] manager.game_objects@[i]
                        == (
                        (i + 1) as usize,
                        GameObject {
                            components: orig[i].components,
                            script: None,
                            position: orig[i].position,
                        },
                    ),
            decreases objects@.len(),
        {
            let ghost done = manager.game_objects@.len() as int;
            let obj = objects.remove(0);
            assert(obj == orig[done]);
            manager.add_game_object(obj.components, obj.position);
            proof {
                assert(objects@ =~= orig.subrange(orig.len() - objects@.len(), orig.len() as int));
            }
        }
        Scene { manager, main_object: GameObject::new(main_components, None, main_position) }
    }

    /// Collects all renderable sprite entries of the scene: the registry's
    /// entries sorted by ascending `z`, with the main object's entries
    /// appended last so the main object always paints on top.
    pub fn init(&self) -> (r: Vec<RenderEntry>)
        ensures
            is_render_list(*self, views_of(r@)),
            forall|j: int| 0 <= j < r@.len() ==> (#[trigger] views_of(r@)[j]).image.wf(),
    {
        broadcast use group_to_multiset_ensures;
        broadcast use vstd::multiset::group_multiset_axioms;

        let mut collected: Vec<RenderEntry> = Vec::new();
        let n: usize = self.manager.game_objects.len();
        let mut i: usize = 0;
        while i < n
            invariant
                i <= n,
                n == self.manager.game_objects@.len(),
                views_of(collected@) == table_entries(
                    self.manager.game_objects@.subrange(0, i as int),
                ),
                forall|j: int|
                    0 <= j < collected@.len() ==> (#[trigger] views_of(collected@)[j]).image.wf(),
            decreases n - i,
        {
            let entry = self.manager.game_objects.entry_at(i);
            let obj = &entry.1;
            assert(*obj == self.manager.game_objects@[i as int].1);
            let ghost before = views_of(collected@);
            let m: usize = obj.components.len();
            let mut k: usize = 0;
            while k < m
                invariant
                    k <= m,
                    m == obj.components@.len(),
                    views_of(collected@) == before + object_entries(
                        obj.components@.subrange(0, k as int),
                        obj.position,
                    ),
                    forall|j: int|
                        0 <= j < collected@.len() ==> (#[trigger] views_of(
                            collected@,
                        )[j]).image.wf(),
                decreases m - k,
            {
                let ghost prev = views_of(collected@);
                if let Component::Sprite(s) = &obj.components[k as usize] {
                    if let Some(b) = &s.image {
                        collected.push(
                            RenderEntry {
                                position: obj.position,
                                image: b.duplicate(),
                                offset: s.offset,
                                has_shadow: s.shadow,
                            },
                        );
                        assert(views_of(collected@) =~= prev + component_entries(
                            obj.components@[k as int],
                            obj.position,
                        ));
                    }
                }
                proof {
                    let sub1 = obj.components@.subrange(0, k + 1);
                    assert(sub1.drop_last() =~= obj.components@.subrange(0, k as int));
                    assert(sub1.last() == obj.components@[k as int]);
                    assert(views_of(collected@) =~= before + object_entries(
                        obj.components@.subrange(0, k + 1),
                        obj.position,
                    ));
                }
                k = k + 1;
            }
            proof {
                assert(obj.components@.subrange(0, m as int) =~= obj.components@);
                let sub1 = self.manager.game_objects@.subrange(0, i + 1);
                assert(sub1.drop_last() =~= self.manager.game_objects@.subrange(0, i as int));
                assert(sub1.last() == self.manager.game_objects@[i as int]);
                assert(views_of(collected@) =~= table_entries(
                    self.manager.game_objects@.subrange(0, i + 1),
                ));
            }
            i = i + 1;
        }
        proof {
            assert(self.manager.game_objects@.subrange(0, n as int)
                =~= self.manager.game_objects@);
        }
        let ghost all_ms = views_of(collected@).to_multiset();

        // selection sort by ascending z
        let mut sorted: Vec<RenderEntry> = Vec::new();
        while collected.len() > 0
            invariant
                views_of(sorted@).to_multiset().add(views_of(collected@).to_multiset())
                    == all_ms,
                sorted_by_z(views_of(sorted@)),
                forall|a: int, b: int|
                    0 <= a < sorted@.len() && 0 <= b < collected@.len() ==> (#[trigger] views_of(
                        sorted@,
                    )[a]).position.z <= (#[trigger] views_of(collected@)[b]).position.z,
                forall|j: int|
                    0 <= j < collected@.len() ==> (#[trigger] views_of(collected@)[j]).image.wf(),
                forall|j: int|
                    0 <= j < sorted@.len() ==> (#[trigger] views_of(sorted@)[j]).image.wf(),
            decreases collected@.len(),
        {
            let mut min_idx: usize = 0;
            let mut c: usize = 1;
            while c < collected.len()
                invariant
                    min_idx < c <= collected@.len(),
                    collected@.len() > 0,
                    forall|b: int|
                        0 <= b < c ==> collected@[min_idx as int].position.z
                            <= (#[trigger] collected@[b]).position.z,
                decreases collected@.len() - c,
            {
                if collected[c as usize].position.z < collected[min_idx as usize].position.z {
                    min_idx = c;
                }
                c = c + 1;
            }
            let ghost pre = collected@;
            let e = collected.remove(min_idx);
            let ghost pre_sorted = sorted@;
            sorted.push(e);
            proof {
                let pv = views_of(pre);
                let gi = min_idx as int;
                assert(e@ == pv[gi]);
                assert(views_of(collected@) =~= pv.remove(gi));
                vstd::seq_lib::to_multiset_remove(pv, gi);
                assert(views_of(sorted@) =~= views_of(pre_sorted).push(e@));
                vstd::seq_lib::to_multiset_build(views_of(pre_sorted), e@);
                assert(pv.contains(pv[gi]));
                vstd::seq_lib::to_multiset_contains(pv, pv[gi]);
                assert(pv.to_multiset().count(pv[gi]) > 0);
                assert(views_of(sorted@).to_multiset().add(
                    views_of(collected@).to_multiset(),
                ) =~= all_ms);
            }
        }
        assert(views_of(sorted@).to_multiset() =~= all_ms);
        let ghost mid = views_of(sorted@);

        // the main object's entries always paint last, whatever their z
        let m: usize = self.main_object.components.len();
        let mut k: usize = 0;
        while k < m
            invariant
                k <= m,
                m == self.main_object.components@.len(),
                views_of(sorted@) == mid + object_entries(
                    self.main_object.components@.subrange(0, k as int),
                    self.main_object.position,
                ),
                forall|j: int|
                    0 <= j < sorted@.len() ==> (#[trigger] views_of(sorted@)[j]).image.wf(),
            decreases m - k,
        {
            let ghost prev = views_of(sorted@);
            if let Component::Sprite(s) = &self.main_object.components[k as usize] {
                if let Some(b) = &s.image {
                    sorted.push(
                        RenderEntry {
                            position: self.main_object.position,
                            image: b.duplicate(),
                            offset: s.offset,
                            has_shadow: s.shadow,
                        },
                    );
                    assert(views_of(sorted@) =~= prev + component_entries(
                        self.main_object.components@[k as int],
                        self.main_object.position,
                    ));
                }
            }
            proof {
                let sub1 = self.main_object.components@.subrange(0, k + 1);
                assert(sub1.drop_last() =~= self.main_object.components@.subrange(0, k as int));
                assert(sub1.last() == self.main_object.components@[k as int]);
                assert(views_of(sorted@) =~= mid + object_entries(
                    self.main_object.components@.subrange(0, k + 1),
                    self.main_object.position,
                ));
            }
            k = k + 1;
        }
        proof {
            assert(self.main_object.components@.subrange(0, m as int)
                =~= self.main_object.components@);
        }
        sorted
    }
}

} // verus!
