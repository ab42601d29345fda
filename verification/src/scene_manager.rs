//! The scene store: named templates, their loading into the live registries
//! and the game state, and the saving of live state back into a template.

use vstd::prelude::*;

use crate::game_state::{GameState, GameStateView};
use crate::generic_entity::GenericEntityView;
use crate::graphics_object::GraphicsObjectView;
use crate::master_entity_list::MasterEntityList;
use crate::master_graphics_list::MasterGraphicsList;
use crate::registry::{index_of, lemma_index_of, lemma_index_of_first_match,
    lemma_index_of_no_match, lemma_upsert, lemma_upsert_all_fresh, lookup, names_unique, upsert,
    upsert_all, Named};
use crate::scene::{Scene, SceneView};

verus! {

/// One stored scene under its name.
#[derive(Debug)]
pub struct SceneEntry {
    name: String,
    scene: Scene,
}

#[verifier::ext_equal]
pub ghost struct SceneEntryView {
    pub name: Seq<char>,
    pub scene: SceneView,
}

impl DeepView for SceneEntry {
    type V = SceneEntryView;

    closed spec fn deep_view(&self) -> SceneEntryView {
        SceneEntryView { name: self.name@, scene: self.scene.deep_view() }
    }
}

impl Named for SceneEntryView {
    open spec fn key(self) -> Seq<char> {
        self.name
    }
}

/// The store of all named scene templates.
#[derive(Debug)]
pub struct SceneManager {
    scenes: Vec<SceneEntry>,
}

impl DeepView for SceneManager {
    type V = Seq<SceneEntryView>;

    closed spec fn deep_view(&self) -> Seq<SceneEntryView> {
        self.scenes.deep_view()
    }
}

impl SceneManager {
    /// Unique scene names, every stored template inside its limits.
    pub open spec fn wf(self) -> bool {
        &&& names_unique(self.deep_view())
        &&& forall|i: int|
            0 <= i < self.deep_view().len() ==> (#[trigger] self.deep_view()[i]).scene.valid()
    }

    pub fn new() -> (r: SceneManager)
        ensures
            r.deep_view() == Seq::<SceneEntryView>::empty(),
            r.wf(),
    {
        let r = SceneManager { scenes: Vec::new() };
        proof {
            assert(r.deep_view() =~= Seq::<SceneEntryView>::empty());
        }
        r
    }

    /// Adds a scene under a name, overwriting an existing scene of that
    /// name.
    #[verifier::loop_isolation(false)]
    pub fn add_scene(&mut self, name: String, scene: Scene)
        requires
            old(self).wf(),
            scene.valid(),
        ensures
            final(self).wf(),
            final(self).deep_view() == upsert(
                old(self).deep_view(),
                SceneEntryView { name: name@, scene: scene.deep_view() },
            ),
    {
        let ghost s = self.deep_view();
        let ghost entry_view = SceneEntryView { name: name@, scene: scene.deep_view() };
        let entry = SceneEntry { name, scene };
        let mut i: usize = 0;
        while i < self.scenes.len()
            invariant
                0 <= i <= self.scenes.len(),
                s == self.deep_view(),
                entry.deep_view() == entry_view,
                forall|j: int| 0 <= j < i ==> s[j].key() != entry_view.name,
            decreases self.scenes.len() - i,
        {
            if self.scenes[i].name.eq(&entry.name) {
                proof {
                    lemma_index_of_first_match(s, entry_view.name, i as int);
                }
                self.scenes.set(i, entry);
                proof {
                    let t = s.update(i as int, entry_view);
                    assert(self.deep_view() =~= t);
                    lemma_upsert(s, entry_view, entry_view.name);
                    assert forall|p: int| 0 <= p < t.len() implies (#[trigger] t[p]).scene.valid()
                        by {
                        if p != i as int {
                            assert(t[p] == s[p]);
                        }
                    }
                }
                return ;
            }
            i += 1;
        }
        proof {
            lemma_index_of_no_match(s, entry_view.name);
        }
        self.scenes.push(entry);
        proof {
            let t = s.push(entry_view);
            assert(self.deep_view() =~= t);
            lemma_upsert(s, entry_view, entry_view.name);
            assert forall|p: int| 0 <= p < t.len() implies (#[trigger] t[p]).scene.valid() by {
                if p < s.len() {
                    assert(t[p] == s[p]);
                }
            }
        }
    }

    /// The scene stored under this name, if any.
    #[verifier::loop_isolation(false)]
    pub fn get_scene(&self, name: &String) -> (r: Option<&Scene>)
        ensures
            match r {
                Some(scene) => lookup(self.deep_view(), name@) matches Some(e) && e.scene
                    == scene.deep_view(),
                None => lookup(self.deep_view(), name@) is None,
            },
    {
        let ghost s = self.deep_view();
        let mut i: usize = 0;
        while i < self.scenes.len()
            invariant
                0 <= i <= self.scenes.len(),
                forall|j: int| 0 <= j < i ==> s[j].key() != name@,
            decreases self.scenes.len() - i,
        {
            if self.scenes[i].name.eq(name) {
                proof {
                    lemma_index_of_first_match(s, name@, i as int);
                }
                return Some(&self.scenes[i].scene);
            }
            i += 1;
        }
        proof {
            lemma_index_of_no_match(s, name@);
        }
        None
    }

    /// Removes and returns the scene of this name.
    #[verifier::loop_isolation(false)]
    pub fn remove_scene(&mut self, name: &String) -> (r: Option<Scene>)
        requires
            old(self).wf(),
        ensures
            final(self).wf(),
            final(self).deep_view() == crate::registry::remove_named(old(self).deep_view(), name@),
            match r {
                Some(scene) => lookup(old(self).deep_view(), name@) matches Some(e) && e.scene
                    == scene.deep_view(),
                None => lookup(old(self).deep_view(), name@) is None,
            },
    {
        let ghost s = self.deep_view();
        let mut i: usize = 0;
        while i < self.scenes.len()
            invariant
                0 <= i <= self.scenes.len(),
                s == self.deep_view(),
                forall|j: int| 0 <= j < i ==> s[j].key() != name@,
            decreases self.scenes.len() - i,
        {
            if self.scenes[i].name.eq(name) {
                proof {
                    lemma_index_of_first_match(s, name@, i as int);
                }
                let entry = self.scenes.remove(i);
                proof {
                    let t = s.remove(i as int);
                    assert(self.deep_view() =~= t);
                    crate::registry::lemma_remove_named(s, name@, name@);
                    assert forall|p: int| 0 <= p < t.len() implies (#[trigger] t[p]).scene.valid()
                        by {
                        let p0: int = if p < i as int {
                            p
                        } else {
                            p + 1
                        };
                        assert(t[p] == s[p0]);
                    }
                }
                return Some(entry.scene);
            }
            i += 1;
        }
        proof {
            lemma_index_of_no_match(s, name@);
        }
        None
    }

    /// The names of all stored scenes, in insertion order.
    #[verifier::loop_isolation(false)]
    pub fn list_scenes(&self) -> (r: Vec<String>)
        ensures
            r@.len() == self.deep_view().len(),
            forall|i: int| 0 <= i < r@.len() ==> r@[i]@ == self.deep_view()[i].name,
    {
        let mut names: Vec<String> = Vec::new();
        let mut i: usize = 0;
        while i < self.scenes.len()
            invariant
                0 <= i <= self.scenes.len(),
                names@.len() == i,
                forall|j: int| 0 <= j < i ==> names@[j]@ == self.deep_view()[j].name,
            decreases self.scenes.len() - i,
        {
            names.push(self.scenes[i].name.clone());
            i += 1;
        }
        names
    }

    /// Snapshots the live registries, together with the stored template's
    /// properties and triggers, back into the named template.  Returns
    /// whether a template of that name existed to save over.
    #[verifier::loop_isolation(false)]
    pub fn save_scene(
        &mut self,
        scene_name: &String,
        master_entity_list: &MasterEntityList,
        master_graphics_list: &MasterGraphicsList,
    ) -> (saved: bool)
        requires
            old(self).wf(),
            master_entity_list.wf(),
            master_graphics_list.wf(),
        ensures
            final(self).wf(),
            match lookup(old(self).deep_view(), scene_name@) {
                None => !saved && final(self).deep_view() == old(self).deep_view(),
                Some(stored) => saved && final(self).deep_view() == upsert(
                    old(self).deep_view(),
                    SceneEntryView {
                        name: scene_name@,
                        scene: SceneView {
                            entities: master_entity_list.deep_view(),
                            graphics_objects: master_graphics_list.deep_view(),
                            properties: stored.scene.properties,
                            scene_triggers: stored.scene.scene_triggers,
                        },
                    },
                ),
            },
    {
        let (properties, triggers) = match self.get_scene(scene_name) {
            Some(stored) => (stored.get_properties(), stored.get_triggers()),
            None => {
                return false;
            },
        };
        let mut new_scene = Scene::new(properties, triggers);

        let entities = master_entity_list.get_entities();
        let ghost el = master_entity_list.deep_view();
        let mut i: usize = 0;
        while i < entities.len()
            invariant
                0 <= i <= entities.len(),
                new_scene.deep_view().entities == el.subrange(0, i as int),
                new_scene.deep_view().graphics_objects == Seq::<GraphicsObjectView>::empty(),
                new_scene.deep_view().properties == properties,
                new_scene.deep_view().scene_triggers == triggers.deep_view(),
            decreases entities.len() - i,
        {
            new_scene.add_entity(entities[i].duplicate());
            proof {
                assert(el.subrange(0, i as int).push(el[i as int]) =~= el.subrange(
                    0,
                    i as int + 1,
                ));
            }
            i += 1;
        }
        proof {
            assert(el.subrange(0, el.len() as int) =~= el);
        }

        let objects = master_graphics_list.get_objects();
        let ghost gl = master_graphics_list.deep_view();
        let mut j: usize = 0;
        while j < objects.len()
            invariant
                0 <= j <= objects.len(),
                new_scene.deep_view().entities == el,
                new_scene.deep_view().graphics_objects == gl.subrange(0, j as int),
                new_scene.deep_view().properties == properties,
                new_scene.deep_view().scene_triggers == triggers.deep_view(),
            decreases objects.len() - j,
        {
            new_scene.add_graphics_object(objects[j].duplicate());
            proof {
                assert(gl.subrange(0, j as int).push(gl[j as int]) =~= gl.subrange(
                    0,
                    j as int + 1,
                ));
            }
            j += 1;
        }
        proof {
            assert(gl.subrange(0, gl.len() as int) =~= gl);
            crate::registry::lemma_index_of(old(self).deep_view(), scene_name@);
        }

        self.add_scene(scene_name.clone(), new_scene);
        proof {
            assert(final(self).deep_view() == upsert(
                old(self).deep_view(),
                SceneEntryView {
                    name: scene_name@,
                    scene: SceneView {
                        entities: el,
                        graphics_objects: gl,
                        properties: lookup(
                            old(self).deep_view(),
                            scene_name@,
                        )->Some_0.scene.properties,
                        scene_triggers: lookup(
                            old(self).deep_view(),
                            scene_name@,
                        )->Some_0.scene.scene_triggers,
                    },
                },
            ));
        }
        true
    }

    /// Loads the named scene: records its name in the game state, installs
    /// its gravity and terminal velocity, and clones its templates into the
    /// live registries, overwriting entries of the same name.  A missing
    /// scene only records the name.
    pub fn load_scene(
        &self,
        game_state: &mut GameState,
        master_entity_list: &mut MasterEntityList,
        master_graphics_list: &mut MasterGraphicsList,
        scene_name: String,
    )
        requires
            self.wf(),
            old(master_entity_list).wf(),
            old(master_graphics_list).wf(),
        ensures
            final(master_entity_list).wf(),
            final(master_graphics_list).wf(),
            match lookup(self.deep_view(), scene_name@) {
                None => {
                    &&& final(game_state).deep_view() == (GameStateView {
                        current_scene_name: scene_name@,
                        ..old(game_state).deep_view()
                    })
                    &&& final(master_entity_list).deep_view() == old(
                        master_entity_list,
                    ).deep_view()
                    &&& final(master_graphics_list).deep_view() == old(
                        master_graphics_list,
                    ).deep_view()
                },
                Some(entry) => {
                    &&& final(game_state).deep_view() == (GameStateView {
                        current_scene_name: scene_name@,
                        gravity: entry.scene.properties.spec_gravity(),
                        terminal_velocity: entry.scene.properties.spec_terminal_velocity(),
                    })
                    &&& final(master_entity_list).deep_view() == upsert_all(
                        old(master_entity_list).deep_view(),
                        entry.scene.entities,
                    )
                    &&& final(master_graphics_list).deep_view() == upsert_all(
                        old(master_graphics_list).deep_view(),
                        entry.scene.graphics_objects,
                    )
                },
            },
    {
        game_state.set_current_scene_name(scene_name.clone());
        self.load_scene_into_game_state(game_state, &scene_name);
        self.load_scene_into_lists(master_entity_list, master_graphics_list, &scene_name);
    }

    /// Installs the named scene's gravity and terminal velocity.
    fn load_scene_into_game_state(&self, game_state: &mut GameState, scene_name: &String)
        requires
            self.wf(),
        ensures
            match lookup(self.deep_view(), scene_name@) {
                None => final(game_state).deep_view() == old(game_state).deep_view(),
                Some(entry) => final(game_state).deep_view() == (GameStateView {
                    gravity: entry.scene.properties.spec_gravity(),
                    terminal_velocity: entry.scene.properties.spec_terminal_velocity(),
                    ..old(game_state).deep_view()
                }),
            },
    {
        if let Some(scene) = self.get_scene(scene_name) {
            game_state.set_gravity(scene.get_gravity());
            game_state.set_terminal_velocity(scene.get_terminal_velocity());
        }
    }

    /// Clones the named scene's templates into both live registries.
    fn load_scene_into_lists(
        &self,
        master_entity_list: &mut MasterEntityList,
        master_graphics_list: &mut MasterGraphicsList,
        scene_name: &String,
    )
        requires
            self.wf(),
            old(master_entity_list).wf(),
            old(master_graphics_list).wf(),
        ensures
            final(master_entity_list).wf(),
            final(master_graphics_list).wf(),
            match lookup(self.deep_view(), scene_name@) {
                None => final(master_entity_list).deep_view() == old(master_entity_list).deep_view()
                    && final(master_graphics_list).deep_view() == old(
                    master_graphics_list,
                ).deep_view(),
                Some(entry) => final(master_entity_list).deep_view() == upsert_all(
                    old(master_entity_list).deep_view(),
                    entry.scene.entities,
                ) && final(master_graphics_list).deep_view() == upsert_all(
                    old(master_graphics_list).deep_view(),
                    entry.scene.graphics_objects,
                ),
            },
    {
        self.load_scene_into_master_entity_list(master_entity_list, scene_name);
        self.load_scene_into_master_graphics_list(master_graphics_list, scene_name);
    }

    /// Clones the named scene's entities into the live entity registry.
    #[verifier::loop_isolation(false)]
    fn load_scene_into_master_entity_list(
        &self,
        master_entity_list: &mut MasterEntityList,
        scene_name: &String,
    )
        requires
            self.wf(),
            old(master_entity_list).wf(),
        ensures
            final(master_entity_list).wf(),
            match lookup(self.deep_view(), scene_name@) {
                None => final(master_entity_list).deep_view() == old(
                    master_entity_list,
                ).deep_view(),
                Some(entry) => final(master_entity_list).deep_view() == upsert_all(
                    old(master_entity_list).deep_view(),
                    entry.scene.entities,
                ),
            },
    {
        if let Some(scene) = self.get_scene(scene_name) {
            proof {
                lemma_index_of(self.deep_view(), scene_name@);
            }
            let ghost src = scene.deep_view().entities;
            let entities = scene.get_entities();
            proof {
                assert(src.skip(0) =~= src);
            }
            let mut i: usize = 0;
            while i < entities.len()
                invariant
                    0 <= i <= entities.len(),
                    master_entity_list.wf(),
                    upsert_all(master_entity_list.deep_view(), src.skip(i as int)) == upsert_all(
                        old(master_entity_list).deep_view(),
                        src,
                    ),
                decreases entities.len() - i,
            {
                proof {
                    assert(src.skip(i as int)[0] == src[i as int]);
                    assert(src.skip(i as int).drop_first() =~= src.skip(i as int + 1));
                }
                master_entity_list.add_entity(entities[i].duplicate());
                i += 1;
            }
            proof {
                assert(src.skip(src.len() as int).len() == 0);
            }
        }
    }

    /// Clones the named scene's graphics objects into the live graphics
    /// registry.
    #[verifier::loop_isolation(false)]
    fn load_scene_into_master_graphics_list(
        &self,
        master_graphics_list: &mut MasterGraphicsList,
        scene_name: &String,
    )
        requires
            self.wf(),
            old(master_graphics_list).wf(),
        ensures
            final(master_graphics_list).wf(),
            match lookup(self.deep_view(), scene_name@) {
                None => final(master_graphics_list).deep_view() == old(
                    master_graphics_list,
                ).deep_view(),
                Some(entry) => final(master_graphics_list).deep_view() == upsert_all(
                    old(master_graphics_list).deep_view(),
                    entry.scene.graphics_objects,
                ),
            },
    {
        if let Some(scene) = self.get_scene(scene_name) {
            proof {
                lemma_index_of(self.deep_view(), scene_name@);
            }
            let ghost src = scene.deep_view().graphics_objects;
            let objects = scene.get_graphics_objects();
            proof {
                assert(src.skip(0) =~= src);
            }
            let mut i: usize = 0;
            while i < objects.len()
                invariant
                    0 <= i <= objects.len(),
                    master_graphics_list.wf(),
                    upsert_all(master_graphics_list.deep_view(), src.skip(i as int)) == upsert_all(
                        old(master_graphics_list).deep_view(),
                        src,
                    ),
                decreases objects.len() - i,
            {
                proof {
                    assert(src.skip(i as int)[0] == src[i as int]);
                    assert(src.skip(i as int).drop_first() =~= src.skip(i as int + 1));
                }
                master_graphics_list.add_object(objects[i].duplicate());
                i += 1;
            }
            proof {
                assert(src.skip(src.len() as int).len() == 0);
            }
        }
    }
}

/// Saving a scene immediately after loading it into empty registries, with
/// no mutation in between, reproduces the stored template: the same
/// entities, graphics objects, properties and triggers under the same name.
pub proof fn lemma_scene_round_trip(scenes: Seq<SceneEntryView>, name: Seq<char>, entry: SceneEntryView)
    requires
        names_unique(scenes),
        lookup(scenes, name) == Some(entry),
        names_unique(entry.scene.entities),
        names_unique(entry.scene.graphics_objects),
    ensures
        upsert_all(Seq::<GenericEntityView>::empty(), entry.scene.entities) == entry.scene.entities,
        upsert_all(Seq::<GraphicsObjectView>::empty(), entry.scene.graphics_objects)
            == entry.scene.graphics_objects,
        lookup(
            upsert(
                scenes,
                SceneEntryView {
                    name,
                    scene: SceneView {
                        entities: upsert_all(
                            Seq::<GenericEntityView>::empty(),
                            entry.scene.entities,
                        ),
                        graphics_objects: upsert_all(
                            Seq::<GraphicsObjectView>::empty(),
                            entry.scene.graphics_objects,
                        ),
                        properties: entry.scene.properties,
                        scene_triggers: entry.scene.scene_triggers,
                    },
                },
            ),
            name,
        ) == Some(entry),
{
    lemma_index_of(scenes, name);
    assert(entry.name == name);
    let ee = Seq::<GenericEntityView>::empty();
    let eg = Seq::<GraphicsObjectView>::empty();
    assert forall|i: int| 0 <= i < entry.scene.entities.len() implies index_of(
        ee,
        (#[trigger] entry.scene.entities[i]).key(),
    ) == -1 by {
        lemma_index_of_no_match(ee, entry.scene.entities[i].key());
    }
    assert forall|i: int| 0 <= i < entry.scene.graphics_objects.len() implies index_of(
        eg,
        (#[trigger] entry.scene.graphics_objects[i]).key(),
    ) == -1 by {
        lemma_index_of_no_match(eg, entry.scene.graphics_objects[i].key());
    }
    lemma_upsert_all_fresh(ee, entry.scene.entities);
    lemma_upsert_all_fresh(eg, entry.scene.graphics_objects);
    assert(ee + entry.scene.entities =~= entry.scene.entities);
    assert(eg + entry.scene.graphics_objects =~= entry.scene.graphics_objects);
    let rebuilt = SceneEntryView {
        name,
        scene: SceneView {
            entities: upsert_all(ee, entry.scene.entities),
            graphics_objects: upsert_all(eg, entry.scene.graphics_objects),
            properties: entry.scene.properties,
            scene_triggers: entry.scene.scene_triggers,
        },
    };
    assert(rebuilt =~= entry);
    lemma_upsert(scenes, rebuilt, name);
}

} // verus!
