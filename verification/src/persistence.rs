//! Persistence: configuration lists fall back to built-in defaults, and a
//! saved snapshot is turned back into a world.
//!
//! Reading and writing `world/` files belongs to the program; the rules for
//! what a configuration list or a save read from disk amounts to are here.

use vstd::prelude::*;
use crate::engine::area::{default_area_views, default_areas, area_view, Area};
use crate::engine::entity::{state_wf, Entity, EntityId, Value};
use crate::engine::farming::{
    animal_type_view, crop_type_view, default_animal_views, default_crop_views, AnimalType, CropType, Farm,
};
use crate::engine::world::{entities_wf, World};
use crate::player::Player;
use crate::text::str_eq;

verus! {

/// The configuration list in force: the list read from its file when that
/// succeeded and is non-empty, otherwise the built-in `fallback`.
pub fn load_yaml_or<T>(parsed: Option<Vec<T>>, fallback: Vec<T>) -> (r: Vec<T>)
    ensures
        r@ == match parsed {
            Some(items) => if items@.len() > 0 {
                items@
            } else {
                fallback@
            },
            None => fallback@,
        },
{
    match parsed {
        Some(items) => {
            if items.len() > 0 {
                items
            } else {
                fallback
            }
        },
        None => fallback,
    }
}


/// The directory that holds the save and the configuration files.
pub const SAVE_DIR: &'static str = "world";

/// A complete snapshot of the game world, as saved to disk.
pub struct SaveData {
    pub player: Player,
    pub player_area: String,
    pub entities: Vec<Entity>,
    pub farm: Farm,
    pub next_id: EntityId,
}

/// The areas in force: those read from `world/config/areas.yaml` when that
/// gave a non-empty list, otherwise the default areas.
pub fn load_areas(parsed: Option<Vec<Area>>) -> (r: Vec<Area>)
    ensures
        match parsed {
            Some(items) => if items@.len() > 0 {
                r@ == items@
            } else {
                r@.map_values(|a: Area| area_view(a)) == default_area_views()
            },
            None => r@.map_values(|a: Area| area_view(a)) == default_area_views(),
        },
{
    match parsed {
        Some(items) => {
            if items.len() > 0 {
                items
            } else {
                default_areas()
            }
        },
        None => default_areas(),
    }
}

/// The crop types in force: those read from `world/config/crops.yaml` when
/// that gave a non-empty list, otherwise the default crop types.
pub fn load_crop_types(parsed: Option<Vec<CropType>>) -> (r: Vec<CropType>)
    ensures
        match parsed {
            Some(items) => if items@.len() > 0 {
                r@ == items@
            } else {
                r@.map_values(|t: CropType| crop_type_view(t)) == default_crop_views()
            },
            None => r@.map_values(|t: CropType| crop_type_view(t)) == default_crop_views(),
        },
{
    match parsed {
        Some(items) => {
            if items.len() > 0 {
                items
            } else {
                Farm::default_crop_types()
            }
        },
        None => Farm::default_crop_types(),
    }
}

/// The animal types in force: those read from `world/config/animals.yaml`
/// when that gave a non-empty list, otherwise the default animal types.
pub fn load_animal_types(parsed: Option<Vec<AnimalType>>) -> (r: Vec<AnimalType>)
    ensures
        match parsed {
            Some(items) => if items@.len() > 0 {
                r@ == items@
            } else {
                r@.map_values(|t: AnimalType| animal_type_view(t)) == default_animal_views()
            },
            None => r@.map_values(|t: AnimalType| animal_type_view(t)) == default_animal_views(),
        },
{
    match parsed {
        Some(items) => {
            if items.len() > 0 {
                items
            } else {
                Farm::default_animal_types()
            }
        },
        None => Farm::default_animal_types(),
    }
}

/// Whether each property key of `st` occurs once.
fn state_ok(st: &Vec<(String, Value)>) -> (r: bool)
    ensures
        r == state_wf(st@),
{
    let mut i: usize = 0;
    while i < st.len()
        invariant
            i <= st@.len(),
            forall|a: int, b: int| 0 <= a < b < st@.len() && a < i ==> st@[a].0@ != st@[b].0@,
        decreases st@.len() - i,
    {
        let mut j: usize = i + 1;
        while j < st.len()
            invariant
                i < st@.len(),
                i + 1 <= j <= st@.len(),
                forall|a: int, b: int| 0 <= a < b < st@.len() && a < i ==> st@[a].0@ != st@[b].0@,
                forall|b: int| i < b < j ==> st@[i as int].0@ != st@[b].0@,
            decreases st@.len() - j,
        {
            if str_eq(st[i].0.as_str(), st[j].0.as_str()) {
                return false;
            }
            j = j + 1;
        }
        i = i + 1;
    }
    true
}

/// Whether no entity id occurs twice and every entity is well formed.
fn entities_ok(es: &Vec<Entity>) -> (r: bool)
    ensures
        r == entities_wf(es@),
{
    let mut k: usize = 0;
    while k < es.len()
        invariant
            k <= es@.len(),
            forall|a: int| 0 <= a < k ==> (#[trigger] es@[a]).wf(),
        decreases es@.len() - k,
    {
        if !state_ok(&es[k].state) {
            return false;
        }
        k = k + 1;
    }
    let mut i: usize = 0;
    while i < es.len()
        invariant
            i <= es@.len(),
            forall|a: int| 0 <= a < es@.len() ==> (#[trigger] es@[a]).wf(),
            forall|a: int, b: int| 0 <= a < b < es@.len() && a < i ==> es@[a].id != es@[b].id,
        decreases es@.len() - i,
    {
        let mut j: usize = i + 1;
        while j < es.len()
            invariant
                i < es@.len(),
                i + 1 <= j <= es@.len(),
                forall|a: int, b: int| 0 <= a < b < es@.len() && a < i ==> es@[a].id != es@[b].id,
                forall|b: int| i < b < j ==> es@[i as int].id != es@[b].id,
            decreases es@.len() - j,
        {
            if es[i].id == es[j].id {
                return false;
            }
            j = j + 1;
        }
        i = i + 1;
    }
    true
}

/// What [`load_game`] gives for the parsed save `data`: nothing without a
/// save or when its entities repeat an id or a property key; otherwise the
/// saved world with the given areas and crop types.
pub open spec fn load_outcome(data: Option<SaveData>, areas: Seq<Area>, crop_types: Seq<CropType>, r: Option<World>) -> bool {
    match data {
        None => r.is_none(),
        Some(d) => if entities_wf(d.entities@) {
            r matches Some(w) && w.wf() && w.player == d.player && w.player_area == d.player_area
                && w.areas@ == areas && w.entities == d.entities && w.farm == d.farm && w.crop_types@
                == crop_types && w.next_id == d.next_id
        } else {
            r.is_none()
        },
    }
}

/// The snapshot that saving `w` writes: its player, the player's area, its
/// entities, its farm and its next entity id.
pub open spec fn snapshot(w: World) -> SaveData {
    SaveData { player: w.player, player_area: w.player_area, entities: w.entities, farm: w.farm, next_id: w.next_id }
}

/// Loading the snapshot of a well-formed world, with that world's areas and
/// crop types, gives the same world back.
pub proof fn law_save_then_load(w: World, r: Option<World>)
    requires
        w.wf(),
        load_outcome(Some(snapshot(w)), w.areas@, w.crop_types@, r),
    ensures
        r matches Some(w2) && w2.player == w.player && w2.player_area == w.player_area && w2.entities
            == w.entities && w2.farm == w.farm && w2.areas@ == w.areas@ && w2.crop_types@ == w.crop_types@
            && w2.next_id == w.next_id,
{
}

/// The world restored from a saved snapshot (read and parsed from
/// `world/save.yaml`), with the configured areas and crop types; `None`
/// when there was no readable save, or its entities repeat an id or a
/// property key.
pub fn load_game(data: Option<SaveData>, areas: &Vec<Area>, crop_types: &Vec<CropType>) -> (r: Option<World>)
    ensures
        load_outcome(data, areas@, crop_types@, r),
{
    match data {
        None => None,
        Some(d) => {
            if !entities_ok(&d.entities) {
                return None;
            }
            let mut av: Vec<Area> = Vec::new();
            let mut i: usize = 0;
            while i < areas.len()
                invariant
                    i <= areas@.len(),
                    av@ == areas@.take(i as int),
                decreases areas@.len() - i,
            {
                let a = &areas[i];
                av.push(Area {
                    name: a.name.clone(),
                    description: a.description.clone(),
                    level_req: a.level_req,
                    enemy_level: a.enemy_level,
                    explore_cost_hp: a.explore_cost_hp,
                });
                assert(av@ =~= areas@.take(i + 1));
                i = i + 1;
            }
            assert(areas@.take(areas@.len() as int) =~= areas@);
            let mut cv: Vec<CropType> = Vec::new();
            let mut k: usize = 0;
            while k < crop_types.len()
                invariant
                    k <= crop_types@.len(),
                    cv@ == crop_types@.take(k as int),
                decreases crop_types@.len() - k,
            {
                let c = &crop_types[k];
                cv.push(CropType { name: c.name.clone(), grow_time_secs: c.grow_time_secs, yield_gold: c.yield_gold });
                assert(cv@ =~= crop_types@.take(k + 1));
                k = k + 1;
            }
            assert(crop_types@.take(crop_types@.len() as int) =~= crop_types@);
            Some(World::from_save(d.player, d.player_area, av, d.entities, d.farm, cv, d.next_id))
        },
    }
}
} // verus!
