//! Exploration of the stand-alone areas: a random encounter with an enemy,
//! some gold, an item, or nothing.

use vstd::prelude::*;
use vstd::string::*;
use crate::combat::{Enemy, create_enemies_for_area, enemies_spec, enemy_view};
use crate::player::Player;
use crate::rng::{random_u32_in, random_usize_in};
use crate::text::{dec_nat, push_dec};

verus! {

/// An explorable area.
#[derive(Clone)]
pub struct Area {
    pub name: String,
    pub description: String,
    pub level_req: u32,
    pub enemy_level: u32,
    pub explore_cost_hp: i32,
}

/// An area's fields as plain values.
pub open spec fn area_view(a: Area) -> (Seq<char>, Seq<char>, u32, u32, i32) {
    (a.name@, a.description@, a.level_req, a.enemy_level, a.explore_cost_hp)
}

/// The areas of [`get_areas`].
pub open spec fn areas_spec() -> Seq<(Seq<char>, Seq<char>, u32, u32, i32)> {
    seq![
        ("Forest"@, "A peaceful woodland. Good for beginners."@, 1u32, 1u32, 0i32),
        ("Dark Caves"@, "Damp tunnels filled with danger."@, 3u32, 3u32, 2i32),
        ("Haunted Ruins"@, "Ancient ruins haunted by restless spirits."@, 5u32, 5u32, 5i32),
        ("Volcanic Wastes"@, "Scorched land near an active volcano."@, 8u32, 8u32, 10i32),
        ("Dragon's Peak"@, "The summit where dragons nest. Extremely dangerous."@, 12u32, 12u32, 15i32),
    ]
}

fn mk_area(name: &str, description: &str, level_req: u32, enemy_level: u32, explore_cost_hp: i32) -> (r: Area)
    ensures
        area_view(r) == (name@, description@, level_req, enemy_level, explore_cost_hp),
{
    Area {
        name: String::from_str(name),
        description: String::from_str(description),
        level_req,
        enemy_level,
        explore_cost_hp,
    }
}

/// The five explorable areas, from the Forest to Dragon's Peak.
pub fn get_areas() -> (r: Vec<Area>)
    ensures
        r@.map_values(|a: Area| area_view(a)) == areas_spec(),
{
    let mut v: Vec<Area> = Vec::new();
    v.push(mk_area("Forest", "A peaceful woodland. Good for beginners.", 1, 1, 0));
    v.push(mk_area("Dark Caves", "Damp tunnels filled with danger.", 3, 3, 2));
    v.push(mk_area("Haunted Ruins", "Ancient ruins haunted by restless spirits.", 5, 5, 5));
    v.push(mk_area("Volcanic Wastes", "Scorched land near an active volcano.", 8, 8, 10));
    v.push(
        mk_area("Dragon's Peak", "The summit where dragons nest. Extremely dangerous.", 12, 12, 15),
    );
    assert(v@.map_values(|a: Area| area_view(a)) =~= areas_spec());
    v
}

/// What exploring finds.
pub enum ExploreResult {
    Enemy(Enemy),
    Gold(u32),
    Nothing,
    Item(String),
}

/// The items that can be found.
pub open spec fn items_spec() -> Seq<Seq<char>> {
    seq!["Old Sword"@, "Leather Boots"@, "Health Potion"@, "Shield Fragment"@, "Magic Scroll"@]
}

/// The result of exploring area `idx` at player level `level`, given the
/// percentage roll `roll` (1..=100), the choice `pick` (0..5) of enemy or
/// item, and the gold roll `amount` (5..=30): an error for a bad index or too
/// low a level; otherwise an enemy for rolls up to 50, gold up to 70, an
/// item up to 85, and nothing above.
pub open spec fn explore_outcome(level: u32, idx: int, roll: u32, pick: int, amount: u32, r: Result<ExploreResult, String>) -> bool {
    if idx < 0 || idx >= areas_spec().len() {
        r matches Err(e) && e@ == "Invalid area."@
    } else {
        let a = areas_spec()[idx];
        if level < a.2 {
            r matches Err(e) && e@ == "You need to be level "@ + dec_nat(a.2 as nat) + " to explore "@ + a.0 + "."@
        } else if roll <= 50 {
            r matches Ok(ExploreResult::Enemy(en)) && {
                let v = enemy_view(en);
                let w = enemies_spec(a.3 as nat)[pick];
                v.0 == w.0 && v.1 == w.1 && v.2 == w.2 && v.3 == w.3 && v.4 == w.4 && v.5 == w.5 && v.6 == w.6
            }
        } else if roll <= 70 {
            r matches Ok(ExploreResult::Gold(g)) && g == amount * a.3
        } else if roll <= 85 {
            r matches Ok(ExploreResult::Item(it)) && it@ == items_spec()[pick]
        } else {
            r matches Ok(ExploreResult::Nothing)
        }
    }
}

/// A gold find grows with the area: it is the gold roll times the area's
/// enemy level, so at least 5 times that level and a multiple of it.
pub proof fn law_gold_scales_with_area(
    level: u32,
    idx: int,
    roll: u32,
    pick: int,
    amount: u32,
    r: Result<ExploreResult, String>,
)
    requires
        0 <= idx < areas_spec().len(),
        level >= areas_spec()[idx].2,
        50 < roll <= 70,
        5 <= amount <= 30,
        explore_outcome(level, idx, roll, pick, amount, r),
    ensures
        r matches Ok(ExploreResult::Gold(g)) && {
            &&& g == amount * areas_spec()[idx].3
            &&& g >= 5 * areas_spec()[idx].3
            &&& g % areas_spec()[idx].3 == 0
        },
{
    let l = areas_spec()[idx].3;
    assert(l >= 1);
    let g = amount * l;
    assert(g >= 5 * l) by (nonlinear_arith)
        requires
            amount >= 5,
            l >= 1,
            g == amount * l,
    ;
    assert(g % (l as int) == 0) by (nonlinear_arith)
        requires
            l >= 1,
            g == amount * l,
    ;
}

/// Explore area `area_idx` with the random outcomes given as arguments.
pub fn explore_with(player: &Player, area_idx: usize, roll: u32, pick: usize, amount: u32) -> (r: Result<ExploreResult, String>)
    requires
        pick < 5,
        5 <= amount <= 30,
    ensures
        explore_outcome(player.level, area_idx as int, roll, pick as int, amount, r),
{
    let mut areas = get_areas();
    proof {
        assert(areas@.map_values(|a: Area| area_view(a)).len() == areas@.len());
    }
    if area_idx >= areas.len() {
        return Err(String::from_str("Invalid area."));
    }
    let area = areas.remove(area_idx);
    assert(area_view(area) == areas_spec()[area_idx as int]);
    assert(area.enemy_level <= 12) by {
        let i = area_idx as int;
        assert(0 <= i < 5);
        if i == 0 {
        } else if i == 1 {
        } else if i == 2 {
        } else if i == 3 {
        } else {
        }
    }
    if player.level < area.level_req {
        let mut e = String::from_str("You need to be level ");
        push_dec(&mut e, area.level_req as u64);
        e.append(" to explore ");
        e.append(area.name.as_str());
        e.append(".");
        return Err(e);
    }
    if roll <= 50 {
        let mut enemies = create_enemies_for_area(area.enemy_level);
        let en = enemies.remove(pick);
        Ok(ExploreResult::Enemy(en))
    } else if roll <= 70 {
        let lv = area.enemy_level;
        assert(amount * lv <= 360) by (nonlinear_arith)
            requires
                amount <= 30,
                lv <= 12,
        ;
        Ok(ExploreResult::Gold(amount * lv))
    } else if roll <= 85 {
        let it = if pick == 0 {
            String::from_str("Old Sword")
        } else if pick == 1 {
            String::from_str("Leather Boots")
        } else if pick == 2 {
            String::from_str("Health Potion")
        } else if pick == 3 {
            String::from_str("Shield Fragment")
        } else {
            String::from_str("Magic Scroll")
        };
        Ok(ExploreResult::Item(it))
    } else {
        Ok(ExploreResult::Nothing)
    }
}

/// Explore area `area_idx`: roll a percentage, then draw the enemy, gold or
/// item it leads to.
pub fn explore(player: &Player, area_idx: usize) -> (r: Result<ExploreResult, String>)
    ensures
        exists|roll: u32, pick: int, amount: u32|
            1 <= roll <= 100 && 0 <= pick < 5 && 5 <= amount <= 30 && #[trigger] explore_outcome(
                player.level,
                area_idx as int,
                roll,
                pick,
                amount,
                r,
            ),
{
    let roll = random_u32_in(1, 100);
    let pick = random_usize_in(0, 4);
    let amount = random_u32_in(5, 30);
    explore_with(player, area_idx, roll, pick, amount)
}

} // verus!
