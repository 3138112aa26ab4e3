//! Turn-based combat against enemies of the stand-alone exploration mode.
//!
//! One combat round is a decision on the player's choice and on the random
//! outcomes of that round (whether a flight succeeds, the damage dealt each
//! way); the interactive loop around it belongs to the program.

use vstd::prelude::*;
use vstd::string::*;
use crate::player::Player;
use crate::text::{dec_int, dec_nat, push_dec, push_int};

verus! {

/// An enemy.
pub struct Enemy {
    pub name: String,
    pub hp: i32,
    pub max_hp: i32,
    pub attack: i32,
    pub defense: i32,
    pub exp_reward: u32,
    pub gold_reward: u32,
}

/// How a combat ended.
pub enum CombatResult {
    Victory { exp: u32, gold: u32 },
    Defeat,
    Fled,
}

/// An enemy's fields as plain values.
pub open spec fn enemy_view(e: Enemy) -> (Seq<char>, i32, i32, i32, i32, u32, u32) {
    (e.name@, e.hp, e.max_hp, e.attack, e.defense, e.exp_reward, e.gold_reward)
}

/// `base（LvN）`.
pub open spec fn leveled_name(base: Seq<char>, level: nat) -> Seq<char> {
    base + "（Lv"@ + dec_nat(level) + "）"@
}

/// The enemies of an area of level `l`, as [`create_enemies_for_area`] makes them.
pub open spec fn enemies_spec(l: nat) -> Seq<(Seq<char>, int, int, int, int, int, int)> {
    let s = l as int;
    seq![
        (leveled_name("哥布林"@, l), 20 + s * 10, 20 + s * 10, 5 + s * 2, 2 + s, 15 + s * 10, 5 + s * 3),
        (leveled_name("狼"@, l), 15 + s * 12, 15 + s * 12, 7 + s * 2, 1 + s, 20 + s * 10, 3 + s * 2),
        (leveled_name("强盗"@, l), 25 + s * 8, 25 + s * 8, 6 + s * 3, 3 + s * 2, 25 + s * 12, 10 + s * 5),
        (leveled_name("石像鬼"@, l), 40 + s * 15, 40 + s * 15, 4 + s * 2, 6 + s * 2, 30 + s * 15, 8 + s * 4),
        (leveled_name("黑暗法师"@, l), 18 + s * 8, 18 + s * 8, 10 + s * 4, 1 + s, 35 + s * 18, 12 + s * 6),
    ]
}

/// The largest area level for which every enemy stat fits its type.
pub open spec fn max_area_level() -> nat {
    143165573
}

fn mk_enemy(base: &str, level: u32, hp: i32, attack: i32, defense: i32, exp: u32, gold: u32) -> (r: Enemy)
    ensures
        enemy_view(r) == (leveled_name(base@, level as nat), hp, hp, attack, defense, exp, gold),
{
    let mut name = String::from_str(base);
    name.append("（Lv");
    push_dec(&mut name, level as u64);
    name.append("）");
    Enemy { name, hp, max_hp: hp, attack, defense, exp_reward: exp, gold_reward: gold }
}

/// The five enemies of an area of the given level, with stats that grow
/// linearly with the level.
pub fn create_enemies_for_area(area_level: u32) -> (r: Vec<Enemy>)
    requires
        area_level <= max_area_level(),
    ensures
        r@.len() == 5,
        forall|i: int|
            0 <= i < 5 ==> {
                let v = enemy_view(#[trigger] r@[i]);
                let w = enemies_spec(area_level as nat)[i];
                &&& v.0 == w.0
                &&& v.1 == w.1
                &&& v.2 == w.2
                &&& v.3 == w.3
                &&& v.4 == w.4
                &&& v.5 == w.5
                &&& v.6 == w.6
            },
{
    let l = area_level;
    let s = area_level as i32;
    let mut v: Vec<Enemy> = Vec::new();
    v.push(mk_enemy("哥布林", l, 20 + s * 10, 5 + s * 2, 2 + s, 15 + l * 10, 5 + l * 3));
    v.push(mk_enemy("狼", l, 15 + s * 12, 7 + s * 2, 1 + s, 20 + l * 10, 3 + l * 2));
    v.push(mk_enemy("强盗", l, 25 + s * 8, 6 + s * 3, 3 + s * 2, 25 + l * 12, 10 + l * 5));
    v.push(mk_enemy("石像鬼", l, 40 + s * 15, 4 + s * 2, 6 + s * 2, 30 + l * 15, 8 + l * 4));
    v.push(mk_enemy("黑暗法师", l, 18 + s * 8, 10 + s * 4, 1 + s, 35 + l * 18, 12 + l * 6));
    v
}

/// What one round of combat does: the player and enemy afterwards, the
/// messages shown, and the result if the combat ended.
pub open spec fn round_spec(
    p: Player,
    e: Enemy,
    flee: bool,
    flee_ok: bool,
    dmg_to_enemy: int,
    dmg_to_player: int,
) -> (Player, Enemy, Seq<Seq<char>>, Option<CombatResult>) {
    if flee && flee_ok {
        (p, e, seq!["你成功逃脱了！"@], Some(CombatResult::Fled))
    } else {
        let (e1, m1) = if flee {
            (e, seq!["逃跑失败！"@])
        } else {
            let h = if e.hp - dmg_to_enemy > 0 {
                e.hp - dmg_to_enemy
            } else {
                0
            };
            (
                Enemy { hp: h as i32, ..e },
                seq!["你对 "@ + e.name@ + " 造成了 "@ + dec_int(dmg_to_enemy) + " 点伤害。"@],
            )
        };
        if e1.hp <= 0 {
            (
                p,
                e1,
                m1.push("你击败了 "@ + e.name@ + "！"@),
                Some(CombatResult::Victory { exp: e.exp_reward, gold: e.gold_reward }),
            )
        } else {
            let hp = if p.hp - dmg_to_player > 0 {
                p.hp - dmg_to_player
            } else {
                0
            };
            let p1 = Player { hp: hp as i32, ..p };
            let m2 = m1.push(e.name@ + " 对你造成了 "@ + dec_int(dmg_to_player) + " 点伤害。"@);
            if hp <= 0 {
                (p1, e1, m2.push("你被击败了..."@), Some(CombatResult::Defeat))
            } else {
                (p1, e1, m2, None)
            }
        }
    }
}

/// The views of a list of messages.
pub open spec fn msgs(v: Seq<String>) -> Seq<Seq<char>> {
    v.map_values(|s: String| s@)
}

/// One round of combat.  `flee` is the player's choice; `flee_ok` whether a
/// flight attempt succeeds (one chance in four); `dmg_to_enemy` and
/// `dmg_to_player` the damage the two sides deal this round.  Returns the
/// messages to show and, if the combat ended, its result.
pub fn combat_round(
    player: &mut Player,
    enemy: &mut Enemy,
    flee: bool,
    flee_ok: bool,
    dmg_to_enemy: i32,
    dmg_to_player: i32,
) -> (r: (Vec<String>, Option<CombatResult>))
    requires
        i32::MIN <= old(enemy).hp - dmg_to_enemy <= i32::MAX,
        i32::MIN <= old(player).hp - dmg_to_player <= i32::MAX,
    ensures
        ({
            let s = round_spec(*old(player), *old(enemy), flee, flee_ok, dmg_to_enemy as int, dmg_to_player as int);
            &&& *final(player) == s.0
            &&& *final(enemy) == s.1
            &&& msgs(r.0@) == s.2
            &&& r.1 == s.3
        }),
{
    let mut m: Vec<String> = Vec::new();
    if flee {
        if flee_ok {
            m.push(String::from_str("你成功逃脱了！"));
            assert(msgs(m@) =~= seq!["你成功逃脱了！"@]);
            return (m, Some(CombatResult::Fled));
        }
        m.push(String::from_str("逃跑失败！"));
    } else {
        let h = enemy.hp - dmg_to_enemy;
        enemy.hp = if h > 0 {
            h
        } else {
            0
        };
        let mut s = String::from_str("你对 ");
        s.append(enemy.name.as_str());
        s.append(" 造成了 ");
        push_int(&mut s, dmg_to_enemy as i64);
        s.append(" 点伤害。");
        m.push(s);
    }
    let ghost m1 = msgs(m@);
    if enemy.hp <= 0 {
        let mut s = String::from_str("你击败了 ");
        s.append(enemy.name.as_str());
        s.append("！");
        let ghost prev = m@;
        m.push(s);
        assert(msgs(m@) =~= msgs(prev).push(s@));
        return (m, Some(CombatResult::Victory { exp: enemy.exp_reward, gold: enemy.gold_reward }));
    }
    player.take_damage(dmg_to_player);
    let mut s = enemy.name.clone();
    s.append(" 对你造成了 ");
    push_int(&mut s, dmg_to_player as i64);
    s.append(" 点伤害。");
    let ghost prev = m@;
    m.push(s);
    assert(msgs(m@) =~= msgs(prev).push(s@));
    if !player.is_alive() {
        let ghost prev2 = m@;
        let d = String::from_str("你被击败了...");
        m.push(d);
        assert(msgs(m@) =~= msgs(prev2).push(d@));
        return (m, Some(CombatResult::Defeat));
    }
    (m, None)
}

} // verus!
