//! Turn-based combat between the player and a monster entity.
//!
//! One round is a decision on the player's choice and the random outcomes
//! of the round; the interactive loop around it belongs to the program.

use vstd::prelude::*;
use vstd::string::*;
use crate::player::Player;
use crate::engine::entity::{entity_view, int_prop, Entity};
use crate::text::{dec_int, dec_nat, push_dec, push_int};

verus! {

/// Outcome of a combat encounter.
pub enum CombatResult {
    Victory { exp: u32, gold: u32 },
    Defeat,
    Fled,
}

/// `base(LvN)`.
pub open spec fn monster_name(base: Seq<char>, level: nat) -> Seq<char> {
    base + "(Lv"@ + dec_nat(level) + ")"@
}

/// The stat keys of every generated monster, in order.
pub open spec fn stat_keys() -> Seq<Seq<char>> {
    seq!["hp"@, "max_hp"@, "attack"@, "defense"@, "exp_reward"@, "gold_reward"@]
}

/// The monsters of an area of level `l`: names and stat values.
pub open spec fn monsters_spec(l: nat) -> Seq<(Seq<char>, Seq<int>)> {
    let s = l as int;
    seq![
        (monster_name("哥布林"@, l), seq![20 + s * 10, 20 + s * 10, 5 + s * 2, 2 + s, 15 + s * 10, 5 + s * 3]),
        (monster_name("狼"@, l), seq![15 + s * 12, 15 + s * 12, 7 + s * 2, 1 + s, 20 + s * 10, 3 + s * 2]),
        (monster_name("强盗"@, l), seq![25 + s * 8, 25 + s * 8, 6 + s * 3, 3 + s * 2, 25 + s * 12, 10 + s * 5]),
        (monster_name("石像鬼"@, l), seq![40 + s * 15, 40 + s * 15, 4 + s * 2, 6 + s * 2, 30 + s * 15, 8 + s * 4]),
        (monster_name("黑暗法师"@, l), seq![18 + s * 8, 18 + s * 8, 10 + s * 4, 1 + s, 35 + s * 18, 12 + s * 6]),
    ]
}

/// The generated monsters carry five different names: goblin, wolf,
/// bandit, gargoyle and dark mage, in that order, each followed by
/// `(Lv<level>)`.
pub proof fn law_monster_names(l: nat)
    ensures
        monsters_spec(l)[0].0 == "哥布林"@ + "(Lv"@ + dec_nat(l) + ")"@,
        monsters_spec(l)[1].0 == "狼"@ + "(Lv"@ + dec_nat(l) + ")"@,
        monsters_spec(l)[2].0 == "强盗"@ + "(Lv"@ + dec_nat(l) + ")"@,
        monsters_spec(l)[3].0 == "石像鬼"@ + "(Lv"@ + dec_nat(l) + ")"@,
        monsters_spec(l)[4].0 == "黑暗法师"@ + "(Lv"@ + dec_nat(l) + ")"@,
        forall|i: int, j: int| 0 <= i < j < 5 ==> monsters_spec(l)[i].0 != monsters_spec(l)[j].0,
{
    reveal_strlit("哥布林");
    reveal_strlit("狼");
    reveal_strlit("强盗");
    reveal_strlit("石像鬼");
    reveal_strlit("黑暗法师");
    let names = seq!["哥布林"@, "狼"@, "强盗"@, "石像鬼"@, "黑暗法师"@];
    assert forall|i: int, j: int| 0 <= i < j < 5 implies monsters_spec(l)[i].0 != monsters_spec(l)[j].0 by {
        let a = monsters_spec(l)[i].0;
        let b = monsters_spec(l)[j].0;
        assert(a[0] == names[i][0]);
        assert(b[0] == names[j][0]);
    }
}

/// A generated monster as plain values.
pub open spec fn monster_view(m: (String, Vec<(&'static str, i64)>)) -> (Seq<char>, Seq<Seq<char>>, Seq<int>) {
    (m.0@, m.1@.map_values(|p: (&'static str, i64)| p.0@), m.1@.map_values(|p: (&'static str, i64)| p.1 as int))
}

fn monster(base: &str, level: u32, v: [i64; 6]) -> (r: (String, Vec<(&'static str, i64)>))
    ensures
        monster_view(r) == (monster_name(base@, level as nat), stat_keys(), v@.map_values(|x: i64| x as int)),
{
    let mut name = String::from_str(base);
    name.append("(Lv");
    push_dec(&mut name, level as u64);
    name.append(")");
    let mut st: Vec<(&'static str, i64)> = Vec::new();
    st.push(("hp", v[0]));
    st.push(("max_hp", v[1]));
    st.push(("attack", v[2]));
    st.push(("defense", v[3]));
    st.push(("exp_reward", v[4]));
    st.push(("gold_reward", v[5]));
    let r = (name, st);
    assert(monster_view(r).1 =~= stat_keys());
    assert(monster_view(r).2 =~= v@.map_values(|x: i64| x as int));
    r
}

/// Create the monsters for an area level: `(name, stats)` pairs that can be
/// fed to `World::spawn_entity`.
pub fn generate_monsters(area_level: u32) -> (r: Vec<(String, Vec<(&'static str, i64)>)>)
    ensures
        r@.len() == 5,
        forall|i: int| 0 <= i < 5 ==> {
            let v = monster_view(#[trigger] r@[i]);
            let w = monsters_spec(area_level as nat)[i];
            v.0 == w.0 && v.1 == stat_keys() && v.2 == w.1
        },
{
    let s = area_level as i64;
    let mut r: Vec<(String, Vec<(&'static str, i64)>)> = Vec::new();
    let a = [20 + s * 10, 20 + s * 10, 5 + s * 2, 2 + s, 15 + s * 10, 5 + s * 3];
    r.push(monster("哥布林", area_level, a));
    assert(a@.map_values(|x: i64| x as int) =~= monsters_spec(area_level as nat)[0].1);
    let b = [15 + s * 12, 15 + s * 12, 7 + s * 2, 1 + s, 20 + s * 10, 3 + s * 2];
    r.push(monster("狼", area_level, b));
    assert(b@.map_values(|x: i64| x as int) =~= monsters_spec(area_level as nat)[1].1);
    let c = [25 + s * 8, 25 + s * 8, 6 + s * 3, 3 + s * 2, 25 + s * 12, 10 + s * 5];
    r.push(monster("强盗", area_level, c));
    assert(c@.map_values(|x: i64| x as int) =~= monsters_spec(area_level as nat)[2].1);
    let d = [40 + s * 15, 40 + s * 15, 4 + s * 2, 6 + s * 2, 30 + s * 15, 8 + s * 4];
    r.push(monster("石像鬼", area_level, d));
    assert(d@.map_values(|x: i64| x as int) =~= monsters_spec(area_level as nat)[3].1);
    let e = [18 + s * 8, 18 + s * 8, 10 + s * 4, 1 + s, 35 + s * 18, 12 + s * 6];
    r.push(monster("黑暗法师", area_level, e));
    assert(e@.map_values(|x: i64| x as int) =~= monsters_spec(area_level as nat)[4].1);
    r
}

/// What one round against a monster does: the player and monster HP
/// afterwards, the messages shown, and the result if the combat ended.
pub open spec fn round_spec(
    p: Player,
    name: Seq<char>,
    enemy_hp: int,
    exp: u32,
    gold: u32,
    flee: bool,
    flee_ok: bool,
    dmg_to_enemy: int,
    dmg_to_player: int,
) -> (Player, int, Seq<Seq<char>>, Option<CombatResult>) {
    if flee && flee_ok {
        (p, enemy_hp, seq!["你成功逃脱了！"@], Some(CombatResult::Fled))
    } else {
        let (h1, m1) = if flee {
            (enemy_hp, seq!["逃跑失败！"@])
        } else {
            (
                if enemy_hp - dmg_to_enemy > 0 { enemy_hp - dmg_to_enemy } else { 0 },
                seq!["你对 "@ + name + " 造成了 "@ + dec_int(dmg_to_enemy) + " 点伤害。"@],
            )
        };
        if h1 <= 0 {
            (p, 0, m1.push("你击败了 "@ + name + "！"@), Some(CombatResult::Victory { exp, gold }))
        } else {
            let hp = if p.hp - dmg_to_player > 0 { p.hp - dmg_to_player } else { 0 };
            let p1 = Player { hp: hp as i32, ..p };
            let m2 = m1.push(name + " 对你造成了 "@ + dec_int(dmg_to_player) + " 点伤害。"@);
            if hp <= 0 {
                (p1, h1, m2.push("你被击败了..."@), Some(CombatResult::Defeat))
            } else {
                (p1, h1, m2, None)
            }
        }
    }
}

/// The views of a list of messages.
pub open spec fn msgs(v: Seq<String>) -> Seq<Seq<char>> {
    v.map_values(|s: String| s@)
}

/// One round of combat against the monster `name` with `enemy_hp` HP.
/// `flee` is the player's choice, `flee_ok` whether a flight succeeds (one
/// chance in four), `dmg_to_enemy` / `dmg_to_player` the damage dealt this
/// round.  Returns the messages to show and, if the combat ended, its
/// result; on victory the monster's HP is set to 0.
pub fn combat_round(
    player: &mut Player,
    name: &str,
    enemy_hp: &mut i32,
    exp_reward: u32,
    gold_reward: u32,
    flee: bool,
    flee_ok: bool,
    dmg_to_enemy: i32,
    dmg_to_player: i32,
) -> (r: (Vec<String>, Option<CombatResult>))
    requires
        i32::MIN <= *old(enemy_hp) - dmg_to_enemy <= i32::MAX,
        i32::MIN <= old(player).hp - dmg_to_player <= i32::MAX,
    ensures
        ({
            let s = round_spec(*old(player), name@, *old(enemy_hp) as int, exp_reward, gold_reward, flee, flee_ok, dmg_to_enemy as int, dmg_to_player as int);
            &&& *final(player) == s.0
            &&& *final(enemy_hp) == s.1
            &&& msgs(r.0@) == s.2
            &&& r.1 == s.3
        }),
{
    let mut m: Vec<String> = Vec::new();
    if flee {
        if flee_ok {
            m.push(String::from_str("你成功逃脱了！"));
            assert(msgs(m@) =~= seq!["你成功逃脱了！"@]);
            return (m, Some(CombatResult::Fled));
        }
        m.push(String::from_str("逃跑失败！"));
    } else {
        let h = *enemy_hp - dmg_to_enemy;
        *enemy_hp = if h > 0 {
            h
        } else {
            0
        };
        let mut s = String::from_str("你对 ");
        s.append(name);
        s.append(" 造成了 ");
        push_int(&mut s, dmg_to_enemy as i64);
        s.append(" 点伤害。");
        m.push(s);
    }
    if *enemy_hp <= 0 {
        let mut s = String::from_str("你击败了 ");
        s.append(name);
        s.append("！");
        let ghost prev = m@;
        m.push(s);
        assert(msgs(m@) =~= msgs(prev).push(s@));
        *enemy_hp = 0;
        return (m, Some(CombatResult::Victory { exp: exp_reward, gold: gold_reward }));
    }
    player.take_damage(dmg_to_player);
    let mut s = String::from_str(name);
    s.append(" 对你造成了 ");
    push_int(&mut s, dmg_to_player as i64);
    s.append(" 点伤害。");
    let ghost prev = m@;
    m.push(s);
    assert(msgs(m@) =~= msgs(prev).push(s@));
    if !player.is_alive() {
        let ghost prev2 = m@;
        let d = String::from_str("你被击败了...");
        m.push(d);
        assert(msgs(m@) =~= msgs(prev2).push(d@));
        return (m, Some(CombatResult::Defeat));
    }
    (m, None)
}


/// The figures of a monster that a combat reads at its start.
pub struct CombatSetup {
    pub name: String,
    pub enemy_hp: i32,
    pub enemy_max_hp: i32,
    pub enemy_atk: i32,
    pub enemy_def: i32,
    pub exp_reward: u32,
    pub gold_reward: u32,
}

/// Read a monster's combat figures from its properties (`hp`, `max_hp`,
/// `attack`, `defense` truncated to `i32`; `exp_reward`, `gold_reward`
/// truncated to `u32`; a missing property counts as 0).
pub fn combat_setup(entity: &Entity) -> (r: CombatSetup)
    ensures
        ({
            let p = entity_view(*entity).props;
            &&& r.name@ == entity.name@
            &&& r.enemy_hp == int_prop(p, "hp"@) as i32
            &&& r.enemy_max_hp == int_prop(p, "max_hp"@) as i32
            &&& r.enemy_atk == int_prop(p, "attack"@) as i32
            &&& r.enemy_def == int_prop(p, "defense"@) as i32
            &&& r.exp_reward == int_prop(p, "exp_reward"@) as u32
            &&& r.gold_reward == int_prop(p, "gold_reward"@) as u32
        }),
{
    CombatSetup {
        name: entity.name.clone(),
        enemy_hp: entity.get_int("hp") as i32,
        enemy_max_hp: entity.get_int("max_hp") as i32,
        enemy_atk: entity.get_int("attack") as i32,
        enemy_def: entity.get_int("defense") as i32,
        exp_reward: entity.get_int("exp_reward") as u32,
        gold_reward: entity.get_int("gold_reward") as u32,
    }
}
} // verus!
