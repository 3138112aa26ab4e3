//! Areas: the named regions of the game world.  In the virtual file system
//! each area is a directory under `/`.

use vstd::prelude::*;
use vstd::string::*;
use crate::text::{dec_int, dec_nat, push_dec, push_int};

verus! {

/// A region of the world.
#[derive(Debug, Clone)]
pub struct Area {
    pub name: String,
    pub description: String,
    pub level_req: u32,
    pub enemy_level: u32,
    pub explore_cost_hp: i32,
}

/// The area through which the farm is reached.
pub const FARM_AREA: &'static str = "农场";

/// The area in which a new game starts.
pub const DEFAULT_START_AREA: &'static str = "森林";

/// The fields of an area as plain values.
pub open spec fn area_view(a: Area) -> (Seq<char>, Seq<char>, u32, u32, i32) {
    (a.name@, a.description@, a.level_req, a.enemy_level, a.explore_cost_hp)
}

impl Area {
    /// The `.info` text of the area.
    pub open spec fn display_spec(&self) -> Seq<char> {
        "名称: "@ + self.name@ + "\n描述: "@ + self.description@ + "\n等级要求: "@ + dec_nat(
            self.level_req as nat,
        ) + "\n敌人等级: "@ + dec_nat(self.enemy_level as nat) + "\n探索消耗HP: "@ + dec_int(
            self.explore_cost_hp as int,
        )
    }

    /// Render area info as human-readable text (the `.info` file content).
    pub fn to_display(&self) -> (r: String)
        ensures
            r@ == self.display_spec(),
    {
        let mut s = String::from_str("名称: ");
        s.append(self.name.as_str());
        s.append("\n描述: ");
        s.append(self.description.as_str());
        s.append("\n等级要求: ");
        push_dec(&mut s, self.level_req as u64);
        s.append("\n敌人等级: ");
        push_dec(&mut s, self.enemy_level as u64);
        s.append("\n探索消耗HP: ");
        push_int(&mut s, self.explore_cost_hp as i64);
        s
    }
}

/// The areas of [`default_areas`].
pub open spec fn default_area_views() -> Seq<(Seq<char>, Seq<char>, u32, u32, i32)> {
    seq![
        ("森林"@, "宁静的树林，适合新手探索。"@, 1u32, 1u32, 0i32),
        ("黑暗洞穴"@, "潮湿而充满危险的地下洞穴。"@, 3u32, 3u32, 2i32),
        ("鬼魂废墟"@, "古老的废墟，充斥着不安的亡灵。"@, 5u32, 5u32, 5i32),
        ("火山荒地"@, "活火山附近被灼烧的焦土。"@, 8u32, 8u32, 10i32),
        ("龙之巅峰"@, "龙族栖息的山顶，极度危险。"@, 12u32, 12u32, 15i32),
    ]
}

fn mk_area(name: &str, description: &str, level_req: u32, enemy_level: u32, explore_cost_hp: i32) -> (r: Area)
    ensures
        area_view(r) == (name@, description@, level_req, enemy_level, explore_cost_hp),
{
    Area {
        name: String::from_str(name),
        description: String::from_str(description),
        level_req,
        enemy_level,
        explore_cost_hp,
    }
}

/// Default areas shipped with the game.
pub fn default_areas() -> (r: Vec<Area>)
    ensures
        r@.map_values(|a: Area| area_view(a)) == default_area_views(),
{
    let mut v: Vec<Area> = Vec::new();
    v.push(mk_area("森林", "宁静的树林，适合新手探索。", 1, 1, 0));
    v.push(mk_area("黑暗洞穴", "潮湿而充满危险的地下洞穴。", 3, 3, 2));
    v.push(mk_area("鬼魂废墟", "古老的废墟，充斥着不安的亡灵。", 5, 5, 5));
    v.push(mk_area("火山荒地", "活火山附近被灼烧的焦土。", 8, 8, 10));
    v.push(mk_area("龙之巅峰", "龙族栖息的山顶，极度危险。", 12, 12, 15));
    assert(v@.map_values(|a: Area| area_view(a)) =~= default_area_views());
    v
}

} // verus!
