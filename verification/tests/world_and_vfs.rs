use clg::engine::area::{default_areas, FARM_AREA};
use clg::engine::entity::{EntityKind, Value};
use clg::engine::farming::Farm;
use clg::engine::world::{PopulateChoice, World};
use clg::player::Player;
use clg::vfs::{normalize, parent, split_path, Vfs, VfsEntry, HELP_TEXT};

fn monster_props(hp: i64) -> Vec<(&'static str, Value)> {
    vec![
        ("hp", Value::Int(hp)),
        ("max_hp", Value::Int(30)),
        ("attack", Value::Int(7)),
        ("defense", Value::Int(3)),
        ("exp_reward", Value::Int(25)),
        ("gold_reward", Value::Int(8)),
    ]
}

fn sample_world() -> World {
    let player = Player::new("勇者".to_string());
    let animal_types = Farm::default_animal_types();
    let farm = Farm::from_types(&animal_types, 4);
    let mut w = World::from_save(
        player,
        "森林".to_string(),
        default_areas(),
        Vec::new(),
        farm,
        Farm::default_crop_types(),
        1,
    );
    w.spawn_entity(EntityKind::Monster, "哥布林(Lv1)", "森林", monster_props(30));
    w.spawn_entity(
        EntityKind::Npc,
        "老者",
        "森林",
        vec![("dialogue", Value::Str("你好，冒险者".to_string()))],
    );
    w.spawn_entity(
        EntityKind::Item,
        "草药",
        "森林",
        vec![
            ("gold_value", Value::Int(15)),
            ("description", Value::Str("一个草药，价值15金币。".to_string())),
        ],
    );
    w
}

fn names(v: &[VfsEntry]) -> Vec<String> {
    v.iter().map(|e| e.name().to_string()).collect()
}

#[test]
fn paths_normalize() {
    assert_eq!(normalize("/森林/../农场/"), "/农场");
    assert_eq!(normalize("/./a//b"), "/a/b");
    assert_eq!(normalize("/.."), "/");
    assert_eq!(parent("/a/b"), "/a");
    assert_eq!(parent("/a"), "/");
    assert_eq!(split_path("//a/b/"), vec!["a".to_string(), "b".to_string()]);
}

#[test]
fn normalize_twice_is_normalize_once() {
    for p in ["/森林/../农场/", "a/./b/../../..", "", "/", "x//y/.", "../森林"] {
        let once = normalize(p);
        assert_eq!(normalize(&once), once);
    }
    assert_eq!(normalize("a/./b/../../.."), "/");
    assert_eq!(normalize("x//y/."), "/x/y");
}

#[test]
fn resolve_against_cwd() {
    let v = Vfs::new("森林");
    assert_eq!(v.pwd(), "/森林");
    assert_eq!(v.resolve(".."), "/");
    assert_eq!(v.resolve("."), "/森林");
    assert_eq!(v.resolve(""), "/森林");
    assert_eq!(v.resolve("~"), "/");
    assert_eq!(v.resolve("草药"), "/森林/草药");
    assert_eq!(v.resolve("/proc/status"), "/proc/status");
    let mut r = Vfs::new("森林");
    r.set_cwd("/");
    assert_eq!(r.resolve("农场"), "/农场");
}

#[test]
fn resolved_paths_resolve_to_themselves() {
    let v = Vfs::new("森林");
    for p in ["..", ".", "", "~", "草药/../农场/./plot_0", "/a//b/", "x/y/../../..", "../.."] {
        let once = v.resolve(p);
        assert!(once.starts_with('/'));
        assert_eq!(normalize(&once), once);
        assert_eq!(v.resolve(&once), once);
    }
    assert_eq!(v.resolve("草药/../农场/./plot_0"), "/森林/农场/plot_0");
}

#[test]
fn absolute_paths_ignore_cwd() {
    let a = Vfs::new("森林");
    let b = Vfs::new("农场");
    assert_eq!(a.resolve("/黑暗洞穴/x"), b.resolve("/黑暗洞穴/x"));
}

#[test]
fn current_area_from_cwd() {
    let mut v = Vfs::new("森林");
    assert_eq!(v.current_area_from_cwd().as_deref(), Some("森林"));
    v.set_cwd("/proc");
    assert_eq!(v.current_area_from_cwd(), None);
    v.set_cwd("/");
    assert_eq!(v.current_area_from_cwd(), None);
}

#[test]
fn spawn_then_lookup() {
    let mut w = sample_world();
    assert_eq!(w.next_id(), 4);
    let id = w.spawn_entity(EntityKind::Item, "旧剑", "黑暗洞穴", vec![("gold_value", Value::Int(20))]);
    assert_eq!(id, 4);
    assert_eq!(w.next_id(), 5);
    let e = w.entity(id).unwrap();
    assert_eq!(e.name, "旧剑");
    assert_eq!(e.area, "黑暗洞穴");
    assert_eq!(e.get_int("gold_value"), 20);
    assert_eq!(e.get_str("missing"), "");
}

#[test]
fn spawn_later_property_wins() {
    let mut w = sample_world();
    let id = w.spawn_entity(
        EntityKind::Item,
        "盾牌碎片",
        "森林",
        vec![("gold_value", Value::Int(1)), ("gold_value", Value::Int(18))],
    );
    assert_eq!(w.entity(id).unwrap().get_int("gold_value"), 18);
}

#[test]
fn remove_and_take_entities() {
    let mut w = sample_world();
    let e = w.take_entity(1).unwrap();
    assert!(w.entity(1).is_none());
    w.insert_entity(e);
    assert_eq!(w.entity(1).unwrap().name, "哥布林(Lv1)");
    w.remove_entity(1);
    assert!(w.entity(1).is_none());
    assert!(w.take_entity(1).is_none());
}

#[test]
fn find_entity_case_insensitive_partial() {
    let mut w = sample_world();
    let id = w.spawn_entity(EntityKind::Monster, "Goblin(Lv2)", "森林", monster_props(10));
    assert_eq!(w.find_entity_in_area("森林", "goblin"), Some(id));
    assert_eq!(w.find_entity_in_area("森林", "GOB"), Some(id));
    assert_eq!(w.find_entity_in_area("森林", "哥布林"), Some(1));
    assert_eq!(w.find_entity_in_area("农场", "哥布林"), None);
    assert_eq!(w.find_entity_in_area("森林", "dragon"), None);
    let umlaut = w.spawn_entity(EntityKind::Npc, "ÄBC Händler", "森林", vec![]);
    assert_eq!(w.find_entity_in_area("森林", "äbc h"), Some(umlaut));
}

#[test]
fn entities_in_area_sorted_by_name() {
    let w = sample_world();
    let v: Vec<String> = w.entities_in_area("森林").iter().map(|e| e.name.clone()).collect();
    assert_eq!(v, vec!["哥布林(Lv1)", "老者", "草药"]);
    assert!(w.entities_in_area("龙之巅峰").is_empty());
}

#[test]
fn area_names_add_farm() {
    let w = sample_world();
    assert_eq!(w.area_names(), vec!["森林", "黑暗洞穴", "鬼魂废墟", "火山荒地", "龙之巅峰", FARM_AREA]);
    assert_eq!(w.find_area("鬼魂废墟").unwrap().level_req, 5);
    assert!(w.find_area("农场").is_none());
}

#[test]
fn move_player_errors() {
    let mut w = sample_world();
    assert_eq!(w.move_player("月球").unwrap_err(), "未知区域：月球");
    assert_eq!(
        w.move_player("黑暗洞穴").unwrap_err(),
        "等级不足！需要 Lv.3 才能进入 黑暗洞穴（当前 Lv.1）"
    );
    assert_eq!(w.player_area, "森林");
    assert!(w.move_player("农场").is_ok());
    assert_eq!(w.player_area, "农场");
}

#[test]
fn move_player_pays_cost_and_populates() {
    let mut w = sample_world();
    w.player.level = 3;
    let before = w.next_id();
    assert!(w.move_player("黑暗洞穴").is_ok());
    assert_eq!(w.player_area, "黑暗洞穴");
    assert_eq!(w.player.hp, 98);
    let spawned = w.next_id() - before;
    assert!((2..=5).contains(&spawned));
    let monsters = w
        .entities_in_area("黑暗洞穴")
        .iter()
        .filter(|e| e.kind == EntityKind::Monster)
        .count();
    assert!(monsters == 2 || monsters == 3);
    // A second visit finds the area populated and spawns nothing more.
    let after = w.next_id();
    assert!(w.move_player("黑暗洞穴").is_ok());
    assert_eq!(w.next_id(), after);
}

#[test]
fn populate_area_with_choice() {
    let mut w = sample_world();
    let c = PopulateChoice { monsters: vec![4, 0], npc: Some(1), item: Some(3) };
    w.populate_area_with("火山荒地", &c);
    assert_eq!(w.next_id(), 8);
    let a = w.entity(4).unwrap();
    assert_eq!(a.name, "黑暗法师(Lv8)");
    assert_eq!(a.get_int("hp"), 18 + 8 * 8);
    assert_eq!(a.get_int("gold_reward"), 12 + 8 * 6);
    assert_eq!(w.entity(5).unwrap().name, "哥布林(Lv8)");
    let npc = w.entity(6).unwrap();
    assert_eq!(npc.name, "旅行商人");
    assert_eq!(npc.get_str("dialogue"), "我这里有好东西卖，不过你现在还买不起。");
    let item = w.entity(7).unwrap();
    assert_eq!(item.name, "魔法卷轴");
    assert_eq!(item.get_int("gold_value"), 25);
    assert_eq!(item.get_str("description"), "一个魔法卷轴，价值25金币。");
    // No area of that name: nothing happens.
    w.populate_area_with("月球", &c);
    assert_eq!(w.next_id(), 8);
}

#[test]
fn new_world_populates_start_area() {
    let w = World::new(
        Player::new("a".to_string()),
        "森林",
        default_areas(),
        Farm::default_crop_types(),
        Farm::default_animal_types(),
    );
    let n = w.entities_in_area("森林").len();
    assert!((2..=5).contains(&n));
    assert_eq!(w.farm.plots.len(), 4);
    assert_eq!(w.farm.animals.len(), 3);
    assert_eq!(w.next_id() as usize, n + 1);
}

#[test]
fn ls_root_proc_area_farm() {
    let w = sample_world();
    let v = Vfs::new("森林");
    assert_eq!(
        names(&v.ls(&w, Some("/")).unwrap()),
        vec!["proc", "农场", "森林", "火山荒地", "鬼魂废墟", "黑暗洞穴", "龙之巅峰"]
    );
    assert_eq!(names(&v.ls(&w, Some("/proc")).unwrap()), vec!["status", "areas", "help"]);
    assert_eq!(names(&v.ls(&w, None).unwrap()), vec![".info", "哥布林(Lv1)", "老者", "草药"]);
    assert_eq!(
        names(&v.ls(&w, Some("/农场")).unwrap()),
        vec![".info", "plot_0", "plot_1", "plot_2", "plot_3", "鸡", "牛", "羊"]
    );
}

#[test]
fn ls_errors() {
    let w = sample_world();
    let v = Vfs::new("森林");
    assert_eq!(v.ls(&w, Some("/月球")).unwrap_err(), "ls: 月球: 区域不存在");
    assert_eq!(v.ls(&w, Some("/proc/status")).unwrap_err(), "ls: /proc/status: 不是一个目录");
    assert_eq!(v.ls(&w, Some("草药")).unwrap_err(), "ls: /森林/草药: 不是一个目录");
}

#[test]
fn cd_checks_directories() {
    let w = sample_world();
    let mut v = Vfs::new("森林");
    assert_eq!(v.cd(&w, "/农场").unwrap(), "/农场");
    assert_eq!(v.pwd(), "/农场");
    assert_eq!(v.cd(&w, "..").unwrap(), "/");
    assert_eq!(v.cd(&w, "proc").unwrap(), "/proc");
    assert_eq!(v.cd(&w, "/月球").unwrap_err(), "cd: /月球: 不是一个目录");
    assert_eq!(v.pwd(), "/proc");
}

#[test]
fn cat_files() {
    let w = sample_world();
    let v = Vfs::new("森林");
    assert_eq!(
        v.cat(&w, ".info").unwrap(),
        "名称: 森林\n描述: 宁静的树林，适合新手探索。\n等级要求: 1\n敌人等级: 1\n探索消耗HP: 0"
    );
    assert_eq!(
        v.cat(&w, "哥布林").unwrap(),
        "[怪物] 哥布林(Lv1)\nattack: 7\ndefense: 3\nexp_reward: 25\ngold_reward: 8\nhp: 30\nmax_hp: 30\n"
    );
    assert_eq!(v.cat(&w, "/农场/.info").unwrap(), "名称: 农场\n描述: 种植作物、饲养动物的地方。\n");
    assert_eq!(v.cat(&w, "/proc/help").unwrap(), HELP_TEXT);
    assert!(HELP_TEXT.starts_with("=== 命令帮助 ===\n\n基础命令（入门）:\n"));
    assert!(HELP_TEXT.ends_with("  /proc/status       查看玩家状态\n"));
}

#[test]
fn cat_errors() {
    let w = sample_world();
    let v = Vfs::new("森林");
    assert_eq!(v.cat(&w, "/").unwrap_err(), "cat: /: 是一个目录");
    assert_eq!(v.cat(&w, "/proc").unwrap_err(), "cat: /proc: 无此文件");
    assert_eq!(v.cat(&w, "/proc/nothing").unwrap_err(), "cat: /proc/nothing: 无此文件");
    assert_eq!(v.cat(&w, "/森林").unwrap_err(), "cat: /森林: 无此文件");
    assert_eq!(v.cat(&w, "/月球/x").unwrap_err(), "cat: 月球: 区域不存在");
    assert_eq!(v.cat(&w, "dragon").unwrap_err(), "cat: 森林/dragon: 无此文件");
    assert_eq!(v.cat(&w, "/农场/plot_x").unwrap_err(), "cat: 无效的地块编号: plot_x");
    assert_eq!(v.cat(&w, "/农场/plot_9").unwrap_err(), "cat: 无此文件: plot_9");
    assert_eq!(v.cat(&w, "/农场/猪").unwrap_err(), "cat: 农场/猪: 无此文件");
}

#[test]
fn proc_status_and_areas() {
    let w = sample_world();
    let v = Vfs::new("森林");
    assert_eq!(
        v.cat(&w, "/proc/status").unwrap(),
        "=== 玩家状态 ===\n角色：勇者  |  等级：1\n生命值：100/100  |  攻击：10  |  防御：5\n经验：0/100  |  金币：50g\n当前位置: 森林"
    );
    let areas = v.cat(&w, "/proc/areas").unwrap();
    assert!(areas.starts_with("=== 区域列表 ===\n  森林 (Lv.1 要求, 敌人Lv.1) ← 当前\n  黑暗洞穴 (Lv.3 要求, 敌人Lv.3)\n"));
    assert!(areas.ends_with("  龙之巅峰 (Lv.12 要求, 敌人Lv.12)\n  农场 (农场)\n"));
}

#[test]
fn cat_farm_files_at_time() {
    let mut w = sample_world();
    let t = &Farm::default_crop_types()[0];
    w.farm.plant_at(1, t, 1000).unwrap();
    let v = Vfs::new("农场");
    assert_eq!(v.cat_at(&w, "plot_0", 1000).unwrap(), "[作物] 地块 0\n状态: 空地\n");
    assert_eq!(
        v.cat_at(&w, "plot_1", 1010).unwrap(),
        "[作物] 地块 1\n作物: 小麦\n状态: 生长中...\n产出: 10 金币\n"
    );
    assert_eq!(
        v.cat_at(&w, "plot_1", 1030).unwrap(),
        "[作物] 地块 1\n作物: 小麦\n状态: 可以收获！\n产出: 10 金币\n"
    );
    assert_eq!(
        v.cat_at(&w, "牛", 0).unwrap(),
        "[动物] 牛\n状态: 空闲\n繁殖时间: 300秒\n产出: 50 金币\n"
    );
    w.farm.start_breeding_at(1, 500).unwrap();
    assert_eq!(
        v.cat_at(&w, "牛", 700).unwrap(),
        "[动物] 牛\n状态: 繁殖中...\n繁殖时间: 300秒\n产出: 50 金币\n"
    );
    assert_eq!(
        v.cat_at(&w, "牛", 800).unwrap(),
        "[动物] 牛\n状态: 可以收集！\n繁殖时间: 300秒\n产出: 50 金币\n"
    );
}

#[test]
fn find_across_areas() {
    let mut w = sample_world();
    let t = &Farm::default_crop_types()[2];
    w.farm.plant_at(2, t, 0).unwrap();
    let v = Vfs::new("森林");
    assert_eq!(v.find(&w, "林"), vec!["/森林/", "/森林/哥布林(Lv1)"]);
    assert_eq!(v.find(&w, "萝卜"), vec!["/农场/plot_2"]);
    assert_eq!(v.find(&w, "牛"), vec!["/农场/牛"]);
    assert!(v.find(&w, "dragon").is_empty());
}

#[test]
fn every_listed_file_can_be_read() {
    let w = sample_world();
    let v = Vfs::new("森林");
    for dir in ["proc", "森林", "农场"] {
        let path = format!("/{}", dir);
        for entry in v.ls(&w, Some(&path)).unwrap() {
            if let VfsEntry::File(name) = entry {
                let file = format!("/{}/{}", dir, name);
                assert!(v.cat_at(&w, &file, 1000).is_ok(), "cat {} failed", file);
            }
        }
    }
}
