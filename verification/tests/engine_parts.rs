use clg::actions::{parse_builtin, ActionMap, BuiltinCmd};
use clg::engine::area::default_areas;
use clg::engine::combat::{combat_round, generate_monsters, CombatResult};
use clg::engine::entity::{Entity, EntityKind, Value};
use clg::engine::farming::{CropType, Farm};
use clg::exploration::{explore, explore_with, get_areas, ExploreResult};
use clg::persistence::{load_areas, load_crop_types, load_game, SaveData};
use clg::player::Player;
use clg::scheduler::Scheduler;
use clg::template::{builtin_templates, is_template_filename};

#[test]
fn player_damage_heal_and_levels() {
    let mut p = Player::new("勇者".to_string());
    p.take_damage(30);
    assert_eq!(p.hp, 70);
    p.take_damage(500);
    assert_eq!(p.hp, 0);
    assert!(!p.is_alive());
    p.heal(40);
    assert_eq!(p.hp, 40);
    p.heal(1000);
    assert_eq!(p.hp, 100);
    assert!(!p.gain_exp(99));
    assert!(p.gain_exp(1));
    assert_eq!((p.level, p.exp, p.exp_to_next, p.max_hp, p.hp, p.attack, p.defense), (2, 0, 200, 120, 120, 13, 7));
    assert_eq!(
        p.status_display(),
        "角色：勇者  |  等级：2\n生命值：120/120  |  攻击：13  |  防御：7\n经验：0/200  |  金币：50g"
    );
}

#[test]
fn entity_properties_and_display() {
    let mut e = Entity { id: 9, kind: EntityKind::Npc, name: "隐士".to_string(), area: "森林".to_string(), state: Vec::new() };
    e.set_int("age", 90);
    e.set_str("dialogue", "……");
    e.set_bool("wise", true);
    e.set_int("age", 91);
    assert_eq!(e.get_int("age"), 91);
    assert_eq!(e.get_str("dialogue"), "……");
    assert!(e.get_bool("wise"));
    assert_eq!(e.get_int("dialogue"), 0);
    assert!(!e.get_bool("missing"));
    assert_eq!(e.to_display(), "[NPC] 隐士\nage: 91\ndialogue: ……\nwise: 是\n");
    assert_eq!(EntityKind::Item.label(), "物品");
    assert_eq!(Value::Bool(false).to_text(), "否");
    assert_eq!(Value::Int(-3).to_text(), "-3");
}

#[test]
fn monsters_scale_with_level() {
    let m = generate_monsters(2);
    assert_eq!(m.len(), 5);
    assert_eq!(m[0].0, "哥布林(Lv2)");
    assert_eq!(m[0].1, vec![("hp", 40), ("max_hp", 40), ("attack", 9), ("defense", 4), ("exp_reward", 35), ("gold_reward", 11)]);
    assert_eq!(m[4].0, "黑暗法师(Lv2)");
    assert_eq!(m[4].1[4], ("exp_reward", 71));
}

#[test]
fn combat_round_outcomes() {
    let mut p = Player::new("a".to_string());
    let mut hp = 20;
    let (msgs, r) = combat_round(&mut p, "狼", &mut hp, 10, 3, false, false, 8, 5);
    assert_eq!(msgs, vec!["你对 狼 造成了 8 点伤害。", "狼 对你造成了 5 点伤害。"]);
    assert!(r.is_none());
    assert_eq!((hp, p.hp), (12, 95));
    let (msgs, r) = combat_round(&mut p, "狼", &mut hp, 10, 3, false, false, 50, 5);
    assert_eq!(msgs, vec!["你对 狼 造成了 50 点伤害。", "你击败了 狼！"]);
    assert!(matches!(r, Some(CombatResult::Victory { exp: 10, gold: 3 })));
    assert_eq!(hp, 0);
    let mut hp2 = 20;
    let (msgs, r) = combat_round(&mut p, "狼", &mut hp2, 10, 3, true, true, 0, 0);
    assert_eq!(msgs, vec!["你成功逃脱了！"]);
    assert!(matches!(r, Some(CombatResult::Fled)));
    let (msgs, r) = combat_round(&mut p, "狼", &mut hp2, 10, 3, true, false, 0, 200);
    assert_eq!(msgs, vec!["逃跑失败！", "狼 对你造成了 200 点伤害。", "你被击败了..."]);
    assert!(matches!(r, Some(CombatResult::Defeat)));
    assert_eq!(p.hp, 0);
}

#[test]
fn farm_plant_harvest_breed_collect() {
    let types = Farm::default_animal_types();
    let mut f = Farm::from_types(&types, 2);
    let wheat = &Farm::default_crop_types()[0];
    assert_eq!(f.plant_at(5, wheat, 0).unwrap_err(), "无效地块索引。");
    f.plant_at(0, wheat, 100).unwrap();
    assert_eq!(f.plant_at(0, wheat, 100).unwrap_err(), "该地块已被占用。");
    assert_eq!(f.harvest_at(0, 129), None);
    assert_eq!(f.harvest_at(0, 130), Some(10));
    assert!(f.plots[0].is_none());
    assert_eq!(f.harvest_at(7, 130), None);
    f.start_breeding_at(2, 10).unwrap();
    assert_eq!(f.start_breeding_at(2, 10).unwrap_err(), "羊 已经在繁殖中了。");
    assert_eq!(f.start_breeding_at(9, 10).unwrap_err(), "无效动物索引。");
    assert_eq!(f.collect_animal_at(2, 100), None);
    assert_eq!(f.collect_animal_at(2, 190), Some(25));
    assert!(!f.animals[2].breeding);
    assert_eq!(f.collect_animal_at(2, 1000), None);
}

#[test]
fn farm_clock_operations() {
    let types = Farm::default_animal_types();
    let mut f = Farm::from_types(&types, 1);
    let slow = CropType { name: "松树".to_string(), grow_time_secs: 1_000_000_000, yield_gold: 1 };
    f.plant(0, &slow).unwrap();
    assert!(f.plots[0].as_ref().unwrap().planted_at_secs.is_some());
    assert!(!f.plots[0].as_ref().unwrap().is_ready());
    assert_eq!(f.harvest(0), None);
    f.start_breeding(0).unwrap();
    assert!(!f.animals[0].is_ready());
    assert_eq!(f.collect_animal(0), None);
}

#[test]
fn legacy_farm() {
    let mut f = clg::farming::Farm::new();
    let types = clg::farming::Farm::get_crop_types();
    assert!(!types.is_empty());
    assert!(f.plant_at(0, 0, 50).is_ok());
    assert!(f.plant_at(0, 0, 50).is_err());
    let grow = types[0].1;
    assert_eq!(f.harvest_at(0, 50 + grow - 1), None);
    assert_eq!(f.harvest_at(0, 50 + grow), Some(types[0].2));
    assert!(f.start_breeding_at(0, 0).is_ok());
    assert!(f.start_breeding_at(0, 0).is_err());
}

#[test]
fn scheduler_lifecycle() {
    let sec: u128 = 1_000_000_000;
    let mut s = Scheduler::new();
    let a = s.add_task_at("收获".to_string(), 10, 100 * sec);
    let b = s.add_task_at("喂食".to_string(), 50, 100 * sec);
    assert_eq!((a, b), (1, 2));
    assert!(!s.is_task_completed(a));
    // one nanosecond before the due time is still too early
    s.tick(110 * sec - 1);
    assert!(!s.is_task_completed(a));
    s.tick(110 * sec);
    assert!(s.is_task_completed(a));
    assert!(!s.is_task_completed(b));
    assert_eq!(s.get_completed_tasks(), vec![1]);
    s.remove_task(a);
    assert!(!s.is_task_completed(a));
    assert!(s.get_completed_tasks().is_empty());
    let c = s.add_task("clock".to_string(), 0);
    assert_eq!(c, 3);
    s.tick_now();
    assert!(s.is_task_completed(c));
    let d = s.add_task("later".to_string(), 3600);
    s.tick_now();
    assert!(!s.is_task_completed(d));
    assert!(!s.is_task_completed(99));
}

#[test]
fn builtin_parsing() {
    assert!(matches!(parse_builtin("ls ."), Some(BuiltinCmd::Ls { path: None })));
    match parse_builtin("ls 森林") {
        Some(BuiltinCmd::Ls { path }) => assert_eq!(path.as_deref(), Some("森林")),
        _ => panic!("expected ls"),
    }
    match parse_builtin("cd") {
        Some(BuiltinCmd::Cd { path }) => assert_eq!(path, "~"),
        _ => panic!("expected cd"),
    }
    match parse_builtin("echo hello world > note.txt") {
        Some(BuiltinCmd::EchoTo { content, file }) => {
            assert_eq!(content, "hello world");
            assert_eq!(file, "note.txt");
        }
        _ => panic!("expected echo"),
    }
    assert!(parse_builtin("echo nothing").is_none());
    assert!(matches!(parse_builtin("status"), Some(BuiltinCmd::Status)));
    assert!(parse_builtin("fly").is_none());
    assert!(parse_builtin("  ").is_none());
}

#[test]
fn action_map_matching() {
    let m = ActionMap::default_map();
    match m.match_input("GO 森林") {
        Some(BuiltinCmd::Cd { path }) => assert_eq!(path, "森林"),
        _ => panic!("expected cd"),
    }
    match m.match_input("go home") {
        Some(BuiltinCmd::Cd { path }) => assert_eq!(path, "~"),
        _ => panic!("longest key should win"),
    }
    assert!(matches!(m.match_input("open world"), Some(BuiltinCmd::Ls { path: None })));
    assert!(m.match_input("dance").is_none());
    assert!(m.match_input("").is_none());
}

#[test]
fn action_map_merge_listing_and_yaml() {
    let mut m = ActionMap(vec![("b".to_string(), "quit".to_string()), ("a".to_string(), "save".to_string())]);
    let other = ActionMap(vec![("b".to_string(), "rest".to_string()), ("c".to_string(), "farm".to_string())]);
    m.merge(&other);
    let list = m.display_list();
    assert_eq!(
        list,
        vec![
            ("a".to_string(), "save".to_string()),
            ("b".to_string(), "rest".to_string()),
            ("c".to_string(), "farm".to_string())
        ]
    );
    assert_eq!(m.to_yaml().unwrap(), "a: save\nb: rest\nc: farm\n");
}

#[test]
fn exploration_outcomes() {
    let p = Player::new("a".to_string());
    assert_eq!(get_areas().len(), 5);
    assert_eq!(explore_with(&p, 9, 1, 0, 5).err().unwrap(), "Invalid area.");
    assert_eq!(explore_with(&p, 1, 1, 0, 5).err().unwrap(), "You need to be level 3 to explore Dark Caves.");
    match explore_with(&p, 0, 50, 1, 5).unwrap() {
        ExploreResult::Enemy(e) => assert_eq!(e.name, "狼（Lv1）"),
        _ => panic!("expected an enemy"),
    }
    assert!(matches!(explore_with(&p, 0, 70, 0, 12).unwrap(), ExploreResult::Gold(12)));
    match explore_with(&p, 0, 85, 2, 5).unwrap() {
        ExploreResult::Item(i) => assert_eq!(i, "Health Potion"),
        _ => panic!("expected an item"),
    }
    assert!(matches!(explore_with(&p, 0, 86, 0, 5).unwrap(), ExploreResult::Nothing));
    match explore(&p, 0).unwrap() {
        ExploreResult::Gold(g) => assert!((5..=30).contains(&g)),
        _ => {}
    }
}

#[test]
fn templates() {
    assert!(is_template_filename("enemy.template.json"));
    assert!(!is_template_filename("enemy.json"));
    let t = builtin_templates();
    assert_eq!(t.len(), 5);
    assert_eq!(t[0].0, "player.template.json");
    assert!(t.iter().all(|(n, _)| is_template_filename(n)));
}

#[test]
fn config_fallbacks() {
    assert_eq!(load_areas(None).len(), 5);
    assert_eq!(load_areas(Some(Vec::new()))[0].name, "森林");
    let custom = vec![default_areas().remove(2)];
    assert_eq!(load_areas(Some(custom))[0].name, "鬼魂废墟");
    let crops = load_crop_types(None);
    assert_eq!(
        crops.iter().map(|c| (c.name.as_str(), c.grow_time_secs, c.yield_gold)).collect::<Vec<_>>(),
        vec![("小麦", 30, 10), ("土豆", 60, 25), ("胡萝卜", 45, 18)]
    );
}

#[test]
fn load_game_checks_entities() {
    let types = Farm::default_animal_types();
    let areas = default_areas();
    let crops = Farm::default_crop_types();
    assert!(load_game(None, &areas, &crops).is_none());
    let e1 = Entity { id: 1, kind: EntityKind::Item, name: "草药".to_string(), area: "森林".to_string(), state: vec![("gold_value".to_string(), Value::Int(15))] };
    let e2 = Entity { id: 1, kind: EntityKind::Item, name: "旧剑".to_string(), area: "森林".to_string(), state: Vec::new() };
    let bad = SaveData { player: Player::new("a".to_string()), player_area: "森林".to_string(), entities: vec![e1, e2], farm: Farm::from_types(&types, 4), next_id: 3 };
    assert!(load_game(Some(bad), &areas, &crops).is_none());
    let e3 = Entity { id: 2, kind: EntityKind::Item, name: "旧剑".to_string(), area: "森林".to_string(), state: Vec::new() };
    let e4 = Entity { id: 1, kind: EntityKind::Item, name: "草药".to_string(), area: "森林".to_string(), state: vec![("gold_value".to_string(), Value::Int(15))] };
    let good = SaveData { player: Player::new("b".to_string()), player_area: "农场".to_string(), entities: vec![e4, e3], farm: Farm::from_types(&types, 4), next_id: 3 };
    let w = load_game(Some(good), &areas, &crops).unwrap();
    assert_eq!(w.player.name, "b");
    assert_eq!(w.player_area, "农场");
    assert_eq!(w.next_id(), 3);
    assert_eq!(w.entity(1).unwrap().get_int("gold_value"), 15);
    assert_eq!(w.areas.len(), 5);
}
