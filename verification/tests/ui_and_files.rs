use clg::actions::ActionMap;
use clg::engine::farming::{Animal, Crop};
use clg::player::Player;
use clg::ui_template::{
    ansi_color, glob_matches, pad_center, pad_left, pad_right, render_expressions, render_table_row,
    render_template, resolve_binding, resolve_expr, scope_matches, visible_width, UiContext, UiTemplate,
};
use clg::world::{
    crop_to_fs_plot_at, effective_action_map, farm_from_files, fs_animal_of, fs_plot_to_crop,
    is_internal_file, search_file, translate_notify_event, EventKindModel, EventPath, FsPlot, NotifyEvent,
    WorldEvent,
};

fn ctx(p: &Player) -> UiContext<'_> {
    UiContext { player: p, current_area: "森林", includes: vec![("res".to_string(), "金:50".to_string())] }
}

fn path(parts: &[&str]) -> EventPath {
    EventPath { components: parts.iter().map(|s| s.to_string()).collect(), name_is_utf8: true }
}

fn world_dir() -> Vec<String> {
    vec!["/".to_string(), "game".to_string(), "world".to_string()]
}

#[test]
fn colors_widths_and_padding() {
    assert_eq!(ansi_color("x", 255, 0, 16), "\x1b[38;2;255;0;16mx\x1b[0m");
    assert_eq!(visible_width("ab"), 2);
    assert_eq!(visible_width("森林"), 4);
    assert_eq!(visible_width("\x1b[31mab\x1b[0m"), 2);
    assert_eq!(visible_width("\u{2764}\u{FE0F}"), 2);
    assert_eq!(pad_right("ab", 2, 5), "ab   ");
    assert_eq!(pad_left("ab", 2, 5), "   ab");
    assert_eq!(pad_center("ab", 2, 7), "  ab   ");
    assert_eq!(pad_center("abcdef", 6, 3), "abcdef");
}

#[test]
fn bindings_and_expressions() {
    let p = Player::new("勇者".to_string());
    let c = ctx(&p);
    assert_eq!(resolve_binding("$player.name", &c), "勇者");
    assert_eq!(resolve_binding(" $player.health ", &c), "100");
    assert_eq!(resolve_binding("$player.mana", &c), "—");
    assert_eq!(resolve_binding("$CURRENT_AREA.name", &c), "森林");
    assert_eq!(resolve_binding("$player.luck", &c), "[?$player.luck]");
    let env = vec![("lv".to_string(), "$player.level".to_string())];
    assert_eq!(resolve_expr(" $lv ", &env, &c), "1");
    assert_eq!(resolve_expr("$player.gold", &env, &c), "50");
    assert_eq!(resolve_expr("res", &env, &c), "金:50");
    assert_eq!(resolve_expr("plain", &env, &c), "plain");
    assert_eq!(render_expressions("Lv.${{ $lv }}!", &env, &c), "Lv.1!");
    assert_eq!(render_expressions("$ff0000{{ $player.name }}", &env, &c), "\x1b[38;2;255;0;0m勇者\x1b[0m");
    assert_eq!(render_expressions("cost $5 ${{ unclosed", &env, &c), "cost $5 ${{ unclosed");
    // a `$` that opens no pattern is kept, whatever characters follow it
    assert_eq!(render_expressions("$a中文字", &env, &c), "$a中文字");
    let t = UiTemplate {
        scope: "/".to_string(),
        exclude: Vec::new(),
        env: Vec::new(),
        include_names: Vec::new(),
        content: "$a中文字".to_string(),
    };
    assert_eq!(render_template(&t, &c), "$a中文字\n");
}

#[test]
fn table_rows_and_templates() {
    let p = Player::new("勇者".to_string());
    let c = ctx(&p);
    let env: Vec<(String, String)> = Vec::new();
    let row = render_table_row("|a-|-b|", &env, &c);
    assert_eq!(row, format!("a{}{}b", " ".repeat(24), " ".repeat(24)));
    let t = UiTemplate {
        scope: "/".to_string(),
        exclude: vec!["home/*".to_string()],
        env: vec![("n".to_string(), "$player.name".to_string())],
        include_names: Vec::new(),
        content: "---\n[ ${{ $n }} ]\n\nhp ${{ $player.hp }}\n".to_string(),
    };
    let out = render_template(&t, &c);
    let expected = format!("{}\n{}勇者{}\nhp 100\n", "─".repeat(50), " ".repeat(23), " ".repeat(23));
    assert_eq!(out, expected);
    assert!(scope_matches(&t, "森林"));
    assert!(!scope_matches(&t, "home/x"));
    let scoped = UiTemplate { scope: "/dungeon".to_string(), exclude: Vec::new(), env: Vec::new(), include_names: Vec::new(), content: String::new() };
    assert!(scope_matches(&scoped, "/dungeon/level1"));
    assert!(!scope_matches(&scoped, "/town"));
}

#[test]
fn glob_star_stays_in_one_segment() {
    assert!(glob_matches("home/*", "home/x"));
    assert!(glob_matches("home/*", "home/"));
    assert!(!glob_matches("home/*", "town/x"));
    assert!(glob_matches("*.yaml", "a.yaml"));
    assert!(!glob_matches("home/*", "home/x/y"));
}

#[test]
fn internal_files() {
    assert!(is_internal_file("area.yaml"));
    assert!(is_internal_file("player.yaml"));
    assert!(is_internal_file("x.template.json"));
    assert!(!is_internal_file("goblin.yaml"));
}

#[test]
fn notify_events_translate() {
    let w = world_dir();
    let moved = NotifyEvent {
        kind: EventKindModel::RenameBoth,
        paths: vec![path(&["/", "game", "world", "森林", "player.yaml"]), path(&["/", "game", "world", "农场", "player.yaml"])],
    };
    match translate_notify_event(&moved, &w).as_slice() {
        [WorldEvent::PlayerMoved { to_area }] => assert_eq!(to_area, "农场"),
        _ => panic!("expected a player move"),
    }
    let renamed = NotifyEvent {
        kind: EventKindModel::RenameBoth,
        paths: vec![path(&["/", "game", "world", "森林", "wolf.yaml"]), path(&["/", "game", "world", "农场", "wolf.yaml"])],
    };
    match translate_notify_event(&renamed, &w).as_slice() {
        [WorldEvent::EntityRemoved { area: a, filename: f }, WorldEvent::EntityCreated { area: b, filename: g }] => {
            assert_eq!((a.as_str(), f.as_str(), b.as_str(), g.as_str()), ("森林", "wolf.yaml", "农场", "wolf.yaml"));
        }
        _ => panic!("expected remove then create"),
    }
    let ui = NotifyEvent { kind: EventKindModel::CreateOrModifyData, paths: vec![path(&["/", "game", "world", "config", "ui.yaml"])] };
    match translate_notify_event(&ui, &w).as_slice() {
        [WorldEvent::TemplateChanged { path }] => assert_eq!(path, "config/ui.yaml"),
        _ => panic!("expected a template change"),
    }
    let internal = NotifyEvent { kind: EventKindModel::Remove, paths: vec![path(&["/", "game", "world", "森林", "area.yaml"])] };
    assert!(translate_notify_event(&internal, &w).is_empty());
    let outside = NotifyEvent { kind: EventKindModel::CreateOrModifyData, paths: vec![path(&["/", "tmp", "x.yaml"])] };
    assert!(translate_notify_event(&outside, &w).is_empty());
    let other = NotifyEvent { kind: EventKindModel::Other, paths: vec![path(&["/", "game", "world", "森林", "x.yaml"])] };
    assert!(translate_notify_event(&other, &w).is_empty());
}

#[test]
fn farm_files_round_trip() {
    let c = Crop { name: "小麦".to_string(), grow_time_secs: 30, yield_gold: 10, planted_at_secs: None };
    match crop_to_fs_plot_at(Some(&c), 77) {
        FsPlot::Occupied { crop_name, planted_at_secs, .. } => {
            assert_eq!(crop_name, "小麦");
            assert_eq!(planted_at_secs, 77);
        }
        FsPlot::Empty => panic!("expected a crop"),
    }
    assert!(matches!(crop_to_fs_plot_at(None, 77), FsPlot::Empty));
    let back = fs_plot_to_crop(crop_to_fs_plot_at(Some(&c), 77)).unwrap();
    assert_eq!(back.planted_at_secs, Some(77));
    assert!(fs_plot_to_crop(FsPlot::Empty).is_none());
    let a = Animal { name: "牛".to_string(), breed_time_secs: 300, yield_gold: 50, breeding: true, breed_started_at_secs: Some(5) };
    let kept = fs_animal_of(&a, true);
    assert!(kept.breeding);
    assert_eq!(kept.breed_started_at_secs, Some(5));
    let reset = fs_animal_of(&a, false);
    assert!(!reset.breeding);
    assert_eq!(reset.breed_started_at_secs, None);
    let template = clg::engine::farming::Farm::from_types(&clg::engine::farming::Farm::default_animal_types(), 2);
    let farm = farm_from_files(&template, vec![Some(crop_to_fs_plot_at(Some(&c), 9)), None], vec![None, Some(fs_animal_of(&a, true)), None]);
    assert_eq!(farm.plots.len(), 2);
    assert_eq!(farm.plots[0].as_ref().unwrap().planted_at_secs, Some(9));
    assert!(farm.plots[1].is_none());
    assert!(!farm.animals[0].breeding);
    assert!(farm.animals[1].breeding);
}

#[test]
fn area_action_maps_merge() {
    let area = ActionMap(vec![("go".to_string(), "ls .".to_string())]);
    let m = effective_action_map(None, Some(area));
    assert!(matches!(m.match_input("go"), Some(clg::actions::BuiltinCmd::Ls { path: None })));
    let g = ActionMap(vec![("x".to_string(), "quit".to_string())]);
    let only = effective_action_map(Some(g), None);
    assert_eq!(only.display_list().len(), 1);
}

#[test]
fn search_file_matches_name_and_lines() {
    let hit = search_file("Wolf.yaml", Some("name: 狼\nhp: 10\nWOLF pack"), "wolf").unwrap();
    assert_eq!(hit.0, "Wolf.yaml");
    assert_eq!(hit.1, vec![(3, "WOLF pack".to_string())]);
    let by_line = search_file("a.yaml", Some("x\nhp: 10"), "HP").unwrap();
    assert_eq!(by_line.1, vec![(2, "hp: 10".to_string())]);
    assert!(search_file("a.yaml", None, "zzz").is_none());
}

#[test]
fn default_ui_template_is_yaml_for_every_scope() {
    let v: serde_yaml::Value = serde_yaml::from_str(clg::ui_template::DEFAULT_UI_TEMPLATE).unwrap();
    assert_eq!(v.get("scope").and_then(|s| s.as_str()), Some("/"));
    let content = v.get("content").and_then(|s| s.as_str()).unwrap();
    assert!(content.starts_with("---\n"));
    assert!(content.contains("${{ $CURRENT_AREA.name }}"));
}
