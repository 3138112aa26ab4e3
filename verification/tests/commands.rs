use clg::command::{execute_at, finish_attack, parse, ExecResult};
use clg::engine::area::default_areas;
use clg::engine::combat::{combat_setup, CombatResult};
use clg::engine::entity::{EntityKind, Value};
use clg::engine::farming::Farm;
use clg::engine::world::World;
use clg::game::{character_name, prompt, step_at, Step};
use clg::player::Player;
use clg::vfs::Vfs;

fn sample_world() -> World {
    let player = Player::new("勇者".to_string());
    let animal_types = Farm::default_animal_types();
    let farm = Farm::from_types(&animal_types, 4);
    let mut w = World::from_save(
        player,
        "森林".to_string(),
        default_areas(),
        Vec::new(),
        farm,
        Farm::default_crop_types(),
        1,
    );
    w.spawn_entity(
        EntityKind::Monster,
        "哥布林(Lv1)",
        "森林",
        vec![
            ("hp", Value::Int(30)),
            ("max_hp", Value::Int(30)),
            ("attack", Value::Int(7)),
            ("defense", Value::Int(3)),
            ("exp_reward", Value::Int(25)),
            ("gold_reward", Value::Int(8)),
        ],
    );
    w.spawn_entity(
        EntityKind::Npc,
        "老者",
        "森林",
        vec![("dialogue", Value::Str("你好，冒险者".to_string()))],
    );
    w.spawn_entity(
        EntityKind::Item,
        "草药",
        "森林",
        vec![
            ("gold_value", Value::Int(15)),
            ("description", Value::Str("一个草药，价值15金币。".to_string())),
        ],
    );
    w
}

fn run(line: &str, w: &mut World, v: &mut Vfs, now: u64) -> String {
    match execute_at(parse(line).unwrap(), w, v, now) {
        ExecResult::Output(t) => t,
        ExecResult::Done => String::new(),
        ExecResult::Quit => "<quit>".to_string(),
        ExecResult::Fight(id) => format!("<fight {}>", id),
    }
}

#[test]
fn ls_pwd_help_save_quit() {
    let mut w = sample_world();
    let mut v = Vfs::new("森林");
    assert_eq!(run("ls", &mut w, &mut v, 0), ".info  哥布林(Lv1)  老者  草药  ");
    assert_eq!(run("ls /", &mut w, &mut v, 0), "proc/  农场/  森林/  火山荒地/  鬼魂废墟/  黑暗洞穴/  龙之巅峰/  ");
    assert_eq!(run("ls /月球", &mut w, &mut v, 0), "ls: 月球: 区域不存在");
    assert_eq!(run("pwd", &mut w, &mut v, 0), "/森林");
    assert!(run("help", &mut w, &mut v, 0).starts_with("=== 命令帮助 ==="));
    assert_eq!(run("save", &mut w, &mut v, 0), "（use save in game loop）");
    assert_eq!(run("quit", &mut w, &mut v, 0), "<quit>");
}

#[test]
fn cd_moves_player() {
    let mut w = sample_world();
    let mut v = Vfs::new("森林");
    assert_eq!(run("cd /农场", &mut w, &mut v, 0), "移动到 农场");
    assert_eq!(w.player_area, "农场");
    assert_eq!(v.pwd(), "/农场");
    assert_eq!(run("cd /", &mut w, &mut v, 0), "/");
    assert_eq!(w.player_area, "农场");
    assert_eq!(run("cd /黑暗洞穴", &mut w, &mut v, 0), "等级不足！需要 Lv.3 才能进入 黑暗洞穴（当前 Lv.1）");
    assert_eq!(v.pwd(), "/农场");
    assert_eq!(run("cd /月球", &mut w, &mut v, 0), "cd: /月球: 不是一个目录");
    assert_eq!(run("cd /森林", &mut w, &mut v, 0), "移动到 森林");
    assert_eq!(run("cd /森林", &mut w, &mut v, 0), "/森林");
}

#[test]
fn cat_and_find_commands() {
    let mut w = sample_world();
    let mut v = Vfs::new("森林");
    assert_eq!(
        run("cat 草药", &mut w, &mut v, 0),
        "[物品] 草药\ndescription: 一个草药，价值15金币。\ngold_value: 15\n"
    );
    assert_eq!(run("cat 龙", &mut w, &mut v, 0), "cat: 森林/龙: 无此文件");
    assert_eq!(run("find 老", &mut w, &mut v, 0), "/森林/老者");
    assert_eq!(run("find 林", &mut w, &mut v, 0), "/森林/\n/森林/哥布林(Lv1)");
    assert_eq!(run("find xyz", &mut w, &mut v, 0), "未找到匹配 \"xyz\" 的结果。");
}

#[test]
fn cp_mv_rm_commands() {
    let mut w = sample_world();
    let mut v = Vfs::new("森林");
    assert_eq!(run("cp 草药 /农场", &mut w, &mut v, 0), "已复制 草药 到 /农场/");
    let copy = w.entity(4).unwrap();
    assert_eq!(copy.area, "农场");
    assert_eq!(copy.get_int("gold_value"), 15);
    assert_eq!(run("cp 老者 /农场", &mut w, &mut v, 0), "cp: 只能复制物品类型的实体");
    assert_eq!(run("cp 草药 /a/b", &mut w, &mut v, 0), "cp: 目标必须是一个区域目录");
    assert_eq!(run("cp /森林 /农场", &mut w, &mut v, 0), "cp: 只能复制区域内的实体文件");
    assert_eq!(run("cp 龙 /农场", &mut w, &mut v, 0), "cp: 龙: 未找到");
    assert_eq!(run("mv 老者 /黑暗洞穴", &mut w, &mut v, 0), "已移动 老者 到 /黑暗洞穴/");
    assert_eq!(w.entity(2).unwrap().area, "黑暗洞穴");
    assert_eq!(run("mv 龙 /农场", &mut w, &mut v, 0), "mv: 龙: 未找到");
    assert_eq!(run("mv 草药 /", &mut w, &mut v, 0), "mv: 目标必须是一个区域目录");
    assert_eq!(run("rm .info", &mut w, &mut v, 0), "rm: 不能删除 .info 文件");
    assert_eq!(run("rm /森林", &mut w, &mut v, 0), "rm: 只能删除区域内的实体文件");
    assert_eq!(run("rm 草药", &mut w, &mut v, 0), "已删除 草药");
    assert!(w.entity(3).is_none());
    assert_eq!(run("rm 草药", &mut w, &mut v, 0), "rm: 草药: 未找到");
}

#[test]
fn talk_and_use_items() {
    let mut w = sample_world();
    let mut v = Vfs::new("森林");
    assert_eq!(run("talk 老者", &mut w, &mut v, 0), "老者: 「你好，冒险者」");
    assert_eq!(run("talk 草药", &mut w, &mut v, 0), "草药 不是一个可以对话的NPC。");
    assert_eq!(run("talk 龙", &mut w, &mut v, 0), "talk: 未找到 \"龙\"");
    assert_eq!(run("use 老者", &mut w, &mut v, 0), "老者 不是一个可以使用的物品。");
    assert_eq!(run("use 草药", &mut w, &mut v, 0), "使用了 草药，获得 15 金币。");
    assert_eq!(w.player.gold, 65);
    assert!(w.entity(3).is_none());
    assert_eq!(run("use 草药", &mut w, &mut v, 0), "use: 未找到 \"草药\"");
    let mut p = Vfs::new("森林");
    p.set_cwd("/proc");
    assert_eq!(run("use 草药", &mut w, &mut p, 0), "use: 只能在区域目录中使用物品");
    assert_eq!(run("talk 老者", &mut w, &mut p, 0), "talk: 只能在区域目录中对话");
}

#[test]
fn npc_without_dialogue() {
    let mut w = sample_world();
    w.spawn_entity(EntityKind::Npc, "隐士", "森林", vec![]);
    let mut v = Vfs::new("森林");
    assert_eq!(run("talk 隐士", &mut w, &mut v, 0), "隐士: ......");
}

#[test]
fn use_on_the_farm() {
    let mut w = sample_world();
    w.player_area = "农场".to_string();
    let mut v = Vfs::new("农场");
    assert_eq!(run("use 小麦 plot_0", &mut w, &mut v, 100), "已种植 小麦 到地块 0。");
    assert_eq!(run("use 小麦 plot_0", &mut w, &mut v, 100), "该地块已被占用。");
    assert_eq!(run("use 小麦 plot_9", &mut w, &mut v, 100), "无效地块索引。");
    assert_eq!(run("use 玉米 plot_1", &mut w, &mut v, 100), "未知作物类型: 玉米");
    assert_eq!(run("use plot_0", &mut w, &mut v, 110), "作物尚未成熟，或地块为空。");
    assert_eq!(run("use plot_0", &mut w, &mut v, 130), "收获成功！获得 10 金币。");
    assert_eq!(w.player.gold, 60);
    assert_eq!(run("use plot_0", &mut w, &mut v, 130), "作物尚未成熟，或地块为空。");
    assert_eq!(run("use 鸡", &mut w, &mut v, 200), "鸡 开始繁殖！");
    assert_eq!(run("use 鸡", &mut w, &mut v, 250), "鸡 正在繁殖中...");
    assert_eq!(run("use 鸡", &mut w, &mut v, 320), "收集 鸡 成功！获得 15 金币。");
    assert_eq!(w.player.gold, 75);
    assert!(run("use 什么", &mut w, &mut v, 0).starts_with("use: 在农场中，使用方式："));
}

#[test]
fn attack_checks_and_finish() {
    let mut w = sample_world();
    let mut v = Vfs::new("森林");
    assert_eq!(run("attack 老者", &mut w, &mut v, 0), "attack: 只能攻击怪物类型的实体");
    assert_eq!(run("attack 龙", &mut w, &mut v, 0), "attack: 未找到目标 \"龙\"");
    assert_eq!(run("attack 哥布林", &mut w, &mut v, 0), "<fight 1>");
    let mut f = Vfs::new("农场");
    assert_eq!(run("attack 鸡", &mut w, &mut f, 0), "attack: 不能在农场攻击");

    let setup = combat_setup(w.entity(1).unwrap());
    assert_eq!(setup.enemy_hp, 30);
    assert_eq!(setup.enemy_def, 3);
    assert_eq!(setup.exp_reward, 25);

    let msg = finish_attack(&mut w, 1, 12, CombatResult::Fled);
    assert_eq!(msg, "你安全逃脱了。");
    assert_eq!(w.entity(1).unwrap().get_int("hp"), 12);

    let msg = finish_attack(&mut w, 1, 5, CombatResult::Defeat);
    assert_eq!(msg, "你被击败了...生命值恢复至 1 点。");
    assert_eq!(w.player.hp, 1);
    assert_eq!(w.entity(1).unwrap().get_int("hp"), 5);

    let msg = finish_attack(&mut w, 1, 0, CombatResult::Victory { exp: 120, gold: 8 });
    assert_eq!(msg, "胜利！获得 120 经验和 8 金币。 升级了！当前等级 2！");
    assert_eq!(w.player.gold, 58);
    assert_eq!(w.player.level, 2);
    assert_eq!(w.player.exp, 20);
    assert!(w.entity(1).is_none());
}

#[test]
fn game_step_and_prompt() {
    let mut w = sample_world();
    let mut v = Vfs::new("森林");
    assert_eq!(prompt(&w, &v), "勇者@森林 /森林 $ ");
    assert!(matches!(step_at("   ", &mut w, &mut v, 0), Step::Idle));
    assert!(matches!(step_at("save", &mut w, &mut v, 0), Step::Save));
    assert!(matches!(step_at("exit", &mut w, &mut v, 0), Step::Quit));
    match step_at("bogus", &mut w, &mut v, 0) {
        Step::Show(t) => assert_eq!(t, "未知命令: bogus（输入 help 查看帮助）"),
        _ => panic!("expected an error message"),
    }
    match step_at(" pwd ", &mut w, &mut v, 0) {
        Step::Show(t) => assert_eq!(t, "/森林"),
        _ => panic!("expected output"),
    }
    assert!(matches!(step_at("attack 哥布林", &mut w, &mut v, 0), Step::Fight(1)));
}

#[test]
fn new_character_names() {
    assert_eq!(character_name("  阿明 \n"), "阿明");
    assert_eq!(character_name("   "), "勇者");
    assert_eq!(character_name(""), "勇者");
}
