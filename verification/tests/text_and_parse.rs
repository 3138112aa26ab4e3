use clg::command::{parse, Command};
use clg::text::{sort_strings, str_eq, str_is_empty};
use clg::ui::{line_content, menu_choice};

#[test]
fn menu_numbers_accept_digits_and_plus() {
    assert_eq!(menu_choice("42", 50), Some(41));
    assert_eq!(menu_choice("+7", 9), Some(6));
    assert_eq!(menu_choice("007", 9), Some(6));
}

#[test]
fn menu_numbers_reject_other_forms() {
    assert_eq!(menu_choice("", 5), None);
    assert_eq!(menu_choice("+", 5), None);
    assert_eq!(menu_choice("-1", 5), None);
    assert_eq!(menu_choice("1a", 5), None);
    assert_eq!(menu_choice("99999999999999999999999", 5), None);
}

#[test]
fn sort_strings_orders_like_str() {
    let v = vec!["农场".to_string(), "proc".to_string(), "森林".to_string(), "abc".to_string(), "ab".to_string()];
    let r = sort_strings(&v);
    assert_eq!(r, vec!["ab", "abc", "proc", "农场", "森林"]);
}

#[test]
fn str_helpers() {
    assert!(str_eq("森林", "森林"));
    assert!(!str_eq("森林", "森"));
    assert!(str_is_empty(""));
    assert!(!str_is_empty(" "));
}

#[test]
fn parse_commands_with_arguments() {
    match parse("ls /森林").unwrap() {
        Command::Ls { path } => assert_eq!(path.as_deref(), Some("/森林")),
        _ => panic!("expected ls"),
    }
    match parse("  cat .info ").unwrap() {
        Command::Cat { file } => assert_eq!(file, ".info"),
        _ => panic!("expected cat"),
    }
    // Fields are split at each white-space character, so a second space
    // leaves the first argument empty.
    match parse("cat  .info").unwrap() {
        Command::Cat { file } => assert_eq!(file, ""),
        _ => panic!("expected cat"),
    }
    match parse("cp 草药 /森林").unwrap() {
        Command::Cp { src, dst } => {
            assert_eq!(src, "草药");
            assert_eq!(dst, "/森林");
        }
        _ => panic!("expected cp"),
    }
    match parse("use 小麦 plot_0").unwrap() {
        Command::Use { item, target } => {
            assert_eq!(item, "小麦");
            assert_eq!(target.as_deref(), Some("plot_0"));
        }
        _ => panic!("expected use"),
    }
}

#[test]
fn parse_defaults_and_aliases() {
    match parse("cd").unwrap() {
        Command::Cd { path } => assert_eq!(path, "~"),
        _ => panic!("expected cd"),
    }
    assert!(matches!(parse("ls").unwrap(), Command::Ls { path: None }));
    assert!(matches!(parse("grep wolf").unwrap(), Command::Find { .. }));
    assert!(matches!(parse("exit").unwrap(), Command::Quit));
    assert!(matches!(parse("quit").unwrap(), Command::Quit));
    assert!(matches!(parse("pwd").unwrap(), Command::Pwd));
    assert!(matches!(parse("help").unwrap(), Command::Help));
    assert!(matches!(parse("save").unwrap(), Command::Save));
}

#[test]
fn parse_errors() {
    assert_eq!(parse("").err().unwrap(), "");
    assert_eq!(parse("   ").err().unwrap(), "");
    assert_eq!(parse("cat").err().unwrap(), "用法: cat <文件>");
    assert_eq!(parse("cp a").err().unwrap(), "用法: cp <源> <目标>");
    assert_eq!(parse("attack").err().unwrap(), "用法: attack <目标>");
    assert_eq!(parse("use").err().unwrap(), "用法: use <物品> [目标]");
    assert_eq!(parse("dance now").err().unwrap(), "未知命令: dance（输入 help 查看帮助）");
}

#[test]
fn parse_ignores_surrounding_space() {
    let a = parse("  talk 老者  ").unwrap();
    let b = parse("talk 老者").unwrap();
    match (a, b) {
        (Command::Talk { target: x }, Command::Talk { target: y }) => assert_eq!(x, y),
        _ => panic!("expected talk"),
    }
}

#[test]
fn menu_choice_picks_one_based_options() {
    assert_eq!(menu_choice("1", 2), Some(0));
    assert_eq!(menu_choice(" 2 ", 2), Some(1));
    assert_eq!(menu_choice("3", 2), None);
    assert_eq!(menu_choice("0", 2), None);
    assert_eq!(menu_choice("x", 2), None);
}

#[test]
fn line_content_strips_line_end() {
    assert_eq!(line_content("ls\n"), "ls");
    assert_eq!(line_content("ls\r\n"), "ls");
    assert_eq!(line_content("ls \n\n"), "ls ");
    assert_eq!(line_content("ls"), "ls");
}
