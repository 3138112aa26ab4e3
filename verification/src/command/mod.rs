//! Command system.
//!
//! Commands operate on the interface layer (the virtual file system), which
//! in turn translates them to engine operations.
//!
//! Command hierarchy: basic (`ls`, `cd`, `pwd`), information (`cat`,
//! `find`), operations (`cp`, `mv`, `rm`), extended (`attack`, `talk`,
//! `use`) and system (`save`, `help`, `quit`).

use vstd::prelude::*;
use vstd::string::*;
use crate::engine::area::FARM_AREA;
use crate::engine::entity::{
    entity_view, int_prop, lemma_pairs_map_state, prop_pairs, state_pairs, str_prop, EntityId,
    EntityKind, EntityView, Value, ValueView,
};
use crate::engine::combat::CombatResult;
use crate::engine::current_unix_secs;
use crate::engine::farming::{
    animal_names, breed_outcome, collect_outcome, harvest_outcome, plant_outcome, unit_result, CropType,
};
use crate::player::{leveled, level_up_fits, Player};
use crate::engine::world::{area_names_spec, is_area_listing, move_outcome, World};
use crate::text::{
    chars_of, dec_nat, first_where, eq_vec, find_ws_from, has_prefix, join, parse_usize, parse_usize_spec,
    push_dec, slice_vec, starts_with_vec, str_eq, str_views, string_of, string_of_range, trim, trim_vec,
    unicode_lower, ws_pred,
};
use crate::vfs::{
    area_of_cwd, cat_outcome, entity_matches, split_path, find_hits, is_directory_spec, listing_result, ls_outcome, resolve_spec,
    split_path_spec, Vfs, VfsEntry,
};

verus! {

/// A parsed command.
#[derive(Debug)]
pub enum Command {
    Ls { path: Option<String> },
    Cd { path: String },
    Pwd,
    Cat { file: String },
    Find { pattern: String },
    Cp { src: String, dst: String },
    Mv { src: String, dst: String },
    Rm { path: String },
    Attack { target: String },
    Talk { target: String },
    Use { item: String, target: Option<String> },
    Save,
    Help,
    Quit,
}

/// The mathematical value of a [`Command`].
pub enum CommandModel {
    Ls { path: Option<Seq<char>> },
    Cd { path: Seq<char> },
    Pwd,
    Cat { file: Seq<char> },
    Find { pattern: Seq<char> },
    Cp { src: Seq<char>, dst: Seq<char> },
    Mv { src: Seq<char>, dst: Seq<char> },
    Rm { path: Seq<char> },
    Attack { target: Seq<char> },
    Talk { target: Seq<char> },
    Use { item: Seq<char>, target: Option<Seq<char>> },
    Save,
    Help,
    Quit,
}

/// The view of an optional string.
pub open spec fn opt_str(o: Option<String>) -> Option<Seq<char>> {
    match o {
        Some(s) => Some(s@),
        None => None,
    }
}

impl View for Command {
    type V = CommandModel;

    open spec fn view(&self) -> CommandModel {
        match self {
            Command::Ls { path } => CommandModel::Ls { path: opt_str(*path) },
            Command::Cd { path } => CommandModel::Cd { path: path@ },
            Command::Pwd => CommandModel::Pwd,
            Command::Cat { file } => CommandModel::Cat { file: file@ },
            Command::Find { pattern } => CommandModel::Find { pattern: pattern@ },
            Command::Cp { src, dst } => CommandModel::Cp { src: src@, dst: dst@ },
            Command::Mv { src, dst } => CommandModel::Mv { src: src@, dst: dst@ },
            Command::Rm { path } => CommandModel::Rm { path: path@ },
            Command::Attack { target } => CommandModel::Attack { target: target@ },
            Command::Talk { target } => CommandModel::Talk { target: target@ },
            Command::Use { item, target } => CommandModel::Use {
                item: item@,
                target: opt_str(*target),
            },
            Command::Save => CommandModel::Save,
            Command::Help => CommandModel::Help,
            Command::Quit => CommandModel::Quit,
        }
    }
}

/// Fields of `s.splitn(3, char::is_whitespace)`: the first, and the
/// optional second and third.
pub open spec fn ws_fields(s: Seq<char>) -> (Seq<char>, Option<Seq<char>>, Option<Seq<char>>) {
    let i0 = first_where(s, ws_pred());
    if i0 >= s.len() {
        (s, None, None)
    } else {
        let rest = s.skip((i0 + 1) as int);
        let i1 = first_where(rest, ws_pred());
        if i1 >= rest.len() {
            (s.take(i0 as int), Some(rest), None)
        } else {
            (s.take(i0 as int), Some(rest.take(i1 as int)), Some(rest.skip((i1 + 1) as int)))
        }
    }
}

/// Trim an optional field.
pub open spec fn opt_trim(o: Option<Seq<char>>) -> Option<Seq<char>> {
    match o {
        Some(s) => Some(trim(s)),
        None => None,
    }
}

/// The required argument, or the usage message.
pub open spec fn need(o: Option<Seq<char>>, usage: Seq<char>) -> Result<Seq<char>, Seq<char>> {
    match o {
        Some(s) => Ok(s),
        None => Err(usage),
    }
}

/// What [`parse`] returns for `input`.
pub open spec fn parse_result(input: Seq<char>) -> Result<CommandModel, Seq<char>> {
    let s = trim(input);
    let f = ws_fields(s);
    let cmd = f.0;
    let a1 = opt_trim(f.1);
    let a2 = opt_trim(f.2);
    if s.len() == 0 {
        Err(Seq::empty())
    } else if cmd == "ls"@ {
        Ok(CommandModel::Ls { path: a1 })
    } else if cmd == "cd"@ {
        Ok(
            CommandModel::Cd {
                path: match a1 {
                    Some(p) => p,
                    None => "~"@,
                },
            },
        )
    } else if cmd == "pwd"@ {
        Ok(CommandModel::Pwd)
    } else if cmd == "cat"@ {
        match need(a1, "用法: cat <文件>"@) {
            Ok(file) => Ok(CommandModel::Cat { file }),
            Err(e) => Err(e),
        }
    } else if cmd == "find"@ || cmd == "grep"@ {
        match need(a1, "用法: find <关键词>"@) {
            Ok(pattern) => Ok(CommandModel::Find { pattern }),
            Err(e) => Err(e),
        }
    } else if cmd == "cp"@ {
        match (need(a1, "用法: cp <源> <目标>"@), need(a2, "用法: cp <源> <目标>"@)) {
            (Ok(src), Ok(dst)) => Ok(CommandModel::Cp { src, dst }),
            _ => Err("用法: cp <源> <目标>"@),
        }
    } else if cmd == "mv"@ {
        match (need(a1, "用法: mv <源> <目标>"@), need(a2, "用法: mv <源> <目标>"@)) {
            (Ok(src), Ok(dst)) => Ok(CommandModel::Mv { src, dst }),
            _ => Err("用法: mv <源> <目标>"@),
        }
    } else if cmd == "rm"@ {
        match need(a1, "用法: rm <文件>"@) {
            Ok(path) => Ok(CommandModel::Rm { path }),
            Err(e) => Err(e),
        }
    } else if cmd == "attack"@ {
        match need(a1, "用法: attack <目标>"@) {
            Ok(target) => Ok(CommandModel::Attack { target }),
            Err(e) => Err(e),
        }
    } else if cmd == "talk"@ {
        match need(a1, "用法: talk <目标>"@) {
            Ok(target) => Ok(CommandModel::Talk { target }),
            Err(e) => Err(e),
        }
    } else if cmd == "use"@ {
        match need(a1, "用法: use <物品> [目标]"@) {
            Ok(item) => Ok(CommandModel::Use { item, target: a2 }),
            Err(e) => Err(e),
        }
    } else if cmd == "save"@ {
        Ok(CommandModel::Save)
    } else if cmd == "help"@ {
        Ok(CommandModel::Help)
    } else if cmd == "quit"@ || cmd == "exit"@ {
        Ok(CommandModel::Quit)
    } else {
        Err("未知命令: "@ + cmd + "（输入 help 查看帮助）"@)
    }
}

/// The view of a parse result.
pub open spec fn parse_view(r: Result<Command, String>) -> Result<CommandModel, Seq<char>> {
    match r {
        Ok(c) => Ok(c@),
        Err(e) => Err(e@),
    }
}

fn is_lit(v: &Vec<char>, lit: &str) -> (r: bool)
    ensures
        r == (v@ == lit@),
{
    let l = chars_of(lit);
    eq_vec(v, &l)
}

fn trimmed(o: &Option<Vec<char>>) -> (r: Option<String>)
    ensures
        opt_str(r) == opt_trim(
            match o {
                Some(v) => Some(v@),
                None => None,
            },
        ),
{
    match o {
        Some(v) => Some(string_of(&trim_vec(v))),
        None => None,
    }
}

/// Parse a raw input string into a `Command`.
///
/// Empty input gives `Err("")`; a missing required argument gives the
/// command's usage message; an unknown command word gives an error naming it.
pub fn parse(input: &str) -> (r: Result<Command, String>)
    ensures
        parse_view(r) == parse_result(input@),
{
    let raw = chars_of(input);
    let s = trim_vec(&raw);
    if s.len() == 0 {
        return Err(String::new());
    }
    let n = s.len();
    let i0 = find_ws_from(&s, 0);
    assert(s@.skip(0) =~= s@);
    let cmd: Vec<char>;
    let f1: Option<Vec<char>>;
    let f2: Option<Vec<char>>;
    if i0 >= n {
        cmd = slice_vec(&s, 0, n);
        assert(cmd@ =~= s@);
        f1 = None;
        f2 = None;
    } else {
        cmd = slice_vec(&s, 0, i0);
        assert(cmd@ =~= s@.take(i0 as int));
        let i1 = find_ws_from(&s, i0 + 1);
        let ghost rest = s@.skip(i0 + 1);
        if i1 >= n {
            let a = slice_vec(&s, i0 + 1, n);
            assert(a@ =~= rest);
            f1 = Some(a);
            f2 = None;
        } else {
            let a = slice_vec(&s, i0 + 1, i1);
            let b = slice_vec(&s, i1 + 1, n);
            assert(a@ =~= rest.take(i1 - (i0 + 1)));
            assert(b@ =~= rest.skip(i1 - (i0 + 1) + 1));
            f1 = Some(a);
            f2 = Some(b);
        }
    }
    let ghost fs = ws_fields(s@);
    assert(cmd@ == fs.0);
    assert(match f1 {
        Some(v) => fs.1 == Some(v@),
        None => fs.1.is_none(),
    });
    assert(match f2 {
        Some(v) => fs.2 == Some(v@),
        None => fs.2.is_none(),
    });
    let a1 = trimmed(&f1);
    let a2 = trimmed(&f2);
    if is_lit(&cmd, "ls") {
        Ok(Command::Ls { path: a1 })
    } else if is_lit(&cmd, "cd") {
        Ok(
            Command::Cd {
                path: match a1 {
                    Some(p) => p,
                    None => String::from_str("~"),
                },
            },
        )
    } else if is_lit(&cmd, "pwd") {
        Ok(Command::Pwd)
    } else if is_lit(&cmd, "cat") {
        match a1 {
            Some(file) => Ok(Command::Cat { file }),
            None => Err(String::from_str("用法: cat <文件>")),
        }
    } else if is_lit(&cmd, "find") || is_lit(&cmd, "grep") {
        match a1 {
            Some(pattern) => Ok(Command::Find { pattern }),
            None => Err(String::from_str("用法: find <关键词>")),
        }
    } else if is_lit(&cmd, "cp") {
        match (a1, a2) {
            (Some(src), Some(dst)) => Ok(Command::Cp { src, dst }),
            _ => Err(String::from_str("用法: cp <源> <目标>")),
        }
    } else if is_lit(&cmd, "mv") {
        match (a1, a2) {
            (Some(src), Some(dst)) => Ok(Command::Mv { src, dst }),
            _ => Err(String::from_str("用法: mv <源> <目标>")),
        }
    } else if is_lit(&cmd, "rm") {
        match a1 {
            Some(path) => Ok(Command::Rm { path }),
            None => Err(String::from_str("用法: rm <文件>")),
        }
    } else if is_lit(&cmd, "attack") {
        match a1 {
            Some(target) => Ok(Command::Attack { target }),
            None => Err(String::from_str("用法: attack <目标>")),
        }
    } else if is_lit(&cmd, "talk") {
        match a1 {
            Some(target) => Ok(Command::Talk { target }),
            None => Err(String::from_str("用法: talk <目标>")),
        }
    } else if is_lit(&cmd, "use") {
        match a1 {
            Some(item) => Ok(Command::Use { item, target: a2 }),
            None => Err(String::from_str("用法: use <物品> [目标]")),
        }
    } else if is_lit(&cmd, "save") {
        Ok(Command::Save)
    } else if is_lit(&cmd, "help") {
        Ok(Command::Help)
    } else if is_lit(&cmd, "quit") || is_lit(&cmd, "exit") {
        Ok(Command::Quit)
    } else {
        let mut e = String::from_str("未知命令: ");
        let cs = string_of(&cmd);
        e.append(cs.as_str());
        e.append("（输入 help 查看帮助）");
        Err(e)
    }
}


/// What executing a command asks of the caller.
pub enum ExecResult {
    /// Text to show.
    Output(String),
    /// Nothing to show.
    Done,
    /// The player quits.
    Quit,
    /// The checks of `attack` passed: the combat against this monster is to
    /// be run, and its outcome handed to [`finish_attack`].
    Fight(EntityId),
}

/// The text of a listing: each name, directories with a trailing `/`,
/// each followed by two spaces.
pub open spec fn entries_text(es: Seq<(bool, Seq<char>)>) -> Seq<char>
    decreases es.len(),
{
    if es.len() == 0 {
        Seq::empty()
    } else {
        entries_text(es.drop_last()) + es.last().1 + if es.last().0 {
            "/  "@
        } else {
            "  "@
        }
    }
}

/// What `ls` shows for a listing result.
pub open spec fn ls_text(r: Result<Seq<(bool, Seq<char>)>, Seq<char>>) -> Seq<char> {
    match r {
        Ok(es) => if entries_text(es).len() == 0 {
            "（空目录）"@
        } else {
            entries_text(es)
        },
        Err(e) => e,
    }
}

/// The text of either side of a result.
pub open spec fn either_text(r: Result<Seq<char>, Seq<char>>) -> Seq<char> {
    match r {
        Ok(t) => t,
        Err(e) => e,
    }
}

/// The command shows `t`.
pub open spec fn shows(r: ExecResult, t: Seq<char>) -> bool {
    r matches ExecResult::Output(s) && s@ == t
}

/// What `find` shows for its hits.
pub open spec fn find_text(hits: Seq<Seq<char>>, pattern: Seq<char>) -> Seq<char> {
    if hits.len() == 0 {
        "未找到匹配 \""@ + pattern + "\" 的结果。"@
    } else {
        join(hits, "\n"@)
    }
}

/// What `ls [path]` shows from the directory `cwd`.
pub open spec fn ls_shows(w: World, cwd: Seq<char>, path: Option<Seq<char>>, r: ExecResult) -> bool {
    exists|l: Result<Seq<(bool, Seq<char>)>, Seq<char>>|
        ls_outcome(
            w,
            match path {
                Some(p) => resolve_spec(cwd, p),
                None => cwd,
            },
            l,
        ) && shows(r, ls_text(l))
}

/// What `cat file` shows from the directory `cwd` at time `now`.
pub open spec fn cat_shows(w: World, cwd: Seq<char>, file: Seq<char>, now: int, r: ExecResult) -> bool {
    exists|c: Result<Seq<char>, Seq<char>>| cat_outcome(w, resolve_spec(cwd, file), now, c) && shows(r, either_text(c))
}

/// What `find pattern` shows.
pub open spec fn find_shows(w: World, pattern: Seq<char>, r: ExecResult) -> bool {
    let names = area_names_spec(w.areas@);
    exists|ls: Seq<Seq<EntityView>>|
        {
            &&& ls.len() == names.len()
            &&& forall|k: int|
                0 <= k < names.len() && names[k] != FARM_AREA@ ==> is_area_listing(
                    w.entity_map(),
                    #[trigger] names[k],
                    ls[k],
                )
            &&& shows(r, find_text(find_hits(w, names, ls, unicode_lower(pattern)), pattern))
        }
}

fn exec_ls(world: &World, vfs: &Vfs, path: Option<String>) -> (r: ExecResult)
    requires
        world.wf(),
    ensures
        ls_shows(*world, vfs.cwd_view(), opt_str(path), r),
{
    let ghost target = match path {
        Some(ref p) => resolve_spec(vfs.cwd_view(), p@),
        None => vfs.cwd_view(),
    };
    let res = match &path {
        Some(p) => vfs.ls(world, Some(p.as_str())),
        None => vfs.ls(world, None),
    };
    let ghost l = listing_result(res);
    assert(ls_outcome(*world, target, l));
    match res {
        Ok(entries) => {
            let mut out = String::new();
            let mut i: usize = 0;
            let ghost ev = crate::vfs::entries_view(entries@);
            while i < entries.len()
                invariant
                    i <= entries@.len(),
                    ev == crate::vfs::entries_view(entries@),
                    out@ == entries_text(ev.take(i as int)),
                decreases entries@.len() - i,
            {
                let ghost t = ev.take(i + 1);
                assert(t.drop_last() =~= ev.take(i as int));
                match &entries[i] {
                    VfsEntry::Dir(name) => {
                        out.append(name.as_str());
                        out.append("/  ");
                    },
                    VfsEntry::File(name) => {
                        out.append(name.as_str());
                        out.append("  ");
                    },
                }
                i = i + 1;
            }
            assert(ev.take(entries@.len() as int) =~= ev);
            proof {
                reveal_strlit("  ");
                reveal_strlit("/  ");
                if ev.len() > 0 {
                    assert(entries_text(ev).len() >= 2);
                }
            }
            if entries.len() == 0 {
                out = String::from_str("（空目录）");
            }
            assert(shows(ExecResult::Output(out), ls_text(l)));
            ExecResult::Output(out)
        },
        Err(e) => {
            assert(shows(ExecResult::Output(e), ls_text(l)));
            ExecResult::Output(e)
        },
    }
}

fn exec_cat_at(world: &World, vfs: &Vfs, file: &str, now: u64) -> (r: ExecResult)
    requires
        world.wf(),
    ensures
        cat_shows(*world, vfs.cwd_view(), file@, now as int, r),
{
    match vfs.cat_at(world, file, now) {
        Ok(content) => ExecResult::Output(content),
        Err(e) => ExecResult::Output(e),
    }
}

fn exec_find(world: &World, vfs: &Vfs, pattern: &str) -> (r: ExecResult)
    requires
        world.wf(),
    ensures
        find_shows(*world, pattern@, r),
{
    let results = vfs.find(world, pattern);
    if results.len() == 0 {
        let mut t = String::from_str("未找到匹配 \"");
        t.append(pattern);
        t.append("\" 的结果。");
        ExecResult::Output(t)
    } else {
        let mut vs: Vec<Vec<char>> = Vec::new();
        let mut i: usize = 0;
        while i < results.len()
            invariant
                i <= results@.len(),
                crate::text::views(vs@) == str_views(results@).take(i as int),
            decreases results@.len() - i,
        {
            let ghost prev = vs@;
            let c = chars_of(results[i].as_str());
            vs.push(c);
            assert(crate::text::views(vs@) =~= crate::text::views(prev).push(c@));
            assert(str_views(results@).take(i + 1) =~= str_views(results@).take(i as int).push(results@[i as int]@));
            i = i + 1;
        }
        assert(str_views(results@).take(results@.len() as int) =~= str_views(results@));
        let nl = chars_of("\n");
        let j = crate::text::join_vecs(&vs, &nl);
        ExecResult::Output(string_of(&j))
    }
}


/// The effect of `cd path` from the directory `cwd0`.
pub open spec fn cd_outcome(w0: World, w1: World, cwd0: Seq<char>, cwd1: Seq<char>, path: Seq<char>, r: ExecResult) -> bool {
    let target = resolve_spec(cwd0, path);
    if !is_directory_spec(w0, target) {
        shows(r, "cd: "@ + path + ": 不是一个目录"@) && w1 == w0 && cwd1 == cwd0
    } else {
        match area_of_cwd(target) {
            Some(a) => if a != w0.player_area@ {
                exists|m: Result<(), Seq<char>>|
                    move_outcome(w0, w1, a, m) && match m {
                        Ok(_) => shows(r, "移动到 "@ + a) && cwd1 == target,
                        Err(e) => shows(r, e) && cwd1 == "/"@ + w0.player_area@,
                    }
            } else {
                shows(r, target) && w1 == w0 && cwd1 == target
            },
            None => shows(r, target) && w1 == w0 && cwd1 == target,
        }
    }
}

fn exec_cd(world: &mut World, vfs: &mut Vfs, path: &str) -> (r: ExecResult)
    requires
        old(world).wf(),
        old(world).next_id + 5 <= u64::MAX,
    ensures
        cd_outcome(*old(world), *final(world), old(vfs).cwd_view(), final(vfs).cwd_view(), path@, r),
{
    match vfs.cd(world, path) {
        Ok(new_path) => {
            match vfs.current_area_from_cwd() {
                Some(area) => {
                    if area != world.player_area {
                        let m = world.move_player(area.as_str());
                        match m {
                            Ok(()) => {
                                let mut t = String::from_str("移动到 ");
                                t.append(area.as_str());
                                return ExecResult::Output(t);
                            },
                            Err(e) => {
                                let mut back = String::from_str("/");
                                back.append(world.player_area.as_str());
                                vfs.set_cwd(back.as_str());
                                return ExecResult::Output(e);
                            },
                        }
                    }
                },
                None => {},
            }
            ExecResult::Output(new_path)
        },
        Err(e) => ExecResult::Output(e),
    }
}

/// The lower-cased-name matches of `query` in `area`: some entity of `w`
/// matches.
pub open spec fn some_match(w: World, area: Seq<char>, query: Seq<char>) -> bool {
    exists|id: EntityId| entity_matches(w, area, query, id)
}

/// The effect of `rm path` from the directory `cwd`.
pub open spec fn rm_outcome(w0: World, w1: World, cwd: Seq<char>, path: Seq<char>, r: ExecResult) -> bool {
    let ps = split_path_spec(resolve_spec(cwd, path));
    if ps.len() != 2 {
        shows(r, "rm: 只能删除区域内的实体文件"@) && w1 == w0
    } else if ps[1] == ".info"@ {
        shows(r, "rm: 不能删除 .info 文件"@) && w1 == w0
    } else if !some_match(w0, ps[0], ps[1]) {
        shows(r, "rm: "@ + path + ": 未找到"@) && w1 == w0
    } else {
        exists|id: EntityId|
            #![trigger entity_matches(w0, ps[0], ps[1], id)]
            {
                &&& entity_matches(w0, ps[0], ps[1], id)
                &&& shows(r, "已删除 "@ + w0.entity_map()[id].name)
                &&& w1.wf()
                &&& w1.same_except_entities(&w0)
                &&& w1.next_id == w0.next_id
                &&& w1.entity_map() == w0.entity_map().remove(id)
            }
    }
}

fn exec_rm(world: &mut World, vfs: &Vfs, path: &str) -> (r: ExecResult)
    requires
        old(world).wf(),
    ensures
        rm_outcome(*old(world), *final(world), vfs.cwd_view(), path@, r),
{
    let resolved = vfs.resolve(path);
    let parts = split_path(resolved.as_str());
    if parts.len() != 2 {
        return ExecResult::Output(String::from_str("rm: 只能删除区域内的实体文件"));
    }
    let area = parts[0].as_str();
    let name = parts[1].as_str();
    if str_eq(name, ".info") {
        return ExecResult::Output(String::from_str("rm: 不能删除 .info 文件"));
    }
    let entity_id = match world.find_entity_in_area(area, name) {
        Some(id) => id,
        None => {
            let mut t = String::from_str("rm: ");
            t.append(path);
            t.append(": 未找到");
            return ExecResult::Output(t);
        },
    };
    assert(entity_matches(*world, area@, name@, entity_id));
    let entity_name = match world.entity(entity_id) {
        Some(e) => e.name.clone(),
        None => String::new(),
    };
    world.remove_entity(entity_id);
    let mut t = String::from_str("已删除 ");
    t.append(entity_name.as_str());
    ExecResult::Output(t)
}

/// The effect of `mv src dst` from the directory `cwd`.
pub open spec fn mv_outcome(w0: World, w1: World, cwd: Seq<char>, src: Seq<char>, dst: Seq<char>, r: ExecResult) -> bool {
    let sp = split_path_spec(resolve_spec(cwd, src));
    let dp = split_path_spec(resolve_spec(cwd, dst));
    if sp.len() != 2 {
        shows(r, "mv: 只能移动区域内的实体文件"@) && w1 == w0
    } else if !some_match(w0, sp[0], sp[1]) {
        shows(r, "mv: "@ + src + ": 未找到"@) && w1 == w0
    } else if dp.len() != 1 {
        shows(r, "mv: 目标必须是一个区域目录"@) && w1 == w0
    } else {
        exists|id: EntityId|
            #![trigger entity_matches(w0, sp[0], sp[1], id)]
            {
                let e = w0.entity_map()[id];
                &&& entity_matches(w0, sp[0], sp[1], id)
                &&& shows(r, "已移动 "@ + e.name + " 到 /"@ + dp[0] + "/"@)
                &&& w1.wf()
                &&& w1.same_except_entities(&w0)
                &&& w1.next_id == w0.next_id
                &&& w1.entity_map() == w0.entity_map().insert(id, EntityView { area: dp[0], ..e })
            }
    }
}

fn exec_mv(world: &mut World, vfs: &Vfs, src: &str, dst_area: &str) -> (r: ExecResult)
    requires
        old(world).wf(),
    ensures
        mv_outcome(*old(world), *final(world), vfs.cwd_view(), src@, dst_area@, r),
{
    let src_path = vfs.resolve(src);
    let parts = split_path(src_path.as_str());
    if parts.len() != 2 {
        return ExecResult::Output(String::from_str("mv: 只能移动区域内的实体文件"));
    }
    let area = parts[0].as_str();
    let name = parts[1].as_str();
    let entity_id = match world.find_entity_in_area(area, name) {
        Some(id) => id,
        None => {
            let mut t = String::from_str("mv: ");
            t.append(src);
            t.append(": 未找到");
            return ExecResult::Output(t);
        },
    };
    assert(entity_matches(*world, area@, name@, entity_id));
    let dst_resolved = vfs.resolve(dst_area);
    let dst_parts = split_path(dst_resolved.as_str());
    if dst_parts.len() != 1 {
        return ExecResult::Output(String::from_str("mv: 目标必须是一个区域目录"));
    }
    let target_area = dst_parts[0].clone();
    let ghost w0 = *world;
    match world.take_entity(entity_id) {
        Some(mut entity) => {
            entity.area = target_area.clone();
            let ename = entity.name.clone();
            assert(entity_view(entity) == EntityView { area: target_area@, ..w0.entity_map()[entity_id] });
            world.insert_entity(entity);
            assert(world.entity_map() =~= w0.entity_map().insert(entity_id, EntityView { area: target_area@, ..w0.entity_map()[entity_id] }));
            let mut t = String::from_str("已移动 ");
            t.append(ename.as_str());
            t.append(" 到 /");
            t.append(target_area.as_str());
            t.append("/");
            ExecResult::Output(t)
        },
        None => {
            let mut t = String::from_str("mv: ");
            t.append(src);
            t.append(": 未找到");
            ExecResult::Output(t)
        },
    }
}

/// The effect of `cp src dst` from the directory `cwd`.
pub open spec fn cp_outcome(w0: World, w1: World, cwd: Seq<char>, src: Seq<char>, dst: Seq<char>, r: ExecResult) -> bool {
    let sp = split_path_spec(resolve_spec(cwd, src));
    let dp = split_path_spec(resolve_spec(cwd, dst));
    if sp.len() != 2 {
        shows(r, "cp: 只能复制区域内的实体文件"@) && w1 == w0
    } else if !some_match(w0, sp[0], sp[1]) {
        shows(r, "cp: "@ + src + ": 未找到"@) && w1 == w0
    } else {
        exists|id: EntityId|
            #![trigger entity_matches(w0, sp[0], sp[1], id)]
            {
                let e = w0.entity_map()[id];
                &&& entity_matches(w0, sp[0], sp[1], id)
                &&& if e.kind != EntityKind::Item {
                    shows(r, "cp: 只能复制物品类型的实体"@) && w1 == w0
                } else if dp.len() != 1 {
                    shows(r, "cp: 目标必须是一个区域目录"@) && w1 == w0
                } else {
                    &&& shows(r, "已复制 "@ + e.name + " 到 /"@ + dp[0] + "/"@)
                    &&& w1.wf()
                    &&& w1.same_except_entities(&w0)
                    &&& w1.next_id == w0.next_id + 1
                    &&& w1.entity_map() == w0.entity_map().insert(
                        w0.next_id,
                        EntityView { id: w0.next_id, area: dp[0], ..e },
                    )
                }
            }
    }
}

fn exec_cp(world: &mut World, vfs: &Vfs, src: &str, dst_area: &str) -> (r: ExecResult)
    requires
        old(world).wf(),
        old(world).next_id < u64::MAX,
    ensures
        cp_outcome(*old(world), *final(world), vfs.cwd_view(), src@, dst_area@, r),
{
    let src_path = vfs.resolve(src);
    let parts = split_path(src_path.as_str());
    if parts.len() != 2 {
        return ExecResult::Output(String::from_str("cp: 只能复制区域内的实体文件"));
    }
    let area = parts[0].as_str();
    let name = parts[1].as_str();
    let entity_id = match world.find_entity_in_area(area, name) {
        Some(id) => id,
        None => {
            let mut t = String::from_str("cp: ");
            t.append(src);
            t.append(": 未找到");
            return ExecResult::Output(t);
        },
    };
    assert(entity_matches(*world, area@, name@, entity_id));
    let ghost w0 = *world;
    let ghost mut est: Seq<(String, Value)> = Seq::empty();
    let (kind, ename, keys, vals) = match world.entity(entity_id) {
        Some(e) => {
            proof {
                est = e.state@;
            }
            let mut keys: Vec<String> = Vec::new();
            let mut vals: Vec<Value> = Vec::new();
            let mut i: usize = 0;
            while i < e.state.len()
                invariant
                    i <= e.state@.len(),
                    keys@.len() == i,
                    vals@.len() == i,
                    forall|j: int| 0 <= j < i ==> keys@[j] == e.state@[j].0 && vals@[j] == e.state@[j].1,
                decreases e.state@.len() - i,
            {
                keys.push(e.state[i].0.clone());
                vals.push(e.state[i].1.copy());
                i = i + 1;
            }
            proof {
                lemma_pairs_map_state(e.state@);
            }
            (e.kind.copy(), e.name.clone(), keys, vals)
        },
        None => {
            let mut t = String::from_str("cp: ");
            t.append(src);
            t.append(": 未找到");
            return ExecResult::Output(t);
        },
    };
    if kind != EntityKind::Item {
        return ExecResult::Output(String::from_str("cp: 只能复制物品类型的实体"));
    }
    let dst_resolved = vfs.resolve(dst_area);
    let dst_parts = split_path(dst_resolved.as_str());
    if dst_parts.len() != 1 {
        return ExecResult::Output(String::from_str("cp: 目标必须是一个区域目录"));
    }
    let target_area = dst_parts[0].as_str();
    let mut props: Vec<(&str, Value)> = Vec::new();
    let mut i: usize = 0;
    while i < keys.len()
        invariant
            i <= keys@.len(),
            keys@.len() == vals@.len(),
            props@.len() == i,
            forall|j: int| 0 <= j < i ==> props@[j].0@ == keys@[j]@ && props@[j].1 == vals@[j],
            keys@.len() == est.len(),
            forall|j: int| 0 <= j < keys@.len() ==> keys@[j] == est[j].0 && vals@[j] == est[j].1,
        decreases keys@.len() - i,
    {
        props.push((keys[i].as_str(), vals[i].copy()));
        i = i + 1;
    }
    proof {
        assert(props@.len() == est.len());
        assert forall|j: int| 0 <= j < props@.len() implies prop_pairs(props@)[j] == state_pairs(est)[j] by {
            assert(props@[j].0@ == keys@[j]@ && props@[j].1 == vals@[j]);
            assert(keys@[j] == est[j].0 && vals@[j] == est[j].1);
        }
        assert(prop_pairs(props@) =~= state_pairs(est));
    }
    world.spawn_entity(kind, ename.as_str(), target_area, props);
    let mut t = String::from_str("已复制 ");
    t.append(ename.as_str());
    t.append(" 到 /");
    t.append(target_area);
    t.append("/");
    ExecResult::Output(t)
}


/// The effect of `talk target` in the directory `cwd` (the world does not
/// change).
pub open spec fn talk_outcome(w: World, cwd: Seq<char>, target: Seq<char>, r: ExecResult) -> bool {
    match area_of_cwd(cwd) {
        None => shows(r, "talk: 只能在区域目录中对话"@),
        Some(a) => if !some_match(w, a, target) {
            shows(r, "talk: 未找到 \""@ + target + "\""@)
        } else {
            exists|id: EntityId|
                #![trigger entity_matches(w, a, target, id)]
                {
                    let e = w.entity_map()[id];
                    let d = str_prop(e.props, "dialogue"@);
                    &&& entity_matches(w, a, target, id)
                    &&& if e.kind != EntityKind::Npc {
                        shows(r, e.name + " 不是一个可以对话的NPC。"@)
                    } else if d.len() == 0 {
                        shows(r, e.name + ": ......"@)
                    } else {
                        shows(r, e.name + ": 「"@ + d + "」"@)
                    }
                }
        },
    }
}

fn exec_talk(world: &World, vfs: &Vfs, target: &str) -> (r: ExecResult)
    requires
        world.wf(),
    ensures
        talk_outcome(*world, vfs.cwd_view(), target@, r),
{
    let area = match vfs.current_area_from_cwd() {
        Some(a) => a,
        None => return ExecResult::Output(String::from_str("talk: 只能在区域目录中对话")),
    };
    let entity_id = match world.find_entity_in_area(area.as_str(), target) {
        Some(id) => id,
        None => {
            let mut t = String::from_str("talk: 未找到 \"");
            t.append(target);
            t.append("\"");
            return ExecResult::Output(t);
        },
    };
    assert(entity_matches(*world, area@, target@, entity_id));
    let entity = match world.entity(entity_id) {
        Some(e) => e,
        None => return ExecResult::Output(String::from_str("talk: 目标不存在")),
    };
    if entity.kind != EntityKind::Npc {
        let mut t = entity.name.clone();
        t.append(" 不是一个可以对话的NPC。");
        return ExecResult::Output(t);
    }
    let dialogue = entity.get_str("dialogue");
    let dv = chars_of(dialogue);
    if dv.len() == 0 {
        let mut t = entity.name.clone();
        t.append(": ......");
        ExecResult::Output(t)
    } else {
        let mut t = entity.name.clone();
        t.append(": 「");
        t.append(dialogue);
        t.append("」");
        ExecResult::Output(t)
    }
}

/// The names of the crop types, in order.
pub open spec fn crop_names(ts: Seq<CropType>) -> Seq<Seq<char>> {
    ts.map_values(|t: CropType| t.name@)
}

/// The plot index named by `plot_N`, if the name has that form.
pub open spec fn plot_arg(s: Seq<char>) -> Option<usize> {
    if has_prefix(s, "plot_"@) {
        parse_usize_spec(s.skip(5))
    } else {
        None
    }
}

/// `w1` is `w0` with another farm and the player's gold raised by `gold`
/// (wrapping at 2^32).
pub open spec fn farm_and_gold(w0: World, w1: World, gold: u32) -> bool {
    &&& w1.player == Player { gold: w0.player.gold.wrapping_add(gold), ..w0.player }
    &&& w1.player_area == w0.player_area
    &&& w1.areas == w0.areas
    &&& w1.entities == w0.entities
    &&& w1.next_id == w0.next_id
    &&& w1.crop_types == w0.crop_types
}

/// The usage message of `use` on the farm.
pub open spec fn farm_usage() -> Seq<char> {
    "use: 在农场中，使用方式：\n  use <作物名> <plot_N>  种植\n  use <plot_N>           收获\n  use <动物名>           繁殖/收集"@
}

/// The effect of `use item [target]` on the farm at time `now`.
pub open spec fn use_farm_outcome(w0: World, w1: World, item: Seq<char>, target: Option<Seq<char>>, now: u64, r: ExecResult) -> bool {
    match plot_arg(item) {
        Some(idx) => exists|g: Option<u32>|
            #![trigger harvest_outcome(w0.farm, w1.farm, idx as int, now as int, g)]
            harvest_outcome(w0.farm, w1.farm, idx as int, now as int, g) && match g {
                Some(gold) => farm_and_gold(w0, w1, gold) && shows(
                    r,
                    "收获成功！获得 "@ + dec_nat(gold as nat) + " 金币。"@,
                ),
                None => farm_and_gold(w0, w1, 0) && shows(r, "作物尚未成熟，或地块为空。"@),
            },
        None => match animal_names(w0.farm.animals@).index_of_first(item) {
            Some(i) => {
                let a = w0.farm.animals@[i];
                if a.breeding {
                    if a.ready_at(now as int) {
                        exists|g: Option<u32>|
                            #![trigger collect_outcome(w0.farm, w1.farm, i, now as int, g)]
                            collect_outcome(w0.farm, w1.farm, i, now as int, g) && match g {
                                Some(gold) => farm_and_gold(w0, w1, gold) && shows(
                                    r,
                                    "收集 "@ + item + " 成功！获得 "@ + dec_nat(gold as nat) + " 金币。"@,
                                ),
                                None => farm_and_gold(w0, w1, 0) && shows(r, "动物还未准备好。"@),
                            }
                    } else {
                        w1 == w0 && shows(r, item + " 正在繁殖中..."@)
                    }
                } else {
                    exists|b: Result<(), Seq<char>>|
                        #![trigger breed_outcome(w0.farm, w1.farm, i, now, b)]
                        breed_outcome(w0.farm, w1.farm, i, now, b) && farm_and_gold(w0, w1, 0) && match b {
                            Ok(_) => shows(r, item + " 开始繁殖！"@),
                            Err(e) => shows(r, e),
                        }
                }
            },
            None => match target {
                Some(t) => match plot_arg(t) {
                    Some(pi) => match crop_names(w0.crop_types@).index_of_first(item) {
                        Some(ci) => {
                            let ct = w0.crop_types@[ci];
                            exists|p: Result<(), Seq<char>>|
                                #![trigger plant_outcome(w0.farm, w1.farm, pi as int, ct, now, p)]
                                plant_outcome(w0.farm, w1.farm, pi as int, ct, now, p) && farm_and_gold(w0, w1, 0)
                                    && match p {
                                    Ok(_) => shows(r, "已种植 "@ + ct.name@ + " 到地块 "@ + dec_nat(pi as nat) + "。"@),
                                    Err(e) => shows(r, e),
                                }
                        },
                        None => w1 == w0 && shows(r, "未知作物类型: "@ + item),
                    },
                    None => w1 == w0 && shows(r, farm_usage()),
                },
                None => w1 == w0 && shows(r, farm_usage()),
            },
        },
    }
}

/// The plot index named by `plot_N`.
fn plot_index(s: &str) -> (r: Option<usize>)
    ensures
        r == plot_arg(s@),
{
    let v = chars_of(s);
    let pre = chars_of("plot_");
    proof {
        reveal_strlit("plot_");
    }
    if starts_with_vec(&v, &pre) {
        let rest = string_of_range(&v, 5, v.len());
        assert(rest@ =~= s@.skip(5));
        parse_usize(rest.as_str())
    } else {
        None
    }
}

/// Position of the first crop type named `name`.
fn crop_position(ts: &Vec<CropType>, name: &str) -> (r: Option<usize>)
    ensures
        match r {
            Some(i) => crop_names(ts@).index_of_first(name@) == Some(i as int),
            None => crop_names(ts@).index_of_first(name@) == None::<int>,
        },
{
    let ghost ns = crop_names(ts@);
    let mut i: usize = 0;
    while i < ts.len()
        invariant
            i <= ts@.len(),
            ns == crop_names(ts@),
            forall|j: int| 0 <= j < i ==> ns[j] != name@,
        decreases ts@.len() - i,
    {
        if str_eq(ts[i].name.as_str(), name) {
            proof {
                ns.index_of_first_ensures(name@);
                assert(ns[i as int] == name@);
                let k = ns.index_of_first(name@)->0;
                if k < i {
                    assert(ns[k] != name@);
                }
                if k > i {
                    assert(ns[i as int] != name@);
                }
            }
            return Some(i);
        }
        i = i + 1;
    }
    proof {
        ns.index_of_first_ensures(name@);
        if ns.contains(name@) {
            let k = choose|k: int| 0 <= k < ns.len() && ns[k] == name@;
            assert(ns[k] != name@);
        }
    }
    None
}

fn exec_use_farm_at(world: &mut World, item: &str, target: Option<&str>, now: u64) -> (r: ExecResult)
    ensures
        use_farm_outcome(*old(world), *final(world), item@, match target {
            Some(t) => Some(t@),
            None => None,
        }, now, r),
{
    match plot_index(item) {
        Some(idx) => {
            return match world.farm.harvest_at(idx, now) {
                Some(gold) => {
                    world.player.gold = world.player.gold.wrapping_add(gold);
                    let mut t = String::from_str("收获成功！获得 ");
                    push_dec(&mut t, gold as u64);
                    t.append(" 金币。");
                    ExecResult::Output(t)
                },
                None => {
                    assert(world.player.gold.wrapping_add(0) == world.player.gold);
                    ExecResult::Output(String::from_str("作物尚未成熟，或地块为空。"))
                },
            };
        },
        None => {},
    }
    proof {
        animal_names(world.farm.animals@).index_of_first_ensures(item@);
    }
    let ghost w0 = *world;
    match world.farm.animal_position(item) {
        Some(idx) => {
            if world.farm.animals[idx].breeding {
                if world.farm.animals[idx].is_ready_at(now) {
                    let g = world.farm.collect_animal_at(idx, now);
                    assert(collect_outcome(w0.farm, world.farm, idx as int, now as int, g));
                    return match g {
                        Some(gold) => {
                            world.player.gold = world.player.gold.wrapping_add(gold);
                            let mut t = String::from_str("收集 ");
                            t.append(item);
                            t.append(" 成功！获得 ");
                            push_dec(&mut t, gold as u64);
                            t.append(" 金币。");
                            assert(farm_and_gold(w0, *world, gold));
                            assert(collect_outcome(w0.farm, world.farm, idx as int, now as int, Some(gold)));
                            ExecResult::Output(t)
                        },
                        None => {
                            assert(world.player.gold.wrapping_add(0) == world.player.gold);
                            ExecResult::Output(String::from_str("动物还未准备好。"))
                        },
                    };
                }
                let mut t = String::from_str(item);
                t.append(" 正在繁殖中...");
                return ExecResult::Output(t);
            }
            assert(world.player.gold.wrapping_add(0) == world.player.gold);
            let b = world.farm.start_breeding_at(idx, now);
            assert(breed_outcome(w0.farm, world.farm, idx as int, now, unit_result(b)));
            assert(farm_and_gold(w0, *world, 0));
            return match b {
                Ok(()) => {
                    let mut t = String::from_str(item);
                    t.append(" 开始繁殖！");
                    ExecResult::Output(t)
                },
                Err(e) => ExecResult::Output(e),
            };
        },
        None => {},
    }
    match target {
        Some(t) => {
            match plot_index(t) {
                Some(plot_idx) => {
                    proof {
                        crop_names(world.crop_types@).index_of_first_ensures(item@);
                    }
                    match crop_position(&world.crop_types, item) {
                        Some(ci) => {
                            let ct = CropType {
                                name: world.crop_types[ci].name.clone(),
                                grow_time_secs: world.crop_types[ci].grow_time_secs,
                                yield_gold: world.crop_types[ci].yield_gold,
                            };
                            assert(ct == world.crop_types@[ci as int]);
                            assert(world.player.gold.wrapping_add(0) == world.player.gold);
                            let p = world.farm.plant_at(plot_idx, &ct, now);
                            assert(plant_outcome(w0.farm, world.farm, plot_idx as int, ct, now, unit_result(p)));
                            assert(farm_and_gold(w0, *world, 0));
                            return match p {
                                Ok(()) => {
                                    let mut m = String::from_str("已种植 ");
                                    m.append(ct.name.as_str());
                                    m.append(" 到地块 ");
                                    push_dec(&mut m, plot_idx as u64);
                                    m.append("。");
                                    ExecResult::Output(m)
                                },
                                Err(e) => ExecResult::Output(e),
                            };
                        },
                        None => {
                            let mut m = String::from_str("未知作物类型: ");
                            m.append(item);
                            return ExecResult::Output(m);
                        },
                    }
                },
                None => {},
            }
        },
        None => {},
    }
    ExecResult::Output(String::from_str("use: 在农场中，使用方式：\n  use <作物名> <plot_N>  种植\n  use <plot_N>           收获\n  use <动物名>           繁殖/收集"))
}


/// `w1` is `w0` with the player's gold raised by `gold` (wrapping) and
/// entity `id` removed.
pub open spec fn sold(w0: World, w1: World, id: EntityId, gold: u32) -> bool {
    &&& w1.wf()
    &&& w1.player == Player { gold: w0.player.gold.wrapping_add(gold), ..w0.player }
    &&& w1.player_area == w0.player_area
    &&& w1.areas == w0.areas
    &&& w1.farm == w0.farm
    &&& w1.crop_types == w0.crop_types
    &&& w1.next_id == w0.next_id
    &&& w1.entity_map() == w0.entity_map().remove(id)
}

/// The effect of `use item [target]` in the directory `cwd` at time `now`.
pub open spec fn use_outcome(w0: World, w1: World, cwd: Seq<char>, item: Seq<char>, target: Option<Seq<char>>, now: u64, r: ExecResult) -> bool {
    match area_of_cwd(cwd) {
        None => shows(r, "use: 只能在区域目录中使用物品"@) && w1 == w0,
        Some(a) => if a == FARM_AREA@ {
            use_farm_outcome(w0, w1, item, target, now, r)
        } else if !some_match(w0, a, item) {
            shows(r, "use: 未找到 \""@ + item + "\""@) && w1 == w0
        } else {
            exists|id: EntityId|
                #![trigger entity_matches(w0, a, item, id)]
                {
                    let e = w0.entity_map()[id];
                    let g = int_prop(e.props, "gold_value"@) as u32;
                    &&& entity_matches(w0, a, item, id)
                    &&& if e.kind != EntityKind::Item {
                        shows(r, e.name + " 不是一个可以使用的物品。"@) && w1 == w0
                    } else {
                        shows(r, "使用了 "@ + e.name + "，获得 "@ + dec_nat(g as nat) + " 金币。"@) && sold(w0, w1, id, g)
                    }
                }
        },
    }
}

fn exec_use_at(world: &mut World, vfs: &Vfs, item: &str, target: Option<&str>, now: u64) -> (r: ExecResult)
    requires
        old(world).wf(),
    ensures
        use_outcome(*old(world), *final(world), vfs.cwd_view(), item@, match target {
            Some(t) => Some(t@),
            None => None,
        }, now, r),
{
    let area = match vfs.current_area_from_cwd() {
        Some(a) => a,
        None => return ExecResult::Output(String::from_str("use: 只能在区域目录中使用物品")),
    };
    if str_eq(area.as_str(), FARM_AREA) {
        return exec_use_farm_at(world, item, target, now);
    }
    let entity_id = match world.find_entity_in_area(area.as_str(), item) {
        Some(id) => id,
        None => {
            let mut t = String::from_str("use: 未找到 \"");
            t.append(item);
            t.append("\"");
            return ExecResult::Output(t);
        },
    };
    assert(entity_matches(*world, area@, item@, entity_id));
    let (kind, ename, gold) = match world.entity(entity_id) {
        Some(e) => (e.kind.copy(), e.name.clone(), e.get_int("gold_value") as u32),
        None => return ExecResult::Output(String::from_str("use: 物品不存在")),
    };
    if kind != EntityKind::Item {
        let mut t = ename;
        t.append(" 不是一个可以使用的物品。");
        return ExecResult::Output(t);
    }
    world.player.gold = world.player.gold.wrapping_add(gold);
    world.remove_entity(entity_id);
    let mut t = String::from_str("使用了 ");
    t.append(ename.as_str());
    t.append("，获得 ");
    push_dec(&mut t, gold as u64);
    t.append(" 金币。");
    ExecResult::Output(t)
}

/// Whether `attack target` may start a combat from the directory `cwd`:
/// the monster to fight, or the refusal.
pub open spec fn attack_check(w: World, cwd: Seq<char>, target: Seq<char>, r: Result<EntityId, Seq<char>>) -> bool {
    match area_of_cwd(cwd) {
        None => r == Err::<EntityId, Seq<char>>("attack: 只能在区域目录中攻击"@),
        Some(a) => if a == FARM_AREA@ {
            r == Err::<EntityId, Seq<char>>("attack: 不能在农场攻击"@)
        } else if !some_match(w, a, target) {
            r == Err::<EntityId, Seq<char>>("attack: 未找到目标 \""@ + target + "\""@)
        } else {
            exists|id: EntityId|
                #![trigger entity_matches(w, a, target, id)]
                entity_matches(w, a, target, id) && if w.entity_map()[id].kind != EntityKind::Monster {
                    r == Err::<EntityId, Seq<char>>("attack: 只能攻击怪物类型的实体"@)
                } else {
                    r == Ok::<EntityId, Seq<char>>(id)
                }
        },
    }
}

/// The view of an attack check.
pub open spec fn check_view(r: Result<EntityId, String>) -> Result<EntityId, Seq<char>> {
    match r {
        Ok(id) => Ok(id),
        Err(e) => Err(e@),
    }
}

/// The checks of `attack target`: the monster to fight, or the refusal.
pub fn exec_attack(world: &World, vfs: &Vfs, target: &str) -> (r: Result<EntityId, String>)
    requires
        world.wf(),
    ensures
        attack_check(*world, vfs.cwd_view(), target@, check_view(r)),
{
    let area = match vfs.current_area_from_cwd() {
        Some(a) => a,
        None => return Err(String::from_str("attack: 只能在区域目录中攻击")),
    };
    if str_eq(area.as_str(), FARM_AREA) {
        return Err(String::from_str("attack: 不能在农场攻击"));
    }
    let entity_id = match world.find_entity_in_area(area.as_str(), target) {
        Some(id) => id,
        None => {
            let mut t = String::from_str("attack: 未找到目标 \"");
            t.append(target);
            t.append("\"");
            return Err(t);
        },
    };
    assert(entity_matches(*world, area@, target@, entity_id));
    let kind = match world.entity(entity_id) {
        Some(e) => e.kind.copy(),
        None => return Err(String::from_str("attack: 目标不存在")),
    };
    if kind != EntityKind::Monster {
        return Err(String::from_str("attack: 只能攻击怪物类型的实体"));
    }
    Ok(entity_id)
}

/// The player after a victory worth `exp` and `gold`.
pub open spec fn victor(p: Player, exp: u32, gold: u32) -> Player {
    let p1 = Player { gold: p.gold.wrapping_add(gold), exp: (p.exp + exp) as u32, ..p };
    if p.exp + exp >= p.exp_to_next {
        leveled(p1)
    } else {
        p1
    }
}

/// The entity map with the `hp` of entity `id` (if present) set to `hp`.
pub open spec fn with_hp(m: Map<EntityId, EntityView>, id: EntityId, hp: i32) -> Map<EntityId, EntityView> {
    if m.contains_key(id) {
        m.insert(id, EntityView { props: m[id].props.insert("hp"@, ValueView::Int(hp as i64)), ..m[id] })
    } else {
        m
    }
}

/// The effect of ending a combat against entity `id` with `result`, the
/// monster having `enemy_hp` HP left.
pub open spec fn finish_outcome(w0: World, w1: World, id: EntityId, enemy_hp: i32, result: CombatResult, msg: Seq<char>) -> bool {
    &&& w1.wf()
    &&& w1.player_area == w0.player_area
    &&& w1.areas == w0.areas
    &&& w1.farm == w0.farm
    &&& w1.crop_types == w0.crop_types
    &&& w1.next_id == w0.next_id
    &&& match result {
        CombatResult::Victory { exp, gold } => {
            &&& w1.player == victor(w0.player, exp, gold)
            &&& w1.entity_map() == w0.entity_map().remove(id)
            &&& msg == "胜利！获得 "@ + dec_nat(exp as nat) + " 经验和 "@ + dec_nat(gold as nat) + " 金币。"@ + if w0.player.exp + exp >= w0.player.exp_to_next {
                " 升级了！当前等级 "@ + dec_nat(w1.player.level as nat) + "！"@
            } else {
                Seq::empty()
            }
        },
        CombatResult::Defeat => {
            &&& w1.player == Player { hp: 1, ..w0.player }
            &&& w1.entity_map() == with_hp(w0.entity_map(), id, enemy_hp)
            &&& msg == "你被击败了...生命值恢复至 1 点。"@
        },
        CombatResult::Fled => {
            &&& w1.player == w0.player
            &&& w1.entity_map() == with_hp(w0.entity_map(), id, enemy_hp)
            &&& msg == "你安全逃脱了。"@
        },
    }
}

/// Apply the outcome of a combat against entity `id`: a victory pays its
/// gold and experience and removes the monster; a defeat leaves the player
/// with 1 HP; otherwise the monster keeps the HP it has left.
pub fn finish_attack(world: &mut World, id: EntityId, enemy_hp: i32, result: CombatResult) -> (msg: String)
    requires
        old(world).wf(),
        result matches CombatResult::Victory { exp, gold } ==> {
            &&& old(world).player.exp + exp <= u32::MAX
            &&& old(world).player.exp + exp >= old(world).player.exp_to_next ==> level_up_fits(old(world).player)
        },
    ensures
        finish_outcome(*old(world), *final(world), id, enemy_hp, result, msg@),
{
    match result {
        CombatResult::Victory { exp, gold } => {
            world.player.gold = world.player.gold.wrapping_add(gold);
            let leveled = world.player.gain_exp(exp);
            world.remove_entity(id);
            let mut msg = String::from_str("胜利！获得 ");
            push_dec(&mut msg, exp as u64);
            msg.append(" 经验和 ");
            push_dec(&mut msg, gold as u64);
            msg.append(" 金币。");
            let ghost head = msg@;
            assert(head == "胜利！获得 "@ + dec_nat(exp as nat) + " 经验和 "@ + dec_nat(gold as nat) + " 金币。"@);
            if leveled {
                msg.append(" 升级了！当前等级 ");
                push_dec(&mut msg, world.player.level as u64);
                msg.append("！");
                assert(msg@ == head + (" 升级了！当前等级 "@ + dec_nat(world.player.level as nat) + "！"@));
            } else {
                assert(msg@ =~= head + Seq::<char>::empty());
            }
            msg
        },
        CombatResult::Defeat => {
            world.player.hp = 1;
            set_entity_hp(world, id, enemy_hp);
            String::from_str("你被击败了...生命值恢复至 1 点。")
        },
        CombatResult::Fled => {
            set_entity_hp(world, id, enemy_hp);
            String::from_str("你安全逃脱了。")
        },
    }
}

/// Set the `hp` property of entity `id`, if present.
fn set_entity_hp(world: &mut World, id: EntityId, hp: i32)
    requires
        old(world).wf(),
    ensures
        final(world).wf(),
        final(world).same_except_entities(old(world)),
        final(world).next_id == old(world).next_id,
        final(world).entity_map() == with_hp(old(world).entity_map(), id, hp),
{
    let ghost m0 = world.entity_map();
    match world.take_entity(id) {
        Some(mut e) => {
            e.set_int("hp", hp as i64);
            world.insert_entity(e);
            assert(world.entity_map() =~= with_hp(m0, id, hp));
        },
        None => {
            assert(world.entity_map() =~= m0);
        },
    }
}

/// What `attack target` asks for from the directory `cwd`: the fight, or
/// the refusal shown.
pub open spec fn attack_shows(w: World, cwd: Seq<char>, target: Seq<char>, r: ExecResult) -> bool {
    exists|c: Result<EntityId, Seq<char>>|
        attack_check(w, cwd, target, c) && match c {
            Ok(id) => r == ExecResult::Fight(id),
            Err(e) => shows(r, e),
        }
}

/// The effect of executing `cmd` at time `now`: the world goes from `w0`
/// to `w1` and the working directory from `cwd0` to `cwd1`.
pub open spec fn exec_outcome(cmd: CommandModel, w0: World, w1: World, cwd0: Seq<char>, cwd1: Seq<char>, now: u64, r: ExecResult) -> bool {
    match cmd {
        CommandModel::Cd { path } => cd_outcome(w0, w1, cwd0, cwd1, path, r),
        _ => cwd1 == cwd0 && match cmd {
            CommandModel::Ls { path } => ls_shows(w0, cwd0, path, r) && w1 == w0,
            CommandModel::Pwd => shows(r, cwd0) && w1 == w0,
            CommandModel::Cat { file } => cat_shows(w0, cwd0, file, now as int, r) && w1 == w0,
            CommandModel::Find { pattern } => find_shows(w0, pattern, r) && w1 == w0,
            CommandModel::Cp { src, dst } => cp_outcome(w0, w1, cwd0, src, dst, r),
            CommandModel::Mv { src, dst } => mv_outcome(w0, w1, cwd0, src, dst, r),
            CommandModel::Rm { path } => rm_outcome(w0, w1, cwd0, path, r),
            CommandModel::Attack { target } => w1 == w0 && attack_shows(w0, cwd0, target, r),
            CommandModel::Talk { target } => talk_outcome(w0, cwd0, target, r) && w1 == w0,
            CommandModel::Use { item, target } => use_outcome(w0, w1, cwd0, item, target, now, r),
            CommandModel::Save => shows(r, "（use save in game loop）"@) && w1 == w0,
            CommandModel::Help => cat_shows(w0, cwd0, "/proc/help"@, now as int, r) && w1 == w0,
            CommandModel::Quit => r is Quit && w1 == w0,
            _ => true,
        },
    }
}

/// Execute a command against the world and the file system, with crop and
/// animal readiness judged at time `now`.
pub fn execute_at(cmd: Command, world: &mut World, vfs: &mut Vfs, now: u64) -> (r: ExecResult)
    requires
        old(world).wf(),
        old(world).next_id + 5 <= u64::MAX,
    ensures
        final(world).wf(),
        exec_outcome(cmd@, *old(world), *final(world), old(vfs).cwd_view(), final(vfs).cwd_view(), now, r),
{
    let ghost c = cmd@;
    let ghost w0 = *world;
    let ghost cwd0 = vfs.cwd_view();
    match cmd {
        Command::Ls { path } => {
            let r = exec_ls(world, vfs, path);
            assert(exec_outcome(c, w0, *world, cwd0, vfs.cwd_view(), now, r));
            r
        },
        Command::Cd { path } => {
            let r = exec_cd(world, vfs, path.as_str());
            assert(exec_outcome(c, w0, *world, cwd0, vfs.cwd_view(), now, r));
            r
        },
        Command::Pwd => {
            let r = ExecResult::Output(String::from_str(vfs.pwd()));
            assert(exec_outcome(c, w0, *world, cwd0, vfs.cwd_view(), now, r));
            r
        },
        Command::Cat { file } => {
            let r = exec_cat_at(world, vfs, file.as_str(), now);
            assert(exec_outcome(c, w0, *world, cwd0, vfs.cwd_view(), now, r));
            r
        },
        Command::Find { pattern } => {
            let r = exec_find(world, vfs, pattern.as_str());
            assert(exec_outcome(c, w0, *world, cwd0, vfs.cwd_view(), now, r));
            r
        },
        Command::Cp { src, dst } => {
            let r = exec_cp(world, vfs, src.as_str(), dst.as_str());
            assert(exec_outcome(c, w0, *world, cwd0, vfs.cwd_view(), now, r));
            r
        },
        Command::Mv { src, dst } => {
            let r = exec_mv(world, vfs, src.as_str(), dst.as_str());
            assert(exec_outcome(c, w0, *world, cwd0, vfs.cwd_view(), now, r));
            r
        },
        Command::Rm { path } => {
            let r = exec_rm(world, vfs, path.as_str());
            assert(exec_outcome(c, w0, *world, cwd0, vfs.cwd_view(), now, r));
            r
        },
        Command::Attack { target } => {
            let ck = exec_attack(world, vfs, target.as_str());
            let ghost cv = check_view(ck);
            assert(attack_check(w0, cwd0, target@, cv));
            let r = match ck {
                Ok(id) => ExecResult::Fight(id),
                Err(e) => ExecResult::Output(e),
            };
            assert(match cv {
                Ok(id) => r == ExecResult::Fight(id),
                Err(e) => shows(r, e),
            });
            assert(*world == w0);
            assert(vfs.cwd_view() == cwd0);
            assert(c == CommandModel::Attack { target: target@ });
            assert(attack_shows(w0, cwd0, target@, r));
            assert(exec_outcome(c, w0, *world, cwd0, vfs.cwd_view(), now, r));
            r
        },
        Command::Talk { target } => {
            let r = exec_talk(world, vfs, target.as_str());
            assert(exec_outcome(c, w0, *world, cwd0, vfs.cwd_view(), now, r));
            r
        },
        Command::Use { item, target } => {
            let r = match target {
                Some(t) => exec_use_at(world, vfs, item.as_str(), Some(t.as_str()), now),
                None => exec_use_at(world, vfs, item.as_str(), None, now),
            };
            assert(exec_outcome(c, w0, *world, cwd0, vfs.cwd_view(), now, r));
            r
        },
        Command::Save => {
            let r = ExecResult::Output(String::from_str("（use save in game loop）"));
            assert(exec_outcome(c, w0, *world, cwd0, vfs.cwd_view(), now, r));
            r
        },
        Command::Help => {
            let r = exec_cat_at(world, vfs, "/proc/help", now);
            assert(exec_outcome(c, w0, *world, cwd0, vfs.cwd_view(), now, r));
            r
        },
        Command::Quit => ExecResult::Quit,
    }
}

/// Execute a command against the world and the file system, with crop and
/// animal readiness judged by the clock.
pub fn execute(cmd: Command, world: &mut World, vfs: &mut Vfs) -> (r: ExecResult)
    requires
        old(world).wf(),
        old(world).next_id + 5 <= u64::MAX,
    ensures
        final(world).wf(),
        exists|now: u64|
            exec_outcome(cmd@, *old(world), *final(world), old(vfs).cwd_view(), final(vfs).cwd_view(), now, r),
{
    let now = current_unix_secs();
    execute_at(cmd, world, vfs, now)
}


/// White space around a command line does not change what it parses to.
pub proof fn law_parse_ignores_outer_space(input: Seq<char>)
    ensures
        parse_result(trim(input)) == parse_result(input),
{
    crate::text::law_trim_idempotent(input);
}
} // verus!
