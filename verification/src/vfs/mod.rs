//! Virtual file system (the interface layer).
//!
//! The game world is presented as a Linux-style directory tree: `/` lists
//! the areas and `proc`; each area directory holds a `.info` file and one
//! file per entity; the farm holds `plot_N` files and its animals; `/proc`
//! holds `status`, `areas` and `help`.  Nothing here touches the real file
//! system: files are generated from the in-memory world.

use vstd::prelude::*;
use vstd::string::*;
use crate::engine::area::{Area, FARM_AREA};
use crate::engine::current_unix_secs;
use crate::engine::entity::{entity_display, entity_view, EntityView};
use crate::engine::farming::{animal_names, Animal, Crop, Farm};
use crate::engine::world::{area_index, area_names_spec, entity_views, is_area_listing, World};
use crate::text::{
    append_vec, chars_of, dec_nat, eq_vec, has_prefix, join, join_vecs, lemma_split_join,
    lemma_dec_nat_digits, lemma_split_on_concat, lemma_split_on_pieces, lemma_split_on_whole, non_empty,
    non_empty_vecs,
    parse_usize, parse_usize_spec, push_dec, seq_sorted, sort_strings, starts_with_vec,
    string_of_range, contains_sub, contains_vec, to_lowercase, unicode_lower, split_chars, split_on, str_eq, str_views, string_of,
    views,
};

verus! {

/// A single directory entry returned by `ls`.
#[derive(Debug, Clone)]
pub enum VfsEntry {
    Dir(String),
    File(String),
}

impl VfsEntry {
    /// The entry's name.
    pub open spec fn name_view(&self) -> Seq<char> {
        match self {
            VfsEntry::Dir(n) => n@,
            VfsEntry::File(n) => n@,
        }
    }

    /// The entry's name.
    pub fn name(&self) -> (r: &str)
        ensures
            r@ == self.name_view(),
    {
        match self {
            VfsEntry::Dir(n) => n.as_str(),
            VfsEntry::File(n) => n.as_str(),
        }
    }
}

/// Virtual filesystem interface: the current working directory.
pub struct Vfs {
    /// Current working directory path (e.g. `"/"`, `"/森林"`, `"/proc"`).
    cwd: String,
}

/// `path.split('/')` without the empty pieces.
pub open spec fn split_path_spec(path: Seq<char>) -> Seq<Seq<char>> {
    non_empty(split_on(path, '/'))
}

/// Path components after interpreting `""`, `"."` and `".."`.
pub open spec fn norm_parts(parts: Seq<Seq<char>>) -> Seq<Seq<char>>
    decreases parts.len(),
{
    if parts.len() == 0 {
        Seq::empty()
    } else {
        let acc = norm_parts(parts.drop_last());
        let q = parts.last();
        if q.len() == 0 || q == "."@ {
            acc
        } else if q == ".."@ {
            if acc.len() > 0 {
                acc.drop_last()
            } else {
                acc
            }
        } else {
            acc.push(q)
        }
    }
}

/// The absolute path with the given components.
pub open spec fn abs_path(parts: Seq<Seq<char>>) -> Seq<char> {
    if parts.len() == 0 {
        "/"@
    } else {
        "/"@ + join(parts, "/"@)
    }
}

/// What [`normalize`] returns.
pub open spec fn normalize_spec(path: Seq<char>) -> Seq<char> {
    abs_path(norm_parts(split_on(path, '/')))
}

/// What [`parent`] returns.
pub open spec fn parent_spec(path: Seq<char>) -> Seq<char> {
    let ps = split_path_spec(path);
    if ps.len() <= 1 {
        "/"@
    } else {
        abs_path(ps.take(ps.len() - 1))
    }
}

/// What [`Vfs::resolve`] returns for `path` against the directory `cwd`.
pub open spec fn resolve_spec(cwd: Seq<char>, path: Seq<char>) -> Seq<char> {
    if has_prefix(path, "/"@) {
        normalize_spec(path)
    } else if path == ".."@ {
        parent_spec(cwd)
    } else if path == "."@ || path.len() == 0 {
        cwd
    } else if path == "~"@ {
        "/"@
    } else if cwd == "/"@ {
        normalize_spec("/"@ + path)
    } else {
        normalize_spec(cwd + "/"@ + path)
    }
}

/// The area named by a working directory, if it is an area directory.
pub open spec fn area_of_cwd(cwd: Seq<char>) -> Option<Seq<char>> {
    let ps = split_path_spec(cwd);
    if ps.len() == 1 && ps[0] != "proc"@ {
        Some(ps[0])
    } else {
        None
    }
}

fn is_lit(v: &Vec<char>, lit: &str) -> (r: bool)
    ensures
        r == (v@ == lit@),
{
    let l = chars_of(lit);
    eq_vec(v, &l)
}

/// `"/"` followed by the components joined with `/`, or `"/"` when empty.
fn abs_path_of(parts: &Vec<Vec<char>>) -> (r: String)
    ensures
        r@ == abs_path(views(parts@)),
{
    let slash = chars_of("/");
    if parts.len() == 0 {
        return string_of(&slash);
    }
    let mut out = slash.clone();
    let j = join_vecs(parts, &slash);
    append_vec(&mut out, &j);
    string_of(&out)
}

/// Split a path into non-empty components (strips the leading `/`).
pub fn split_path(path: &str) -> (r: Vec<String>)
    ensures
        str_views(r@) == split_path_spec(path@),
{
    let v = chars_of(path);
    let parts = non_empty_vecs(split_chars(&v, '/'));
    let mut r: Vec<String> = Vec::new();
    let mut i: usize = 0;
    while i < parts.len()
        invariant
            i <= parts@.len(),
            str_views(r@) == views(parts@).take(i as int),
        decreases parts@.len() - i,
    {
        let ghost prev = r@;
        let x = string_of(&parts[i]);
        r.push(x);
        assert(str_views(r@) =~= str_views(prev).push(x@));
        assert(str_views(r@) =~= views(parts@).take(i + 1));
        i = i + 1;
    }
    assert(views(parts@).take(parts@.len() as int) =~= views(parts@));
    r
}

fn split_path_vecs(v: &Vec<char>) -> (r: Vec<Vec<char>>)
    ensures
        views(r@) == split_path_spec(v@),
{
    non_empty_vecs(split_chars(v, '/'))
}

/// Normalize a path: collapse `..`, drop `.` and empty components, remove a
/// trailing `/`, ensure a leading `/`.
pub fn normalize(path: &str) -> (r: String)
    ensures
        r@ == normalize_spec(path@),
{
    let v = chars_of(path);
    let parts = split_chars(&v, '/');
    let ghost ps = views(parts@);
    let mut comps: Vec<Vec<char>> = Vec::new();
    let mut i: usize = 0;
    while i < parts.len()
        invariant
            ps == views(parts@),
            ps == split_on(v@, '/'),
            i <= parts@.len(),
            views(comps@) == norm_parts(ps.take(i as int)),
        decreases parts@.len() - i,
    {
        let q = &parts[i];
        assert(ps.take(i + 1).drop_last() =~= ps.take(i as int));
        assert(ps.take(i + 1).last() == q@);
        if q.len() == 0 || is_lit(q, ".") {
        } else if is_lit(q, "..") {
            if comps.len() > 0 {
                let ghost prev = comps@;
                comps.pop();
                assert(views(comps@) =~= views(prev).drop_last());
            }
        } else {
            let ghost prev = comps@;
            comps.push(q.clone());
            assert(views(comps@) =~= views(prev).push(q@));
        }
        i = i + 1;
    }
    assert(ps.take(parts@.len() as int) =~= ps);
    abs_path_of(&comps)
}

/// Get the parent of a path.
pub fn parent(path: &str) -> (r: String)
    ensures
        r@ == parent_spec(path@),
{
    let v = chars_of(path);
    let ps = split_path_vecs(&v);
    if ps.len() <= 1 {
        return String::from_str("/");
    }
    let mut front: Vec<Vec<char>> = Vec::new();
    let mut i: usize = 0;
    while i < ps.len() - 1
        invariant
            ps@.len() >= 2,
            i + 1 <= ps@.len(),
            views(front@) == views(ps@).take(i as int),
        decreases ps@.len() - i,
    {
        let ghost prev = front@;
        let x = ps[i].clone();
        front.push(x);
        assert(views(front@) =~= views(prev).push(x@));
        assert(views(front@) =~= views(ps@).take(i + 1));
        i = i + 1;
    }
    abs_path_of(&front)
}

/// The command reference shown by `help` and `/proc/help`.
pub const HELP_TEXT: &'static str = "=== 命令帮助 ===\n\n基础命令（入门）:\n  ls [路径]          列出目录内容\n  cd <路径>          切换目录/区域\n  pwd                显示当前路径\n\n信息命令:\n  cat <文件>         查看文件内容\n  find <关键词>      搜索文件\n\n操作命令:\n  cp <源> <目标>     复制文件\n  mv <源> <目标>     移动文件\n  rm <文件>          删除文件\n\n扩展行为:\n  attack <目标>      攻击怪物\n  talk <目标>        与NPC对话\n  use <物品> [目标]  使用物品\n\n系统:\n  save               保存游戏\n  help               显示此帮助\n  quit               退出游戏\n\n路径示例:\n  /森林              绝对路径\n  ..                 上级目录\n  .info              当前目录下的文件\n  /proc/status       查看玩家状态\n";

/// The `.info` file of the farm.
pub const FARM_INFO: &'static str = "名称: 农场\n描述: 种植作物、饲养动物的地方。\n";

/// An area of that name exists (the farm always does).
pub open spec fn area_exists_spec(w: World, name: Seq<char>) -> bool {
    name == FARM_AREA@ || area_index(w.areas@, name) >= 0
}

/// `path` names a directory: `/`, `/proc` or an area.
pub open spec fn is_directory_spec(w: World, path: Seq<char>) -> bool {
    path == "/"@ || {
        let ps = split_path_spec(path);
        ps.len() == 1 && (ps[0] == "proc"@ || area_exists_spec(w, ps[0]))
    }
}

/// The `/proc/areas` line of one area.
pub open spec fn area_line(a: Area, current: Seq<char>) -> Seq<char> {
    "  "@ + a.name@ + " (Lv."@ + dec_nat(a.level_req as nat) + " 要求, 敌人Lv."@ + dec_nat(
        a.enemy_level as nat,
    ) + ")"@ + (if a.name@ == current {
        " ← 当前"@
    } else {
        ""@
    }) + "\n"@
}

/// The `/proc/areas` lines of the areas, in order.
pub open spec fn area_lines(areas: Seq<Area>, current: Seq<char>) -> Seq<char>
    decreases areas.len(),
{
    if areas.len() == 0 {
        Seq::empty()
    } else {
        area_lines(areas.drop_last(), current) + area_line(areas.last(), current)
    }
}

/// What reading `/proc/<name>` gives.
pub open spec fn proc_result(w: World, name: Seq<char>) -> Result<Seq<char>, Seq<char>> {
    if name == "status"@ {
        Ok("=== 玩家状态 ===\n"@ + w.player.status_spec() + "\n当前位置: "@ + w.player_area@)
    } else if name == "areas"@ {
        Ok("=== 区域列表 ===\n"@ + area_lines(w.areas@, w.player_area@) + "  "@ + FARM_AREA@ + " (农场)\n"@)
    } else if name == "help"@ {
        Ok(HELP_TEXT@)
    } else {
        Err("cat: /proc/"@ + name + ": 无此文件"@)
    }
}

/// The view of a text result.
pub open spec fn text_result(r: Result<String, String>) -> Result<Seq<char>, Seq<char>> {
    match r {
        Ok(t) => Ok(t@),
        Err(e) => Err(e@),
    }
}

/// A directory entry as plain data: whether it is a directory, and its name.
pub open spec fn entry_view(e: VfsEntry) -> (bool, Seq<char>) {
    match e {
        VfsEntry::Dir(n) => (true, n@),
        VfsEntry::File(n) => (false, n@),
    }
}

/// The plain data of a listing.
pub open spec fn entries_view(s: Seq<VfsEntry>) -> Seq<(bool, Seq<char>)> {
    s.map_values(|e: VfsEntry| entry_view(e))
}

/// The names of a listing.
pub open spec fn entry_names(s: Seq<(bool, Seq<char>)>) -> Seq<Seq<char>> {
    s.map_values(|e: (bool, Seq<char>)| e.1)
}

/// Files with the given names.
pub open spec fn files(names: Seq<Seq<char>>) -> Seq<(bool, Seq<char>)> {
    names.map_values(|n: Seq<char>| (false, n))
}

/// The file name of plot `i`.
pub open spec fn plot_name(i: int) -> Seq<char> {
    "plot_"@ + dec_nat(i as nat)
}

/// The files of the farm directory after `.info`: its plots, then its
/// animals.
pub open spec fn farm_files(f: Farm) -> Seq<Seq<char>> {
    Seq::new(f.plots@.len(), |i: int| plot_name(i)) + animal_names(f.animals@)
}

/// The view of a listing result.
pub open spec fn listing_result(r: Result<Vec<VfsEntry>, String>) -> Result<Seq<(bool, Seq<char>)>, Seq<char>> {
    match r {
        Ok(v) => Ok(entries_view(v@)),
        Err(e) => Err(e@),
    }
}

/// What listing the directory `target` gives.
pub open spec fn ls_outcome(w: World, target: Seq<char>, r: Result<Seq<(bool, Seq<char>)>, Seq<char>>) -> bool {
    let ps = split_path_spec(target);
    if target == "/"@ {
        &&& r is Ok
        &&& forall|i: int| 0 <= i < r->Ok_0.len() ==> (#[trigger] r->Ok_0[i]).0
        &&& seq_sorted(entry_names(r->Ok_0))
        &&& entry_names(r->Ok_0).to_multiset() == area_names_spec(w.areas@).push("proc"@).to_multiset()
    } else if ps.len() > 0 && ps[0] == "proc"@ {
        if ps.len() == 1 {
            r == Ok::<Seq<(bool, Seq<char>)>, Seq<char>>(seq![(false, "status"@), (false, "areas"@), (false, "help"@)])
        } else {
            r == Err::<Seq<(bool, Seq<char>)>, Seq<char>>("ls: "@ + target + ": 不是一个目录"@)
        }
    } else if ps.len() == 1 {
        if !area_exists_spec(w, ps[0]) {
            r == Err::<Seq<(bool, Seq<char>)>, Seq<char>>("ls: "@ + ps[0] + ": 区域不存在"@)
        } else if ps[0] == FARM_AREA@ {
            r == Ok::<Seq<(bool, Seq<char>)>, Seq<char>>(seq![(false, ".info"@)] + files(farm_files(w.farm)))
        } else {
            &&& r is Ok
            &&& exists|vs: Seq<EntityView>|
                is_area_listing(w.entity_map(), ps[0], vs) && r->Ok_0 == seq![(false, ".info"@)] + files(
                    vs.map_values(|v: EntityView| v.name),
                )
        }
    } else {
        r == Err::<Seq<(bool, Seq<char>)>, Seq<char>>("ls: "@ + target + ": 不是一个目录"@)
    }
}

/// The status line of a crop at time `now`.
pub open spec fn crop_status(c: Crop, now: int) -> Seq<char> {
    if c.ready_at(now) {
        "可以收获！"@
    } else {
        "生长中..."@
    }
}

/// The status line of an animal at time `now`.
pub open spec fn animal_status(a: Animal, now: int) -> Seq<char> {
    if a.breeding {
        if a.ready_at(now) {
            "可以收集！"@
        } else {
            "繁殖中..."@
        }
    } else {
        "空闲"@
    }
}

/// The file of plot `idx` at time `now`.
pub open spec fn plot_text(idx: nat, p: Option<Crop>, now: int) -> Seq<char> {
    match p {
        None => "[作物] 地块 "@ + dec_nat(idx) + "\n状态: 空地\n"@,
        Some(c) => "[作物] 地块 "@ + dec_nat(idx) + "\n作物: "@ + c.name@ + "\n状态: "@ + crop_status(c, now)
            + "\n产出: "@ + dec_nat(c.yield_gold as nat) + " 金币\n"@,
    }
}

/// The file of an animal at time `now`.
pub open spec fn animal_text(a: Animal, now: int) -> Seq<char> {
    "[动物] "@ + a.name@ + "\n状态: "@ + animal_status(a, now) + "\n繁殖时间: "@ + dec_nat(
        a.breed_time_secs as nat,
    ) + "秒\n产出: "@ + dec_nat(a.yield_gold as nat) + " 金币\n"@
}

/// What reading the farm file `name` gives at time `now`.
pub open spec fn farm_file_result(f: Farm, name: Seq<char>, now: int) -> Result<Seq<char>, Seq<char>> {
    if has_prefix(name, "plot_"@) {
        match parse_usize_spec(name.skip(5)) {
            None => Err("cat: 无效的地块编号: "@ + name),
            Some(idx) => if idx >= f.plots@.len() {
                Err("cat: 无此文件: "@ + name)
            } else {
                Ok(plot_text(idx as nat, f.plots@[idx as int], now))
            },
        }
    } else {
        match animal_names(f.animals@).index_of_first(name) {
            Some(i) => Ok(animal_text(f.animals@[i], now)),
            None => Err("cat: "@ + FARM_AREA@ + "/"@ + name + ": 无此文件"@),
        }
    }
}

/// Entity `id` is in `area` and its lower-cased name contains the
/// lower-cased `query`.
pub open spec fn entity_matches(w: World, area: Seq<char>, query: Seq<char>, id: u64) -> bool {
    &&& w.entity_map().contains_key(id)
    &&& w.entity_map()[id].area == area
    &&& contains_sub(unicode_lower(w.entity_map()[id].name), unicode_lower(query))
}

/// What reading the file at the absolute path `target` gives at time `now`.
pub open spec fn cat_outcome(w: World, target: Seq<char>, now: int, r: Result<Seq<char>, Seq<char>>) -> bool {
    let ps = split_path_spec(target);
    if ps.len() == 0 {
        r == Err::<Seq<char>, Seq<char>>("cat: /: 是一个目录"@)
    } else if ps[0] == "proc"@ {
        if ps.len() != 2 {
            r == Err::<Seq<char>, Seq<char>>("cat: "@ + target + ": 无此文件"@)
        } else {
            r == proc_result(w, ps[1])
        }
    } else if ps.len() != 2 {
        r == Err::<Seq<char>, Seq<char>>("cat: "@ + target + ": 无此文件"@)
    } else if !area_exists_spec(w, ps[0]) {
        r == Err::<Seq<char>, Seq<char>>("cat: "@ + ps[0] + ": 区域不存在"@)
    } else if ps[1] == ".info"@ {
        if ps[0] == FARM_AREA@ {
            r == Ok::<Seq<char>, Seq<char>>(FARM_INFO@)
        } else {
            r == Ok::<Seq<char>, Seq<char>>(w.areas@[area_index(w.areas@, ps[0])].display_spec())
        }
    } else if ps[0] == FARM_AREA@ {
        r == farm_file_result(w.farm, ps[1], now)
    } else {
        match r {
            Ok(t) => exists|id: u64| entity_matches(w, ps[0], ps[1], id) && entity_display(w.entity_map()[id], t),
            Err(e) => e == "cat: "@ + ps[0] + "/"@ + ps[1] + ": 无此文件"@ && forall|id: u64|
                !entity_matches(w, ps[0], ps[1], id),
        }
    }
}

/// Read a farm file (a plot or an animal) at time `now`.
fn read_farm_entity_at(world: &World, filename: &str, now: u64) -> (r: Result<String, String>)
    ensures
        text_result(r) == farm_file_result(world.farm, filename@, now as int),
{
    let fv = chars_of(filename);
    let pre = chars_of("plot_");
    proof {
        reveal_strlit("plot_");
    }
    if starts_with_vec(&fv, &pre) {
        let rest = string_of_range(&fv, 5, fv.len());
        assert(rest@ =~= filename@.skip(5));
        let idx = match parse_usize(rest.as_str()) {
            Some(i) => i,
            None => {
                let mut e = String::from_str("cat: 无效的地块编号: ");
                e.append(filename);
                return Err(e);
            },
        };
        if idx >= world.farm.plots.len() {
            let mut e = String::from_str("cat: 无此文件: ");
            e.append(filename);
            return Err(e);
        }
        let mut t = String::from_str("[作物] 地块 ");
        push_dec(&mut t, idx as u64);
        match &world.farm.plots[idx] {
            None => {
                t.append("\n状态: 空地\n");
            },
            Some(crop) => {
                t.append("\n作物: ");
                t.append(crop.name.as_str());
                t.append("\n状态: ");
                if crop.is_ready_at(now) {
                    t.append("可以收获！");
                } else {
                    t.append("生长中...");
                }
                t.append("\n产出: ");
                push_dec(&mut t, crop.yield_gold as u64);
                t.append(" 金币\n");
            },
        }
        return Ok(t);
    }
    proof {
        animal_names(world.farm.animals@).index_of_first_ensures(filename@);
    }
    match world.farm.animal_position(filename) {
        Some(i) => {
            let a = &world.farm.animals[i];
            let mut t = String::from_str("[动物] ");
            t.append(a.name.as_str());
            t.append("\n状态: ");
            if a.breeding {
                if a.is_ready_at(now) {
                    t.append("可以收集！");
                } else {
                    t.append("繁殖中...");
                }
            } else {
                t.append("空闲");
            }
            t.append("\n繁殖时间: ");
            push_dec(&mut t, a.breed_time_secs);
            t.append("秒\n产出: ");
            push_dec(&mut t, a.yield_gold as u64);
            t.append(" 金币\n");
            Ok(t)
        },
        None => {
            let mut e = String::from_str("cat: ");
            e.append(FARM_AREA);
            e.append("/");
            e.append(filename);
            e.append(": 无此文件");
            Err(e)
        },
    }
}

/// Whether the lower-cased `name` contains `pat` (already lower-cased).
pub open spec fn name_hit(name: Seq<char>, pat: Seq<char>) -> bool {
    contains_sub(unicode_lower(name), pat)
}

/// The farm plots whose crop name matches, as paths.
pub open spec fn plot_hits(plots: Seq<Option<Crop>>, pat: Seq<char>) -> Seq<Seq<char>>
    decreases plots.len(),
{
    if plots.len() == 0 {
        Seq::empty()
    } else {
        let rest = plot_hits(plots.drop_last(), pat);
        match plots.last() {
            Some(c) => if name_hit(c.name@, pat) {
                rest.push("/"@ + FARM_AREA@ + "/"@ + plot_name(plots.len() - 1))
            } else {
                rest
            },
            None => rest,
        }
    }
}

/// The farm animals whose name matches, as paths.
pub open spec fn animal_hits(animals: Seq<Animal>, pat: Seq<char>) -> Seq<Seq<char>>
    decreases animals.len(),
{
    if animals.len() == 0 {
        Seq::empty()
    } else {
        let rest = animal_hits(animals.drop_last(), pat);
        if name_hit(animals.last().name@, pat) {
            rest.push("/"@ + FARM_AREA@ + "/"@ + animals.last().name@)
        } else {
            rest
        }
    }
}

/// The listed entities whose name matches, as paths.
pub open spec fn entity_hits(area: Seq<char>, vs: Seq<EntityView>, pat: Seq<char>) -> Seq<Seq<char>>
    decreases vs.len(),
{
    if vs.len() == 0 {
        Seq::empty()
    } else {
        let rest = entity_hits(area, vs.drop_last(), pat);
        if name_hit(vs.last().name, pat) {
            rest.push("/"@ + area + "/"@ + vs.last().name)
        } else {
            rest
        }
    }
}

/// The search results within one area: the area itself if its name
/// matches, then its matching plots and animals (farm) or entities.
pub open spec fn area_hits(w: World, area: Seq<char>, vs: Seq<EntityView>, pat: Seq<char>) -> Seq<Seq<char>> {
    let own = if name_hit(area, pat) {
        seq!["/"@ + area + "/"@]
    } else {
        Seq::empty()
    };
    if area == FARM_AREA@ {
        own + plot_hits(w.farm.plots@, pat) + animal_hits(w.farm.animals@, pat)
    } else {
        own + entity_hits(area, vs, pat)
    }
}

/// The search results over the areas `names`, with `ls[k]` the listing of
/// `names[k]`.
pub open spec fn find_hits(w: World, names: Seq<Seq<char>>, ls: Seq<Seq<EntityView>>, pat: Seq<char>) -> Seq<Seq<char>>
    decreases names.len(),
{
    if names.len() == 0 || ls.len() != names.len() {
        Seq::empty()
    } else {
        find_hits(w, names.drop_last(), ls.drop_last(), pat) + area_hits(w, names.last(), ls.last(), pat)
    }
}

fn plot_path(i: usize) -> (r: String)
    ensures
        r@ == "/"@ + FARM_AREA@ + "/"@ + plot_name(i as int),
{
    let mut t = String::from_str("/");
    t.append(FARM_AREA);
    t.append("/plot_");
    push_dec(&mut t, i as u64);
    proof {
        reveal_strlit("/plot_");
        reveal_strlit("/");
        reveal_strlit("plot_");
        assert("/plot_"@ =~= "/"@ + "plot_"@);
    }
    t
}

/// Whether the lower-cased `name` contains `lv`.
fn hit(name: &str, lv: &Vec<char>) -> (r: bool)
    ensures
        r == contains_sub(unicode_lower(name@), lv@),
{
    let l = to_lowercase(name);
    let v = chars_of(l.as_str());
    contains_vec(&v, lv)
}

/// The search results within one area.
fn search_area(world: &World, area: &str, lv: &Vec<char>) -> (r: (Vec<String>, Ghost<Seq<EntityView>>))
    requires
        world.wf(),
    ensures
        area@ != FARM_AREA@ ==> is_area_listing(world.entity_map(), area@, r.1@),
        str_views(r.0@) == area_hits(*world, area@, r.1@, lv@),
{
    let mut out: Vec<String> = Vec::new();
    if hit(area, lv) {
        let mut t = String::from_str("/");
        t.append(area);
        t.append("/");
        out.push(t);
    }
    let ghost own = str_views(out@);
    assert(own =~= if name_hit(area@, lv@) { seq!["/"@ + area@ + "/"@] } else { Seq::empty() });
    if str_eq(area, FARM_AREA) {
        let mut i: usize = 0;
        while i < world.farm.plots.len()
            invariant
                i <= world.farm.plots@.len(),
                str_views(out@) == own + plot_hits(world.farm.plots@.take(i as int), lv@),
            decreases world.farm.plots@.len() - i,
        {
            let ghost t = world.farm.plots@.take(i + 1);
            assert(t.drop_last() =~= world.farm.plots@.take(i as int));
            match &world.farm.plots[i] {
                Some(c) => {
                    if hit(c.name.as_str(), lv) {
                        let ghost prev = out@;
                        let pth = plot_path(i);
                        out.push(pth);
                        assert(str_views(out@) =~= str_views(prev).push(pth@));
                    }
                },
                None => {},
            }
            i = i + 1;
        }
        assert(world.farm.plots@.take(world.farm.plots@.len() as int) =~= world.farm.plots@);
        let ghost mid = str_views(out@);
        let mut k: usize = 0;
        while k < world.farm.animals.len()
            invariant
                k <= world.farm.animals@.len(),
                str_views(out@) == mid + animal_hits(world.farm.animals@.take(k as int), lv@),
            decreases world.farm.animals@.len() - k,
        {
            let ghost t = world.farm.animals@.take(k + 1);
            assert(t.drop_last() =~= world.farm.animals@.take(k as int));
            let a = &world.farm.animals[k];
            if hit(a.name.as_str(), lv) {
                let ghost prev = out@;
                let mut pth = String::from_str("/");
                pth.append(FARM_AREA);
                pth.append("/");
                pth.append(a.name.as_str());
                out.push(pth);
                assert(str_views(out@) =~= str_views(prev).push(pth@));
            }
            k = k + 1;
        }
        assert(world.farm.animals@.take(world.farm.animals@.len() as int) =~= world.farm.animals@);
        (out, Ghost(Seq::empty()))
    } else {
        let es = world.entities_in_area(area);
        let ghost vs = entity_views(es@);
        let mut i: usize = 0;
        while i < es.len()
            invariant
                i <= es@.len(),
                vs == entity_views(es@),
                str_views(out@) == own + entity_hits(area@, vs.take(i as int), lv@),
            decreases es@.len() - i,
        {
            let ghost t = vs.take(i + 1);
            assert(t.drop_last() =~= vs.take(i as int));
            assert(t.last() == entity_view(*es@[i as int]));
            let e = es[i];
            if hit(e.name.as_str(), lv) {
                let ghost prev = out@;
                let mut pth = String::from_str("/");
                pth.append(area);
                pth.append("/");
                pth.append(e.name.as_str());
                out.push(pth);
                assert(str_views(out@) =~= str_views(prev).push(pth@));
            }
            i = i + 1;
        }
        assert(vs.take(es@.len() as int) =~= vs);
        (out, Ghost(vs))
    }
}

/// Check whether an area name is valid.
fn area_exists(world: &World, name: &str) -> (r: bool)
    ensures
        r == area_exists_spec(*world, name@),
{
    if str_eq(name, FARM_AREA) {
        return true;
    }
    world.find_area(name).is_some()
}

/// Check whether a path refers to a valid directory.
fn is_directory(world: &World, path: &str) -> (r: bool)
    ensures
        r == is_directory_spec(*world, path@),
{
    if str_eq(path, "/") {
        return true;
    }
    let parts = split_path(path);
    if parts.len() == 1 {
        if str_eq(parts[0].as_str(), "proc") {
            return true;
        }
        return area_exists(world, parts[0].as_str());
    }
    false
}

/// The `/proc/areas` line of one area.
fn area_line_text(a: &Area, current: &String) -> (r: String)
    ensures
        r@ == area_line(*a, current@),
{
    let mut out = String::from_str("  ");
    out.append(a.name.as_str());
    out.append(" (Lv.");
    push_dec(&mut out, a.level_req as u64);
    out.append(" 要求, 敌人Lv.");
    push_dec(&mut out, a.enemy_level as u64);
    out.append(")");
    if a.name == *current {
        out.append(" ← 当前");
    } else {
        proof {
            reveal_strlit("");
        }
    }
    out.append("\n");
    out
}

/// Read a /proc file.
fn read_proc(world: &World, name: &str) -> (r: Result<String, String>)
    ensures
        text_result(r) == proc_result(*world, name@),
{
    if str_eq(name, "status") {
        let mut s = String::from_str("=== 玩家状态 ===\n");
        let st = world.player.status_display();
        s.append(st.as_str());
        s.append("\n当前位置: ");
        s.append(world.player_area.as_str());
        Ok(s)
    } else if str_eq(name, "areas") {
        let mut out = String::from_str("=== 区域列表 ===\n");
        let ghost head = out@;
        let mut i: usize = 0;
        while i < world.areas.len()
            invariant
                i <= world.areas@.len(),
                out@ == head + area_lines(world.areas@.take(i as int), world.player_area@),
            decreases world.areas@.len() - i,
        {
            let a = &world.areas[i];
            let line = area_line_text(a, &world.player_area);
            out.append(line.as_str());
            proof {
                let t = world.areas@.take(i + 1);
                assert(t.drop_last() =~= world.areas@.take(i as int));
                assert(t.last() == *a);
            }
            i = i + 1;
        }
        assert(world.areas@.take(world.areas@.len() as int) =~= world.areas@);
        out.append("  ");
        out.append(FARM_AREA);
        out.append(" (农场)\n");
        Ok(out)
    } else if str_eq(name, "help") {
        Ok(String::from_str(HELP_TEXT))
    } else {
        let mut e = String::from_str("cat: /proc/");
        e.append(name);
        e.append(": 无此文件");
        Err(e)
    }
}

/// The root listing: every area and `proc`, as directories, by name.
fn root_entries(world: &World) -> (r: Vec<VfsEntry>)
    ensures
        forall|i: int| 0 <= i < r@.len() ==> (#[trigger] entries_view(r@)[i]).0,
        seq_sorted(entry_names(entries_view(r@))),
        entry_names(entries_view(r@)).to_multiset() == area_names_spec(world.areas@).push("proc"@).to_multiset(),
{
    let names = world.area_names();
    let mut strs: Vec<String> = Vec::new();
    let mut i: usize = 0;
    while i < names.len()
        invariant
            i <= names@.len(),
            str_views(strs@) == crate::engine::world::str_seq_views(names@).take(i as int),
        decreases names@.len() - i,
    {
        let ghost prev = strs@;
        let x = String::from_str(names[i]);
        strs.push(x);
        assert(str_views(strs@) =~= str_views(prev).push(x@));
        assert(crate::engine::world::str_seq_views(names@).take(i + 1) =~= crate::engine::world::str_seq_views(names@).take(i as int).push(names@[i as int]@));
        i = i + 1;
    }
    assert(crate::engine::world::str_seq_views(names@).take(names@.len() as int) =~= area_names_spec(world.areas@));
    let ghost before = strs@;
    strs.push(String::from_str("proc"));
    assert(str_views(strs@) =~= area_names_spec(world.areas@).push("proc"@));
    let sorted = sort_strings(&strs);
    let mut r: Vec<VfsEntry> = Vec::new();
    let mut k: usize = 0;
    while k < sorted.len()
        invariant
            k <= sorted@.len(),
            entries_view(r@) == str_views(sorted@).take(k as int).map_values(|n: Seq<char>| (true, n)),
        decreases sorted@.len() - k,
    {
        let ghost prev = r@;
        let x = sorted[k].clone();
        r.push(VfsEntry::Dir(x));
        assert(entries_view(r@) =~= entries_view(prev).push((true, x@)));
        assert(str_views(sorted@).take(k + 1) =~= str_views(sorted@).take(k as int).push(x@));
        assert(str_views(sorted@).take(k + 1).map_values(|n: Seq<char>| (true, n)) =~= str_views(sorted@).take(k as int).map_values(|n: Seq<char>| (true, n)).push((true, x@)));
        k = k + 1;
    }
    assert(entry_names(entries_view(r@)) =~= str_views(sorted@));
    r
}

/// The listing of the farm directory.
fn farm_entries(farm: &Farm) -> (r: Vec<VfsEntry>)
    ensures
        entries_view(r@) == seq![(false, ".info"@)] + files(farm_files(*farm)),
{
    let mut r: Vec<VfsEntry> = Vec::new();
    r.push(VfsEntry::File(String::from_str(".info")));
    let mut i: usize = 0;
    let ghost plots = Seq::new(farm.plots@.len(), |j: int| plot_name(j));
    while i < farm.plots.len()
        invariant
            i <= farm.plots@.len(),
            plots == Seq::new(farm.plots@.len(), |j: int| plot_name(j)),
            entries_view(r@) == seq![(false, ".info"@)] + files(plots.take(i as int)),
        decreases farm.plots@.len() - i,
    {
        let mut n = String::from_str("plot_");
        push_dec(&mut n, i as u64);
        let ghost prev = r@;
        let ghost nv = n@;
        r.push(VfsEntry::File(n));
        assert(entries_view(r@) =~= entries_view(prev).push((false, nv)));
        assert(plots.take(i + 1) =~= plots.take(i as int).push(plot_name(i as int)));
        assert(files(plots.take(i + 1)) =~= files(plots.take(i as int)).push((false, nv)));
        assert(entries_view(r@) =~= seq![(false, ".info"@)] + files(plots.take(i + 1)));
        i = i + 1;
    }
    assert(plots.take(farm.plots@.len() as int) =~= plots);
    let ghost an = animal_names(farm.animals@);
    let mut k: usize = 0;
    while k < farm.animals.len()
        invariant
            k <= farm.animals@.len(),
            an == animal_names(farm.animals@),
            entries_view(r@) == seq![(false, ".info"@)] + files(plots) + files(an.take(k as int)),
        decreases farm.animals@.len() - k,
    {
        let ghost prev = r@;
        let x = farm.animals[k].name.clone();
        r.push(VfsEntry::File(x));
        assert(entries_view(r@) =~= entries_view(prev).push((false, x@)));
        assert(an.take(k + 1) =~= an.take(k as int).push(x@));
        assert(files(an.take(k + 1)) =~= files(an.take(k as int)).push((false, x@)));
        assert(entries_view(r@) =~= seq![(false, ".info"@)] + files(plots) + files(an.take(k + 1)));
        k = k + 1;
    }
    assert(an.take(farm.animals@.len() as int) =~= an);
    assert(files(plots) + files(an) =~= files(farm_files(*farm)));
    r
}

/// The listing of a regular area directory: `.info`, then its entities by
/// name.
fn area_entries(world: &World, area: &str) -> (r: Vec<VfsEntry>)
    requires
        world.wf(),
    ensures
        exists|vs: Seq<EntityView>|
            is_area_listing(world.entity_map(), area@, vs) && entries_view(r@) == seq![(false, ".info"@)]
                + files(vs.map_values(|v: EntityView| v.name)),
{
    let es = world.entities_in_area(area);
    let ghost vs = entity_views(es@);
    let mut r: Vec<VfsEntry> = Vec::new();
    r.push(VfsEntry::File(String::from_str(".info")));
    let mut i: usize = 0;
    while i < es.len()
        invariant
            i <= es@.len(),
            vs == entity_views(es@),
            entries_view(r@) == seq![(false, ".info"@)] + files(vs.map_values(|v: EntityView| v.name).take(i as int)),
        decreases es@.len() - i,
    {
        let ghost prev = r@;
        let x = es[i].name.clone();
        r.push(VfsEntry::File(x));
        let ghost nm = vs.map_values(|v: EntityView| v.name);
        assert(entries_view(r@) =~= entries_view(prev).push((false, x@)));
        assert(nm[i as int] == x@);
        assert(nm.take(i + 1) =~= nm.take(i as int).push(x@));
        assert(files(nm.take(i + 1)) =~= files(nm.take(i as int)).push((false, x@)));
        assert(entries_view(r@) =~= seq![(false, ".info"@)] + files(nm.take(i + 1)));
        i = i + 1;
    }
    assert(vs.map_values(|v: EntityView| v.name).take(es@.len() as int) =~= vs.map_values(|v: EntityView| v.name));
    r
}

impl Vfs {
    /// The current working directory.
    pub closed spec fn cwd_view(&self) -> Seq<char> {
        self.cwd@
    }

    /// A file system whose working directory is the area `start_area`.
    pub fn new(start_area: &str) -> (r: Vfs)
        ensures
            r.cwd_view() == "/"@ + start_area@,
    {
        let mut cwd = String::from_str("/");
        cwd.append(start_area);
        Vfs { cwd }
    }

    /// Return the current working directory.
    pub fn pwd(&self) -> (r: &str)
        ensures
            r@ == self.cwd_view(),
    {
        self.cwd.as_str()
    }

    /// Force-set the working directory (used when the engine moves the player).
    pub fn set_cwd(&mut self, path: &str)
        ensures
            final(self).cwd_view() == path@,
    {
        self.cwd = String::from_str(path);
    }

    /// Resolve a (possibly relative) path against the working directory.
    pub fn resolve(&self, path: &str) -> (r: String)
        ensures
            r@ == resolve_spec(self.cwd_view(), path@),
    {
        let pv = chars_of(path);
        let slash = chars_of("/");
        if pv.len() > 0 && pv[0] == '/' {
            proof {
                reveal_strlit("/");
                assert(pv@.take(1) =~= "/"@);
            }
            return normalize(path);
        }
        proof {
            reveal_strlit("/");
            if has_prefix(pv@, "/"@) {
                assert(pv@.take(1)[0] == pv@[0]);
            }
        }
        if is_lit(&pv, "..") {
            parent(self.cwd.as_str())
        } else if is_lit(&pv, ".") || pv.len() == 0 {
            self.cwd.clone()
        } else if is_lit(&pv, "~") {
            String::from_str("/")
        } else {
            let cv = chars_of(self.cwd.as_str());
            if eq_vec(&cv, &slash) {
                let mut c = String::from_str("/");
                c.append(path);
                normalize(c.as_str())
            } else {
                let mut c = self.cwd.clone();
                c.append("/");
                c.append(path);
                normalize(c.as_str())
            }
        }
    }

    /// The area named by the working directory, if it is an area directory.
    pub fn current_area_from_cwd(&self) -> (r: Option<String>)
        ensures
            match r {
                Some(a) => area_of_cwd(self.cwd_view()) == Some(a@),
                None => area_of_cwd(self.cwd_view()).is_none(),
            },
    {
        let v = chars_of(self.cwd.as_str());
        let ps = split_path_vecs(&v);
        if ps.len() == 1 && !is_lit(&ps[0], "proc") {
            Some(string_of(&ps[0]))
        } else {
            None
        }
    }

    /// Change the working directory to a valid directory; returns the new
    /// path.
    pub fn cd(&mut self, world: &World, path: &str) -> (r: Result<String, String>)
        ensures
            ({
                let target = resolve_spec(old(self).cwd_view(), path@);
                if is_directory_spec(*world, target) {
                    &&& text_result(r) == Ok::<Seq<char>, Seq<char>>(target)
                    &&& final(self).cwd_view() == target
                } else {
                    &&& text_result(r) == Err::<Seq<char>, Seq<char>>("cd: "@ + path@ + ": 不是一个目录"@)
                    &&& final(self).cwd_view() == old(self).cwd_view()
                }
            }),
    {
        let target = self.resolve(path);
        if !is_directory(world, target.as_str()) {
            let mut e = String::from_str("cd: ");
            e.append(path);
            e.append(": 不是一个目录");
            return Err(e);
        }
        self.cwd = target;
        Ok(self.cwd.clone())
    }

    /// List entries in a directory (the working directory when no path is
    /// given).
    pub fn ls(&self, world: &World, path: Option<&str>) -> (r: Result<Vec<VfsEntry>, String>)
        requires
            world.wf(),
        ensures
            ls_outcome(
                *world,
                match path {
                    Some(p) => resolve_spec(self.cwd_view(), p@),
                    None => self.cwd_view(),
                },
                listing_result(r),
            ),
    {
        let target = match path {
            Some(p) => self.resolve(p),
            None => self.cwd.clone(),
        };
        if str_eq(target.as_str(), "/") {
            return Ok(root_entries(world));
        }
        let parts = split_path(target.as_str());
        if parts.len() > 0 && str_eq(parts[0].as_str(), "proc") {
            if parts.len() == 1 {
                let mut v: Vec<VfsEntry> = Vec::new();
                v.push(VfsEntry::File(String::from_str("status")));
                v.push(VfsEntry::File(String::from_str("areas")));
                v.push(VfsEntry::File(String::from_str("help")));
                assert(entries_view(v@) =~= seq![(false, "status"@), (false, "areas"@), (false, "help"@)]);
                return Ok(v);
            }
            let mut e = String::from_str("ls: ");
            e.append(target.as_str());
            e.append(": 不是一个目录");
            return Err(e);
        }
        if parts.len() == 1 {
            let area = parts[0].as_str();
            if !area_exists(world, area) {
                let mut e = String::from_str("ls: ");
                e.append(area);
                e.append(": 区域不存在");
                return Err(e);
            }
            if str_eq(area, FARM_AREA) {
                return Ok(farm_entries(&world.farm));
            }
            return Ok(area_entries(world, area));
        }
        let mut e = String::from_str("ls: ");
        e.append(target.as_str());
        e.append(": 不是一个目录");
        Err(e)
    }

    /// Read the content of a file, with crop and animal readiness judged at
    /// time `now`.
    pub fn cat_at(&self, world: &World, path: &str, now: u64) -> (r: Result<String, String>)
        requires
            world.wf(),
        ensures
            cat_outcome(*world, resolve_spec(self.cwd_view(), path@), now as int, text_result(r)),
    {
        let target = self.resolve(path);
        let parts = split_path(target.as_str());
        if parts.len() == 0 {
            return Err(String::from_str("cat: /: 是一个目录"));
        }
        if str_eq(parts[0].as_str(), "proc") {
            if parts.len() != 2 {
                let mut e = String::from_str("cat: ");
                e.append(target.as_str());
                e.append(": 无此文件");
                return Err(e);
            }
            return read_proc(world, parts[1].as_str());
        }
        if parts.len() != 2 {
            let mut e = String::from_str("cat: ");
            e.append(target.as_str());
            e.append(": 无此文件");
            return Err(e);
        }
        let area = parts[0].as_str();
        let filename = parts[1].as_str();
        if !area_exists(world, area) {
            let mut e = String::from_str("cat: ");
            e.append(area);
            e.append(": 区域不存在");
            return Err(e);
        }
        if str_eq(filename, ".info") {
            if str_eq(area, FARM_AREA) {
                return Ok(String::from_str(FARM_INFO));
            }
            return match world.find_area(area) {
                Some(a) => Ok(a.to_display()),
                None => {
                    let mut e = String::from_str("cat: ");
                    e.append(area);
                    e.append("/.info: 无此文件");
                    Err(e)
                },
            };
        }
        if str_eq(area, FARM_AREA) {
            return read_farm_entity_at(world, filename, now);
        }
        match world.find_entity_in_area(area, filename) {
            Some(id) => match world.entity(id) {
                Some(e) => {
                    let t = e.to_display();
                    assert(entity_matches(*world, area@, filename@, id));
                    Ok(t)
                },
                None => {
                    let mut e = String::from_str("cat: ");
                    e.append(area);
                    e.append("/");
                    e.append(filename);
                    e.append(": 无此文件");
                    Err(e)
                },
            },
            None => {
                let mut e = String::from_str("cat: ");
                e.append(area);
                e.append("/");
                e.append(filename);
                e.append(": 无此文件");
                Err(e)
            },
        }
    }

    /// Read the content of a file, with crop and animal readiness judged by
    /// the clock.
    pub fn cat(&self, world: &World, path: &str) -> (r: Result<String, String>)
        requires
            world.wf(),
        ensures
            exists|now: u64| cat_outcome(*world, resolve_spec(self.cwd_view(), path@), now as int, text_result(r)),
    {
        let now = current_unix_secs();
        self.cat_at(world, path, now)
    }

    /// Search all areas for names matching a pattern (case-insensitively):
    /// for each area in order, the area itself, then its matching plots and
    /// animals (farm) or entities (by name).
    pub fn find(&self, world: &World, pattern: &str) -> (r: Vec<String>)
        requires
            world.wf(),
        ensures
            ({
                let names = area_names_spec(world.areas@);
                exists|ls: Seq<Seq<EntityView>>|
                    {
                        &&& ls.len() == names.len()
                        &&& forall|k: int|
                            0 <= k < names.len() && names[k] != FARM_AREA@ ==> is_area_listing(
                                world.entity_map(),
                                #[trigger] names[k],
                                ls[k],
                            )
                        &&& str_views(r@) == find_hits(*world, names, ls, unicode_lower(pattern@))
                    }
            }),
    {
        let lower = to_lowercase(pattern);
        let lv = chars_of(lower.as_str());
        let names = world.area_names();
        let ghost ns = area_names_spec(world.areas@);
        let ghost mut ls: Seq<Seq<EntityView>> = Seq::empty();
        let mut results: Vec<String> = Vec::new();
        let mut k: usize = 0;
        while k < names.len()
            invariant
                world.wf(),
                k <= names@.len(),
                ns == area_names_spec(world.areas@),
                crate::engine::world::str_seq_views(names@) == ns,
                lv@ == unicode_lower(pattern@),
                ls.len() == k,
                forall|j: int|
                    0 <= j < k && ns[j] != FARM_AREA@ ==> is_area_listing(world.entity_map(), #[trigger] ns[j], ls[j]),
                str_views(results@) == find_hits(*world, ns.take(k as int), ls, lv@),
            decreases names@.len() - k,
        {
            let (hits, vs) = search_area(world, names[k], &lv);
            let ghost prev = results@;
            let mut j: usize = 0;
            while j < hits.len()
                invariant
                    j <= hits@.len(),
                    str_views(results@) == str_views(prev) + str_views(hits@).take(j as int),
                decreases hits@.len() - j,
            {
                let ghost before = results@;
                let h = hits[j].clone();
                results.push(h);
                assert(str_views(results@) =~= str_views(before).push(h@));
                assert(str_views(hits@).take(j + 1) =~= str_views(hits@).take(j as int).push(h@));
                j = j + 1;
            }
            assert(str_views(hits@).take(hits@.len() as int) =~= str_views(hits@));
            proof {
                assert(ns[k as int] == names@[k as int]@);
                let nls = ls.push(vs@);
                assert(ns.take(k + 1).drop_last() =~= ns.take(k as int));
                assert(nls.drop_last() =~= ls);
                assert(ns.take(k + 1).last() == names@[k as int]@);
                ls = nls;
            }
            k = k + 1;
        }
        assert(ns.take(names@.len() as int) =~= ns);
        results
    }
}


/// A path component that normalization keeps as it is: non-empty, neither
/// `.` nor `..`, and free of `/`.
pub open spec fn plain_component(q: Seq<char>) -> bool {
    q.len() > 0 && q != "."@ && q != ".."@ && !q.contains('/')
}

proof fn lemma_norm_parts_plain(parts: Seq<Seq<char>>)
    requires
        forall|k: int| 0 <= k < parts.len() ==> !(#[trigger] parts[k]).contains('/'),
    ensures
        forall|k: int| 0 <= k < norm_parts(parts).len() ==> plain_component(#[trigger] norm_parts(parts)[k]),
    decreases parts.len(),
{
    if parts.len() > 0 {
        let init = parts.drop_last();
        assert forall|k: int| 0 <= k < init.len() implies !(#[trigger] init[k]).contains('/') by {
            assert(init[k] == parts[k]);
        }
        lemma_norm_parts_plain(init);
        let acc = norm_parts(init);
        let q = parts.last();
        assert(!parts[parts.len() - 1].contains('/'));
        if q.len() == 0 || q == "."@ {
        } else if q == ".."@ {
            if acc.len() > 0 {
                assert forall|k: int| 0 <= k < acc.drop_last().len() implies plain_component(#[trigger] acc.drop_last()[k]) by {
                    assert(acc.drop_last()[k] == acc[k]);
                }
            }
        } else {
            assert forall|k: int| 0 <= k < acc.push(q).len() implies plain_component(#[trigger] acc.push(q)[k]) by {
                if k < acc.len() {
                    assert(acc.push(q)[k] == acc[k]);
                }
            }
        }
    }
}

proof fn lemma_norm_parts_after_root(ps: Seq<Seq<char>>)
    requires
        forall|k: int| 0 <= k < ps.len() ==> plain_component(#[trigger] ps[k]),
    ensures
        norm_parts(seq![Seq::<char>::empty()] + ps) == ps,
    decreases ps.len(),
{
    let full = seq![Seq::<char>::empty()] + ps;
    if ps.len() == 0 {
        assert(full.drop_last() =~= Seq::<Seq<char>>::empty());
        assert(full.last() == Seq::<char>::empty());
        assert(norm_parts(full) == norm_parts(full.drop_last()));
        assert(norm_parts(full) =~= ps);
    } else {
        let init = ps.drop_last();
        assert forall|k: int| 0 <= k < init.len() implies plain_component(#[trigger] init[k]) by {
            assert(init[k] == ps[k]);
        }
        lemma_norm_parts_after_root(init);
        assert(full.drop_last() =~= seq![Seq::<char>::empty()] + init);
        assert(full.last() == ps.last());
        assert(plain_component(ps[ps.len() - 1]));
        assert(init.push(ps.last()) =~= ps);
    }
}

/// An absolute path made of plain components is its own normal form, and
/// splitting it on `/` gives an empty piece followed by the components.
proof fn lemma_abs_path_normal(n: Seq<Seq<char>>)
    requires
        forall|k: int| 0 <= k < n.len() ==> plain_component(#[trigger] n[k]),
    ensures
        normalize_spec(abs_path(n)) == abs_path(n),
        has_prefix(abs_path(n), "/"@),
        n.len() > 0 ==> split_on(abs_path(n), '/') == seq![Seq::<char>::empty()] + n,
        n.len() == 0 ==> split_on(abs_path(n), '/') == seq![Seq::<char>::empty(), Seq::<char>::empty()],
{
    reveal_strlit("/");
    let e = Seq::<char>::empty();
    lemma_split_on_concat(e, e, '/');
    lemma_split_on_whole(e, '/');
    if n.len() == 0 {
        assert("/"@ =~= e + seq!['/'] + e);
        let two = seq![e] + seq![e];
        assert(two =~= seq![e, e]);
        assert(two.drop_last() =~= seq![e]);
        assert(seq![e].drop_last() =~= Seq::<Seq<char>>::empty());
        assert(seq![e].last().len() == 0);
        assert(two.last().len() == 0);
        assert(norm_parts(Seq::<Seq<char>>::empty()) =~= Seq::<Seq<char>>::empty());
        assert(norm_parts(seq![e]) =~= norm_parts(Seq::<Seq<char>>::empty()));
        assert(norm_parts(two) =~= norm_parts(seq![e]));
        assert("/"@.take(1) =~= "/"@);
        assert(has_prefix(abs_path(n), "/"@));
    } else {
        let j = join(n, "/"@);
        assert("/"@ + j =~= e + seq!['/'] + j);
        lemma_split_on_concat(e, j, '/');
        assert forall|k: int| 0 <= k < n.len() implies !(#[trigger] n[k]).contains('/') by {
            assert(plain_component(n[k]));
        }
        assert("/"@ =~= seq!['/']);
        lemma_split_join(n, '/');
        lemma_norm_parts_after_root(n);
        assert(split_on(e, '/') + n =~= seq![e] + n);
        assert(("/"@ + j).take(1) =~= "/"@);
    }
}

/// Normalizing a normalized path changes nothing.
pub proof fn law_normalize_idempotent(path: Seq<char>)
    ensures
        normalize_spec(normalize_spec(path)) == normalize_spec(path),
{
    lemma_split_on_pieces(path, '/');
    lemma_norm_parts_plain(split_on(path, '/'));
    lemma_abs_path_normal(norm_parts(split_on(path, '/')));
}

/// Dropping the empty pieces from an empty piece followed by non-empty
/// pieces leaves those pieces.
proof fn lemma_non_empty_after_root(n: Seq<Seq<char>>)
    requires
        forall|k: int| 0 <= k < n.len() ==> (#[trigger] n[k]).len() > 0,
    ensures
        non_empty(seq![Seq::<char>::empty()] + n) == n,
    decreases n.len(),
{
    let e = Seq::<char>::empty();
    let full = seq![e] + n;
    if n.len() == 0 {
        assert(full.drop_last() =~= Seq::<Seq<char>>::empty());
        assert(full.last().len() == 0);
        assert(non_empty(Seq::<Seq<char>>::empty()) =~= Seq::<Seq<char>>::empty());
        assert(non_empty(full) =~= n);
    } else {
        let init = n.drop_last();
        assert forall|k: int| 0 <= k < init.len() implies (#[trigger] init[k]).len() > 0 by {
            assert(init[k] == n[k]);
        }
        lemma_non_empty_after_root(init);
        assert(full.drop_last() =~= seq![e] + init);
        assert(full.last() == n.last());
        assert(n[n.len() - 1].len() > 0);
        assert(init.push(n.last()) =~= n);
    }
}

/// The parent of a normalized path is normalized.
proof fn lemma_parent_normal(cwd: Seq<char>)
    requires
        normalize_spec(cwd) == cwd,
    ensures
        normalize_spec(parent_spec(cwd)) == parent_spec(cwd),
        has_prefix(parent_spec(cwd), "/"@),
{
    let e = Seq::<char>::empty();
    let n = norm_parts(split_on(cwd, '/'));
    lemma_split_on_pieces(cwd, '/');
    lemma_norm_parts_plain(split_on(cwd, '/'));
    lemma_abs_path_normal(n);
    lemma_abs_path_normal(Seq::<Seq<char>>::empty());
    assert(cwd == abs_path(n));
    let ps = split_path_spec(cwd);
    if n.len() == 0 {
        let two = seq![e, e];
        assert(two.drop_last() =~= seq![e]);
        assert(seq![e].drop_last() =~= Seq::<Seq<char>>::empty());
        assert(two.last().len() == 0);
        assert(seq![e].last().len() == 0);
        assert(non_empty(Seq::<Seq<char>>::empty()) =~= Seq::<Seq<char>>::empty());
        assert(non_empty(seq![e]) =~= Seq::<Seq<char>>::empty());
        assert(ps =~= Seq::<Seq<char>>::empty());
    } else {
        assert forall|k: int| 0 <= k < n.len() implies (#[trigger] n[k]).len() > 0 by {
            assert(plain_component(n[k]));
        }
        lemma_non_empty_after_root(n);
        assert(ps == n);
        if ps.len() > 1 {
            let m = ps.take(ps.len() - 1);
            assert forall|k: int| 0 <= k < m.len() implies plain_component(#[trigger] m[k]) by {
                assert(m[k] == n[k]);
            }
            lemma_abs_path_normal(m);
        }
    }
}

/// A path resolved against a normalized working directory is normalized
/// (so it starts with `/`), and resolving it again gives it back.
pub proof fn law_resolve_normalized(cwd: Seq<char>, path: Seq<char>)
    requires
        normalize_spec(cwd) == cwd,
    ensures
        normalize_spec(resolve_spec(cwd, path)) == resolve_spec(cwd, path),
        has_prefix(resolve_spec(cwd, path), "/"@),
        resolve_spec(cwd, resolve_spec(cwd, path)) == resolve_spec(cwd, path),
{
    let r = resolve_spec(cwd, path);
    let e = Seq::<char>::empty();
    // every normal form starts with `/`
    lemma_split_on_pieces(cwd, '/');
    lemma_norm_parts_plain(split_on(cwd, '/'));
    lemma_abs_path_normal(norm_parts(split_on(cwd, '/')));
    lemma_abs_path_normal(Seq::<Seq<char>>::empty());
    if has_prefix(path, "/"@) {
        law_normalize_idempotent(path);
        lemma_split_on_pieces(path, '/');
        lemma_norm_parts_plain(split_on(path, '/'));
        lemma_abs_path_normal(norm_parts(split_on(path, '/')));
    } else if path == ".."@ {
        lemma_parent_normal(cwd);
    } else if path == "."@ || path.len() == 0 {
    } else if path == "~"@ {
    } else {
        let q = if cwd == "/"@ { "/"@ + path } else { cwd + "/"@ + path };
        assert(r == normalize_spec(q));
        law_normalize_idempotent(q);
        lemma_split_on_pieces(q, '/');
        lemma_norm_parts_plain(split_on(q, '/'));
        lemma_abs_path_normal(norm_parts(split_on(q, '/')));
    }
    assert(has_prefix(r, "/"@));
    assert(normalize_spec(r) == r);
}

proof fn lemma_split_path_one(a: Seq<char>)
    requires
        a.len() > 0,
        !a.contains('/'),
    ensures
        split_on("/"@ + a, '/') == seq![Seq::<char>::empty(), a],
        split_path_spec("/"@ + a) == seq![a],
{
    reveal_strlit("/");
    let e = Seq::<char>::empty();
    assert("/"@ + a =~= e + seq!['/'] + a);
    lemma_split_on_concat(e, a, '/');
    lemma_split_on_whole(e, '/');
    lemma_split_on_whole(a, '/');
    let two = seq![e, a];
    assert(seq![e] + seq![a] =~= two);
    assert(two.drop_last() =~= seq![e]);
    assert(seq![e].drop_last() =~= Seq::<Seq<char>>::empty());
    assert(seq![e].last().len() == 0);
    assert(two.last() == a);
    assert(non_empty(Seq::<Seq<char>>::empty()) =~= Seq::<Seq<char>>::empty());
    assert(non_empty(seq![e]) =~= Seq::<Seq<char>>::empty());
    assert(non_empty(two) =~= seq![a]);
}

proof fn lemma_split_path_two(a: Seq<char>, b: Seq<char>)
    requires
        a.len() > 0,
        !a.contains('/'),
        b.len() > 0,
        !b.contains('/'),
    ensures
        split_path_spec("/"@ + a + "/"@ + b) == seq![a, b],
{
    reveal_strlit("/");
    let e = Seq::<char>::empty();
    lemma_split_path_one(a);
    assert("/"@ + a + "/"@ + b =~= ("/"@ + a) + seq!['/'] + b);
    lemma_split_on_concat("/"@ + a, b, '/');
    lemma_split_on_whole(b, '/');
    let three = seq![e, a, b];
    assert(seq![e, a] + seq![b] =~= three);
    assert(three.drop_last() =~= seq![e, a]);
    assert(three.last() == b);
    assert(non_empty(three) =~= seq![a, b]);
}

/// Every file that `ls` lists in a directory can be read with `cat`: the
/// entries of `/proc`, an area's `.info` and entity files, and the farm's
/// plot and animal files.  Left out are names that cannot stand in a path
/// as one component (empty, or holding `/`), and farms with an animal whose
/// name begins with `plot_`, which `cat` reads as a plot number.
pub proof fn law_listed_files_can_be_read(
    w: World,
    dir: Seq<char>,
    listing: Seq<(bool, Seq<char>)>,
    k: int,
    now: int,
    r: Result<Seq<char>, Seq<char>>,
)
    requires
        dir.len() > 0,
        !dir.contains('/'),
        ls_outcome(w, "/"@ + dir, Ok(listing)),
        0 <= k < listing.len(),
        !listing[k].0,
        listing[k].1.len() > 0,
        !listing[k].1.contains('/'),
        dir == FARM_AREA@ ==> forall|i: int|
            0 <= i < w.farm.animals@.len() ==> !has_prefix(#[trigger] w.farm.animals@[i].name@, "plot_"@),
        cat_outcome(w, "/"@ + dir + "/"@ + listing[k].1, now, r),
    ensures
        r is Ok,
{
    reveal_strlit("/");
    let name = listing[k].1;
    lemma_split_path_one(dir);
    lemma_split_path_two(dir, name);
    assert("/"@ + dir != "/"@) by {
        assert(("/"@ + dir).len() > 1);
    }
    if dir == "proc"@ {
        reveal_strlit("status");
        reveal_strlit("areas");
        reveal_strlit("help");
        assert(listing == seq![(false, "status"@), (false, "areas"@), (false, "help"@)]);
    } else if name == ".info"@ {
    } else if dir == FARM_AREA@ {
        let names = farm_files(w.farm);
        assert(listing == seq![(false, ".info"@)] + files(names));
        assert(k >= 1) by {
            if k == 0 {
                assert(listing[0].1 == ".info"@);
            }
        }
        assert(name == names[k - 1]);
        let np = w.farm.plots@.len();
        if k - 1 < np {
            let i = k - 1;
            reveal_strlit("plot_");
            assert(name == plot_name(i));
            lemma_dec_nat_digits(i as nat);
            assert(has_prefix(name, "plot_"@)) by {
                assert(name.take(5) =~= "plot_"@);
            }
            assert(name.skip(5) =~= dec_nat(i as nat));
            assert(dec_nat(i as nat)[0] != '+') by {
                assert('0' <= dec_nat(i as nat)[0] <= '9');
            }
            assert(w.farm.plots.len() == np);
            assert(parse_usize_spec(name.skip(5)) == Some(i as usize));
        } else {
            let j = k - 1 - np;
            assert(name == animal_names(w.farm.animals@)[j]);
            assert(!has_prefix(w.farm.animals@[j].name@, "plot_"@));
            assert(animal_names(w.farm.animals@).contains(name));
            animal_names(w.farm.animals@).index_of_first_ensures(name);
        }
    } else {
        let vs = choose|vs: Seq<EntityView>|
            is_area_listing(w.entity_map(), dir, vs) && listing == seq![(false, ".info"@)] + files(
                vs.map_values(|v: EntityView| v.name),
            );
        assert(k >= 1) by {
            if k == 0 {
                assert(listing[0].1 == ".info"@);
            }
        }
        let v = vs[k - 1];
        assert(name == v.name);
        assert(w.entity_map().contains_key(v.id));
        let x = unicode_lower(v.name);
        assert(x.take(x.len() as int) =~= x);
        assert(contains_sub(x, x));
        assert(entity_matches(w, dir, name, v.id));
    }
}

/// An absolute path resolves the same from every working directory.
pub proof fn law_absolute_path_ignores_cwd(c1: Seq<char>, c2: Seq<char>, path: Seq<char>)
    requires
        has_prefix(path, "/"@),
    ensures
        resolve_spec(c1, path) == resolve_spec(c2, path),
{
}

/// After a successful `cd`, the working directory is the resolved target.
pub proof fn law_cd_then_pwd(w: World, v0: Vfs, v1: Vfs, path: Seq<char>, r: Result<Seq<char>, Seq<char>>)
    requires
        ({
            let target = resolve_spec(v0.cwd_view(), path);
            if is_directory_spec(w, target) {
                r == Ok::<Seq<char>, Seq<char>>(target) && v1.cwd_view() == target
            } else {
                r == Err::<Seq<char>, Seq<char>>("cd: "@ + path + ": 不是一个目录"@) && v1.cwd_view() == v0.cwd_view()
            }
        }),
        r is Ok,
    ensures
        v1.cwd_view() == r->Ok_0,
        v1.cwd_view() == resolve_spec(v0.cwd_view(), path),
{
}
} // verus!
