//! The file-system-backed world: farm files, watcher events and the rules
//! that classify files under `world/`.
//!
//! The directory layout is `world/<area>/<entity>.yaml`; the player's area
//! is the directory holding `player.yaml`; `world/config/` holds
//! configuration and is not an area.  Reading and writing the files, and
//! the watcher itself, belong to the program; this module decides what the
//! files and events mean.

use vstd::prelude::*;
use vstd::string::*;
use crate::engine::farming::{Animal, Crop, Farm};
use crate::template::is_template_filename;
use crate::actions::ActionMap;
use crate::text::{
    chars_of, contains_sub, contains_vec, eq_vec, has_suffix, join, join_vecs, lines_of,
    lines_spec, str_views, string_of, to_lowercase, unicode_lower, views,
};

verus! {

/// Directory of the world, relative to the working directory.
pub const WORLD_DIR: &'static str = "world";

/// The farm's area directory.
pub const FARM_AREA: &'static str = "农场";

/// The player's entity file.
pub const PLAYER_FILE: &'static str = "player.yaml";

/// The action map file, global or per area.
pub const ACTION_FILE: &'static str = "action.yaml";

/// The configuration directory under `world/`.
pub const CONFIG_DIR: &'static str = "config";

/// The area in which a new game starts.
pub const DEFAULT_START_AREA: &'static str = "森林";

/// Current Unix time in whole seconds, by the clock.
pub fn current_unix_secs() -> u64 {
    crate::engine::current_unix_secs()
}

/// Events emitted by the file-system watcher.
#[derive(Debug, Clone)]
pub enum WorldEvent {
    /// The player file was moved (renamed) into a new area directory.
    PlayerMoved { to_area: String },
    /// A non-config entity file was created in an area.
    EntityCreated { area: String, filename: String },
    /// A non-config entity file was removed from an area.
    EntityRemoved { area: String, filename: String },
    /// A template file was created or modified; path relative to `world/`.
    TemplateChanged { path: String },
}

/// The value of a [`WorldEvent`].
pub enum WorldEventModel {
    PlayerMoved { to_area: Seq<char> },
    EntityCreated { area: Seq<char>, filename: Seq<char> },
    EntityRemoved { area: Seq<char>, filename: Seq<char> },
    TemplateChanged { path: Seq<char> },
}

impl View for WorldEvent {
    type V = WorldEventModel;

    open spec fn view(&self) -> WorldEventModel {
        match self {
            WorldEvent::PlayerMoved { to_area } => WorldEventModel::PlayerMoved { to_area: to_area@ },
            WorldEvent::EntityCreated { area, filename } => WorldEventModel::EntityCreated {
                area: area@,
                filename: filename@,
            },
            WorldEvent::EntityRemoved { area, filename } => WorldEventModel::EntityRemoved {
                area: area@,
                filename: filename@,
            },
            WorldEvent::TemplateChanged { path } => WorldEventModel::TemplateChanged { path: path@ },
        }
    }
}

/// A file-system path as the watcher reports it: its components (each
/// converted to text, invalid UTF-8 replaced), and whether its last
/// component is valid UTF-8.
pub struct EventPath {
    pub components: Vec<String>,
    pub name_is_utf8: bool,
}

/// The kinds of watcher event that matter to the world.
pub enum EventKindModel {
    /// A rename whose source and destination are both known.
    RenameBoth,
    /// The destination half of a rename.
    RenameTo,
    /// A file was created, or its data modified.
    CreateOrModifyData,
    /// A file was removed.
    Remove,
    /// Anything else.
    Other,
}

/// A watcher event: its kind and the paths it concerns.
pub struct NotifyEvent {
    pub kind: EventKindModel,
    pub paths: Vec<EventPath>,
}

/// The components of a path.
pub open spec fn comps(p: EventPath) -> Seq<Seq<char>> {
    str_views(p.components@)
}

/// The path relative to `base`, if `base` is a prefix of it (`Path::strip_prefix`).
pub open spec fn strip_prefix(p: Seq<Seq<char>>, base: Seq<Seq<char>>) -> Option<Seq<Seq<char>>> {
    if base.len() <= p.len() && p.take(base.len() as int) == base {
        Some(p.skip(base.len() as int))
    } else {
        None
    }
}

/// The area of a path under the world directory: its first component there,
/// unless that is the configuration directory.
pub open spec fn area_of_spec(p: Seq<Seq<char>>, world: Seq<Seq<char>>) -> Option<Seq<char>> {
    match strip_prefix(p, world) {
        Some(rel) => if rel.len() == 0 || rel[0] == "config"@ {
            None
        } else {
            Some(rel[0])
        },
        None => None,
    }
}

/// Files that are internal configuration and raise no entity events.
pub open spec fn is_internal_spec(f: Seq<char>) -> bool {
    f == "area.yaml"@ || f == "player.yaml"@ || f == "action.yaml"@ || has_suffix(f, ".template.json"@)
}

/// The path is `world/config/ui.yaml`.
pub open spec fn is_ui_config_spec(p: Seq<Seq<char>>, world: Seq<Seq<char>>) -> bool {
    p == world + seq!["config"@, "ui.yaml"@]
}

fn is_lit(v: &Vec<char>, lit: &str) -> (r: bool)
    ensures
        r == (v@ == lit@),
{
    let l = chars_of(lit);
    eq_vec(v, &l)
}

fn str_is(s: &String, lit: &str) -> (r: bool)
    ensures
        r == (s@ == lit@),
{
    let v = chars_of(s.as_str());
    is_lit(&v, lit)
}

/// Return true for files that are internal configuration and should not
/// surface as entity events.
pub fn is_internal_file(filename: &str) -> (r: bool)
    ensures
        r == is_internal_spec(filename@),
{
    let v = chars_of(filename);
    is_lit(&v, "area.yaml") || is_lit(&v, "player.yaml") || is_lit(&v, "action.yaml")
        || is_template_filename(filename)
}

fn strip_prefix_of(p: &Vec<String>, base: &Vec<String>) -> (r: Option<usize>)
    ensures
        match r {
            Some(k) => k == base@.len() && strip_prefix(str_views(p@), str_views(base@)) == Some(
                str_views(p@).skip(k as int),
            ),
            None => strip_prefix(str_views(p@), str_views(base@)).is_none(),
        },
{
    let ghost pv = str_views(p@);
    let ghost bv = str_views(base@);
    if base.len() > p.len() {
        return None;
    }
    let mut i: usize = 0;
    while i < base.len()
        invariant
            base@.len() <= p@.len(),
            i <= base@.len(),
            pv == str_views(p@),
            bv == str_views(base@),
            forall|j: int| 0 <= j < i ==> pv[j] == bv[j],
        decreases base@.len() - i,
    {
        if !(p[i] == base[i]) {
            assert(pv.take(bv.len() as int)[i as int] != bv[i as int]);
            return None;
        }
        i = i + 1;
    }
    assert(pv.take(bv.len() as int) =~= bv);
    Some(base.len())
}

/// Extract the area name (first path component under the world directory);
/// `None` outside it, for the world directory itself, and for `config/`.
pub fn area_of(path: &EventPath, world: &Vec<String>) -> (r: Option<String>)
    ensures
        match r {
            Some(a) => area_of_spec(comps(*path), str_views(world@)) == Some(a@),
            None => area_of_spec(comps(*path), str_views(world@)).is_none(),
        },
{
    match strip_prefix_of(&path.components, world) {
        None => None,
        Some(k) => {
            if k >= path.components.len() {
                return None;
            }
            let name = path.components[k].clone();
            assert(str_views(path.components@).skip(k as int)[0] == name@);
            if str_is(&name, "config") {
                None
            } else {
                Some(name)
            }
        },
    }
}

/// Whether `path` is the UI configuration file `world/config/ui.yaml`.
pub fn is_ui_config_file(path: &EventPath, world: &Vec<String>) -> (r: bool)
    ensures
        r == is_ui_config_spec(comps(*path), str_views(world@)),
{
    let ghost pv = comps(*path);
    let ghost wv = str_views(world@);
    match strip_prefix_of(&path.components, world) {
        None => {
            proof {
                if is_ui_config_spec(pv, wv) {
                    assert(pv.take(wv.len() as int) =~= wv);
                }
            }
            false
        },
        Some(k) => {
            let n = path.components.len();
            let r = n - k == 2 && str_is(&path.components[k], "config") && str_is(
                &path.components[k + 1],
                "ui.yaml",
            );
            proof {
                let rel = pv.skip(k as int);
                if r {
                    assert(pv =~= wv + seq!["config"@, "ui.yaml"@]) by {
                        assert(pv.take(wv.len() as int) == wv);
                        assert forall|j: int| 0 <= j < pv.len() implies pv[j] == (wv + seq![
                            "config"@,
                            "ui.yaml"@,
                        ])[j] by {
                            if j < wv.len() {
                                assert(pv.take(wv.len() as int)[j] == pv[j]);
                            } else {
                                assert(rel[j - wv.len()] == pv[j]);
                            }
                        }
                    }
                } else if is_ui_config_spec(pv, wv) {
                    assert(rel[0] == pv[k as int]);
                    assert(rel[1] == pv[k + 1]);
                }
            }
            r
        },
    }
}


/// The last component of a path (as text), if any.
pub open spec fn file_name(p: EventPath) -> Option<Seq<char>> {
    if p.components@.len() == 0 {
        None
    } else {
        Some(p.components@.last()@)
    }
}

/// The last component of a path, if any and if it is valid UTF-8.
pub open spec fn file_name_str(p: EventPath) -> Option<Seq<char>> {
    if p.name_is_utf8 {
        file_name(p)
    } else {
        None
    }
}

/// The path relative to the world directory, as `/`-separated text.
pub open spec fn rel_text(p: EventPath, world: Seq<Seq<char>>) -> Option<Seq<char>> {
    match strip_prefix(comps(p), world) {
        Some(rel) => Some(join(rel, "/"@)),
        None => None,
    }
}

/// `TemplateChanged` for the path, if it lies under the world directory.
pub open spec fn template_event(p: EventPath, world: Seq<Seq<char>>) -> Seq<WorldEventModel> {
    match rel_text(p, world) {
        Some(r) => seq![WorldEventModel::TemplateChanged { path: r }],
        None => Seq::empty(),
    }
}

/// `PlayerMoved` to the path's area, if it has one.
pub open spec fn moved_event(p: EventPath, world: Seq<Seq<char>>) -> Seq<WorldEventModel> {
    match area_of_spec(comps(p), world) {
        Some(a) => seq![WorldEventModel::PlayerMoved { to_area: a }],
        None => Seq::empty(),
    }
}

/// `EntityCreated` for file `f` in the path's area, unless `f` is internal.
pub open spec fn created_event(p: EventPath, f: Seq<char>, world: Seq<Seq<char>>) -> Seq<WorldEventModel> {
    match area_of_spec(comps(p), world) {
        Some(a) => if !is_internal_spec(f) {
            seq![WorldEventModel::EntityCreated { area: a, filename: f }]
        } else {
            Seq::empty()
        },
        None => Seq::empty(),
    }
}

/// `EntityRemoved` for the path's file in its area, unless it is internal.
pub open spec fn removed_event(p: EventPath, world: Seq<Seq<char>>) -> Seq<WorldEventModel> {
    match (area_of_spec(comps(p), world), file_name(p)) {
        (Some(a), Some(f)) => if !is_internal_spec(f) {
            seq![WorldEventModel::EntityRemoved { area: a, filename: f }]
        } else {
            Seq::empty()
        },
        _ => Seq::empty(),
    }
}

/// What [`translate_notify_event`] returns.
pub open spec fn translate_spec(e: NotifyEvent, world: Seq<Seq<char>>) -> Seq<WorldEventModel> {
    let ps = e.paths@;
    match e.kind {
        EventKindModel::RenameBoth => if ps.len() >= 2 {
            let from = ps[0];
            let to = ps[1];
            if file_name(to) == Some("player.yaml"@) {
                moved_event(to, world)
            } else {
                match file_name_str(to) {
                    Some(f) => if has_suffix(f, ".template.json"@) {
                        template_event(to, world)
                    } else {
                        removed_event(from, world) + created_event(to, f, world)
                    },
                    None => Seq::empty(),
                }
            }
        } else {
            Seq::empty()
        },
        EventKindModel::RenameTo => if ps.len() >= 1 {
            let p = ps[0];
            if file_name(p) == Some("player.yaml"@) {
                moved_event(p, world)
            } else {
                match file_name_str(p) {
                    Some(f) => if has_suffix(f, ".template.json"@) {
                        template_event(p, world)
                    } else {
                        created_event(p, f, world)
                    },
                    None => Seq::empty(),
                }
            }
        } else {
            Seq::empty()
        },
        EventKindModel::CreateOrModifyData => if ps.len() >= 1 {
            let p = ps[0];
            match file_name_str(p) {
                Some(f) => if has_suffix(f, ".template.json"@) || is_ui_config_spec(comps(p), world) {
                    template_event(p, world)
                } else {
                    created_event(p, f, world)
                },
                None => Seq::empty(),
            }
        } else {
            Seq::empty()
        },
        EventKindModel::Remove => if ps.len() >= 1 {
            removed_event(ps[0], world)
        } else {
            Seq::empty()
        },
        EventKindModel::Other => Seq::empty(),
    }
}

/// The views of a list of events.
pub open spec fn event_views(v: Seq<WorldEvent>) -> Seq<WorldEventModel> {
    v.map_values(|e: WorldEvent| e@)
}

fn last_name(p: &EventPath) -> (r: Option<String>)
    ensures
        match r {
            Some(s) => file_name(*p) == Some(s@),
            None => file_name(*p).is_none(),
        },
{
    let n = p.components.len();
    if n == 0 {
        None
    } else {
        Some(p.components[n - 1].clone())
    }
}

fn template_event_of(p: &EventPath, world: &Vec<String>, out: &mut Vec<WorldEvent>)
    ensures
        event_views(final(out)@) == event_views(old(out)@) + template_event(*p, str_views(world@)),
{
    let ghost prev = out@;
    match strip_prefix_of(&p.components, world) {
        Some(k) => {
            let mut rel: Vec<Vec<char>> = Vec::new();
            let mut i = k;
            let n = p.components.len();
            let ghost relv = comps(*p).skip(k as int);
            while i < n
                invariant
                    k <= i <= n,
                    n == p.components@.len(),
                    relv == comps(*p).skip(k as int),
                    views(rel@) == relv.take(i - k),
                decreases n - i,
            {
                let c = chars_of(p.components[i].as_str());
                let ghost before = rel@;
                rel.push(c);
                assert(views(rel@) =~= views(before).push(c@));
                assert(views(rel@) =~= relv.take(i + 1 - k));
                i = i + 1;
            }
            assert(relv.take(n - k) =~= relv);
            let slash = chars_of("/");
            let j = join_vecs(&rel, &slash);
            let path = string_of(&j);
            out.push(WorldEvent::TemplateChanged { path });
            assert(event_views(out@) =~= event_views(prev).push(WorldEventModel::TemplateChanged { path: path@ }));
        },
        None => {
            assert(event_views(out@) =~= event_views(prev) + Seq::<WorldEventModel>::empty());
        },
    }
}

fn moved_event_of(p: &EventPath, world: &Vec<String>, out: &mut Vec<WorldEvent>)
    ensures
        event_views(final(out)@) == event_views(old(out)@) + moved_event(*p, str_views(world@)),
{
    let ghost prev = out@;
    match area_of(p, world) {
        Some(a) => {
            let ghost av = a@;
            out.push(WorldEvent::PlayerMoved { to_area: a });
            assert(event_views(out@) =~= event_views(prev).push(WorldEventModel::PlayerMoved { to_area: av }));
        },
        None => {
            assert(event_views(out@) =~= event_views(prev) + Seq::<WorldEventModel>::empty());
        },
    }
}

fn created_event_of(p: &EventPath, f: &String, world: &Vec<String>, out: &mut Vec<WorldEvent>)
    ensures
        event_views(final(out)@) == event_views(old(out)@) + created_event(*p, f@, str_views(world@)),
{
    let ghost prev = out@;
    match area_of(p, world) {
        Some(a) => {
            if !is_internal_file(f.as_str()) {
                let ghost av = a@;
                out.push(WorldEvent::EntityCreated { area: a, filename: f.clone() });
                assert(event_views(out@) =~= event_views(prev).push(WorldEventModel::EntityCreated { area: av, filename: f@ }));
            } else {
                assert(event_views(out@) =~= event_views(prev) + Seq::<WorldEventModel>::empty());
            }
        },
        None => {
            assert(event_views(out@) =~= event_views(prev) + Seq::<WorldEventModel>::empty());
        },
    }
}

fn removed_event_of(p: &EventPath, world: &Vec<String>, out: &mut Vec<WorldEvent>)
    ensures
        event_views(final(out)@) == event_views(old(out)@) + removed_event(*p, str_views(world@)),
{
    let ghost prev = out@;
    match (area_of(p, world), last_name(p)) {
        (Some(a), Some(f)) => {
            if !is_internal_file(f.as_str()) {
                let ghost av = a@;
                let ghost fv = f@;
                out.push(WorldEvent::EntityRemoved { area: a, filename: f });
                assert(event_views(out@) =~= event_views(prev).push(WorldEventModel::EntityRemoved { area: av, filename: fv }));
            } else {
                assert(event_views(out@) =~= event_views(prev) + Seq::<WorldEventModel>::empty());
            }
        },
        _ => {
            assert(event_views(out@) =~= event_views(prev) + Seq::<WorldEventModel>::empty());
        },
    }
}

/// Translate a raw watcher event into zero or more [`WorldEvent`]s.
///
/// A rename of `player.yaml` into an area is a move of the player; a
/// template file (or `config/ui.yaml`, when created or modified) changing
/// gives `TemplateChanged` with its path relative to the world directory;
/// other files appearing in or leaving an area give `EntityCreated` /
/// `EntityRemoved`, except internal files.
pub fn translate_notify_event(event: &NotifyEvent, world_path: &Vec<String>) -> (r: Vec<WorldEvent>)
    ensures
        event_views(r@) == translate_spec(*event, str_views(world_path@)),
{
    let mut out: Vec<WorldEvent> = Vec::new();
    let ghost w = str_views(world_path@);
    assert(event_views(out@) =~= Seq::<WorldEventModel>::empty());
    let n = event.paths.len();
    match event.kind {
        EventKindModel::RenameBoth => {
            if n >= 2 {
                let from = &event.paths[0];
                let to = &event.paths[1];
                let tn = last_name(to);
                let is_player = match &tn {
                    Some(s) => str_is(s, "player.yaml"),
                    None => false,
                };
                if is_player {
                    moved_event_of(to, world_path, &mut out);
                } else if to.name_is_utf8 && tn.is_some() {
                    let f = match tn {
                        Some(s) => s,
                        None => String::new(),
                    };
                    if is_template_filename(f.as_str()) {
                        template_event_of(to, world_path, &mut out);
                    } else {
                        removed_event_of(from, world_path, &mut out);
                        created_event_of(to, &f, world_path, &mut out);
                        assert(event_views(out@) =~= removed_event(*from, w) + created_event(*to, f@, w));
                    }
                }
            }
        },
        EventKindModel::RenameTo => {
            if n >= 1 {
                let p = &event.paths[0];
                let tn = last_name(p);
                let is_player = match &tn {
                    Some(s) => str_is(s, "player.yaml"),
                    None => false,
                };
                if is_player {
                    moved_event_of(p, world_path, &mut out);
                } else if p.name_is_utf8 && tn.is_some() {
                    let f = match tn {
                        Some(s) => s,
                        None => String::new(),
                    };
                    if is_template_filename(f.as_str()) {
                        template_event_of(p, world_path, &mut out);
                    } else {
                        created_event_of(p, &f, world_path, &mut out);
                    }
                }
            }
        },
        EventKindModel::CreateOrModifyData => {
            if n >= 1 {
                let p = &event.paths[0];
                let tn = last_name(p);
                if p.name_is_utf8 && tn.is_some() {
                    let f = match tn {
                        Some(s) => s,
                        None => String::new(),
                    };
                    if is_template_filename(f.as_str()) || is_ui_config_file(p, world_path) {
                        template_event_of(p, world_path, &mut out);
                    } else {
                        created_event_of(p, &f, world_path, &mut out);
                    }
                }
            }
        },
        EventKindModel::Remove => {
            if n >= 1 {
                removed_event_of(&event.paths[0], world_path, &mut out);
            }
        },
        EventKindModel::Other => {},
    }
    out
}


/// A farm plot as stored on disk.
pub enum FsPlot {
    Empty,
    Occupied {
        crop_name: String,
        grow_time_secs: u64,
        yield_gold: u32,
        /// Unix timestamp (seconds) when the crop was planted.
        planted_at_secs: u64,
    },
}

/// An animal as stored on disk.
pub struct FsAnimal {
    pub name: String,
    pub breed_time_secs: u64,
    pub yield_gold: u32,
    pub breeding: bool,
    /// Unix timestamp (seconds) when breeding was started, if any.
    pub breed_started_at_secs: Option<u64>,
}

/// The crop a borrowed crop denotes.
pub open spec fn opt_crop(c: Option<&Crop>) -> Option<Crop> {
    match c {
        Some(x) => Some(*x),
        None => None,
    }
}

/// The stored form of a plot, a missing planting time recorded as `now`.
pub open spec fn fs_plot_spec(crop: Option<Crop>, now: u64) -> FsPlot {
    match crop {
        None => FsPlot::Empty,
        Some(c) => FsPlot::Occupied {
            crop_name: c.name,
            grow_time_secs: c.grow_time_secs,
            yield_gold: c.yield_gold,
            planted_at_secs: match c.planted_at_secs {
                Some(t) => t,
                None => now,
            },
        },
    }
}

/// The stored form of a plot, taking `now` as the planting time of a crop
/// that has none.
pub fn crop_to_fs_plot_at(crop: Option<&Crop>, now: u64) -> (r: FsPlot)
    ensures
        r == fs_plot_spec(opt_crop(crop), now),
{
    match crop {
        None => FsPlot::Empty,
        Some(c) => FsPlot::Occupied {
            crop_name: c.name.clone(),
            grow_time_secs: c.grow_time_secs,
            yield_gold: c.yield_gold,
            planted_at_secs: match c.planted_at_secs {
                Some(t) => t,
                None => now,
            },
        },
    }
}

/// The stored form of a plot, a crop without planting time getting the
/// current time.
pub fn crop_to_fs_plot(crop: Option<&Crop>) -> (r: FsPlot)
    ensures
        exists|now: u64|
            r == #[trigger] fs_plot_spec(opt_crop(crop), now),
{
    let now = current_unix_secs();
    crop_to_fs_plot_at(crop, now)
}

/// The plot a stored plot describes.
pub open spec fn crop_of_fs(fs: FsPlot) -> Option<Crop> {
    match fs {
        FsPlot::Empty => None,
        FsPlot::Occupied { crop_name, grow_time_secs, yield_gold, planted_at_secs } => Some(
            Crop { name: crop_name, grow_time_secs, yield_gold, planted_at_secs: Some(planted_at_secs) },
        ),
    }
}

/// The plot a stored plot describes.
pub fn fs_plot_to_crop(fs: FsPlot) -> (r: Option<Crop>)
    ensures
        r == crop_of_fs(fs),
{
    match fs {
        FsPlot::Empty => None,
        FsPlot::Occupied { crop_name, grow_time_secs, yield_gold, planted_at_secs } => Some(
            Crop { name: crop_name, grow_time_secs, yield_gold, planted_at_secs: Some(planted_at_secs) },
        ),
    }
}

/// The stored form of an animal: its state kept, or reset to idle for a
/// freshly initialised farm.
pub fn fs_animal_of(a: &Animal, keep_state: bool) -> (r: FsAnimal)
    ensures
        r == (FsAnimal {
            name: a.name,
            breed_time_secs: a.breed_time_secs,
            yield_gold: a.yield_gold,
            breeding: keep_state && a.breeding,
            breed_started_at_secs: if keep_state {
                a.breed_started_at_secs
            } else {
                None
            },
        }),
{
    FsAnimal {
        name: a.name.clone(),
        breed_time_secs: a.breed_time_secs,
        yield_gold: a.yield_gold,
        breeding: keep_state && a.breeding,
        breed_started_at_secs: if keep_state {
            a.breed_started_at_secs
        } else {
            None
        },
    }
}

/// The animal a stored animal describes.
pub open spec fn animal_of_fs(fa: FsAnimal) -> Animal {
    Animal {
        name: fa.name,
        breed_time_secs: fa.breed_time_secs,
        yield_gold: fa.yield_gold,
        breeding: fa.breeding,
        breed_started_at_secs: fa.breed_started_at_secs,
    }
}

/// The farm read back from its files: plot `i` from `plots[i]` (empty when
/// the file is missing), animal `i` from `animals[i]` (the template's animal
/// when the file is missing).
pub fn farm_from_files(template: &Farm, plots: Vec<Option<FsPlot>>, animals: Vec<Option<FsAnimal>>) -> (r: Farm)
    requires
        plots@.len() == template.plots@.len(),
        animals@.len() == template.animals@.len(),
    ensures
        r.plots@.len() == plots@.len(),
        forall|i: int|
            0 <= i < plots@.len() ==> #[trigger] r.plots@[i] == match plots@[i] {
                Some(fp) => crop_of_fs(fp),
                None => None,
            },
        r.animals@.len() == animals@.len(),
        forall|i: int|
            0 <= i < animals@.len() ==> #[trigger] r.animals@[i] == match animals@[i] {
                Some(fa) => animal_of_fs(fa),
                None => template.animals@[i],
            },
{
    let ghost pin = plots@;
    let ghost ain = animals@;
    let mut out_plots: Vec<Option<Crop>> = Vec::new();
    let mut plots = plots;
    let n = plots.len();
    let mut i: usize = 0;
    while i < n
        invariant
            n == plots@.len(),
            plots@ == pin,
            i <= n,
            out_plots@.len() == i,
            forall|j: int|
                0 <= j < i ==> #[trigger] out_plots@[j] == match pin[j] {
                    Some(fp) => crop_of_fs(fp),
                    None => None,
                },
        decreases n - i,
    {
        let c = match &plots[i] {
            Some(FsPlot::Empty) => None,
            Some(FsPlot::Occupied { crop_name, grow_time_secs, yield_gold, planted_at_secs }) => Some(
                Crop {
                    name: crop_name.clone(),
                    grow_time_secs: *grow_time_secs,
                    yield_gold: *yield_gold,
                    planted_at_secs: Some(*planted_at_secs),
                },
            ),
            None => None,
        };
        out_plots.push(c);
        i = i + 1;
    }
    let mut out_animals: Vec<Animal> = Vec::new();
    let m = animals.len();
    let mut k: usize = 0;
    while k < m
        invariant
            m == animals@.len(),
            animals@ == ain,
            m == template.animals@.len(),
            k <= m,
            out_animals@.len() == k,
            forall|j: int|
                0 <= j < k ==> #[trigger] out_animals@[j] == match ain[j] {
                    Some(fa) => animal_of_fs(fa),
                    None => template.animals@[j],
                },
        decreases m - k,
    {
        let a = match &animals[k] {
            Some(fa) => Animal {
                name: fa.name.clone(),
                breed_time_secs: fa.breed_time_secs,
                yield_gold: fa.yield_gold,
                breeding: fa.breeding,
                breed_started_at_secs: fa.breed_started_at_secs,
            },
            None => {
                let t = &template.animals[k];
                Animal {
                    name: t.name.clone(),
                    breed_time_secs: t.breed_time_secs,
                    yield_gold: t.yield_gold,
                    breeding: t.breeding,
                    breed_started_at_secs: t.breed_started_at_secs,
                }
            },
        };
        out_animals.push(a);
        k = k + 1;
    }
    Farm { plots: out_plots, animals: out_animals }
}

/// The action map in force in an area: the global map (or the default map
/// when the global file is missing or unreadable), with the area's own map,
/// when it could be read, merged over it.
pub fn effective_action_map(global: Option<ActionMap>, area: Option<ActionMap>) -> (r: ActionMap)
    requires
        global matches Some(g) ==> g.wf(),
        area matches Some(a) ==> a.wf(),
    ensures
        r.wf(),
        r@ == match (global, area) {
            (Some(g), Some(a)) => g@.union_prefer_right(a@),
            (Some(g), None) => g@,
            (None, Some(a)) => ActionMap::default_map_view().union_prefer_right(a@),
            (None, None) => ActionMap::default_map_view(),
        },
{
    let mut m = match global {
        Some(g) => g,
        None => ActionMap::default_map(),
    };
    match area {
        Some(a) => {
            m.merge(&a);
        },
        None => {},
    }
    m
}

/// Which lines of a file match: pairs of 1-based line number and line.
pub open spec fn matching_lines(ls: Seq<Seq<char>>, pat: Seq<char>, k: int) -> Seq<(int, Seq<char>)>
    decreases k,
{
    if k <= 0 {
        Seq::empty()
    } else if contains_sub(unicode_lower(ls[k - 1]), pat) {
        matching_lines(ls, pat, k - 1).push((k, ls[k - 1]))
    } else {
        matching_lines(ls, pat, k - 1)
    }
}

/// The view of a list of numbered lines.
pub open spec fn numbered(v: Seq<(usize, String)>) -> Seq<(int, Seq<char>)> {
    v.map_values(|e: (usize, String)| (e.0 as int, e.1@))
}

/// The search result for one file of an area: the file if its name contains
/// the pattern (case-insensitively) or some line of its content does, with
/// the matching lines.
pub fn search_file(filename: &str, content: Option<&str>, pattern: &str) -> (r: Option<(String, Vec<(usize, String)>)>)
    ensures
        ({
            let pat = unicode_lower(pattern@);
            let ml = match content {
                Some(c) => matching_lines(lines_spec(c@), pat, lines_spec(c@).len() as int),
                None => Seq::empty(),
            };
            let name_matches = contains_sub(unicode_lower(filename@), pat);
            match r {
                Some((f, ls)) => (name_matches || ml.len() > 0) && f@ == filename@ && numbered(ls@) == ml,
                None => !(name_matches || ml.len() > 0),
            }
        }),
{
    let pat_s = to_lowercase(pattern);
    let pat = chars_of(pat_s.as_str());
    let fl = to_lowercase(filename);
    let flv = chars_of(fl.as_str());
    let name_matches = contains_vec(&flv, &pat);
    let mut found: Vec<(usize, String)> = Vec::new();
    let ghost ml = match content {
        Some(c) => matching_lines(lines_spec(c@), pat@, lines_spec(c@).len() as int),
        None => Seq::<(int, Seq<char>)>::empty(),
    };
    match content {
        Some(c) => {
            let cv = chars_of(c);
            let ls = lines_of(&cv);
            let ghost lv = views(ls@);
            let mut i: usize = 0;
            while i < ls.len()
                invariant
                    lv == views(ls@),
                    lv == lines_spec(c@),
                    pat@ == unicode_lower(pattern@),
                    i <= ls@.len(),
                    numbered(found@) == matching_lines(lv, pat@, i as int),
                    forall|j: int| 0 <= j < found@.len() ==> #[trigger] found@[j].0 <= i,
                decreases ls@.len() - i,
            {
                let line = string_of(&ls[i]);
                assert(lv[i as int] == line@);
                let low = to_lowercase(line.as_str());
                let lowv = chars_of(low.as_str());
                if contains_vec(&lowv, &pat) {
                    let ghost prev = found@;
                    found.push((i + 1, line));
                    assert(numbered(found@) =~= numbered(prev).push(((i + 1) as int, lv[i as int])));
                }
                i = i + 1;
            }
        },
        None => {},
    }
    if name_matches || found.len() > 0 {
        Some((String::from_str(filename), found))
    } else {
        None
    }
}

} // verus!
