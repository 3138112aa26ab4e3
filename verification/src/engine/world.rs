//! The game world: the single source of truth for all runtime state (the
//! player, every entity, every area and the farm).  The virtual file system
//! and the commands read from and write to the world; it never touches the
//! real file system.

use vstd::prelude::*;
use vstd::string::*;
use crate::engine::area::{Area, FARM_AREA};
use crate::engine::combat::{generate_monsters, monster_view, monsters_spec, stat_keys};
use crate::engine::entity::{
    entity_view, pairs_map, prop_pairs, props_view, state_insert, state_wf, value_view, Entity,
    EntityId, EntityKind, EntityView, Value, ValueView,
};
use crate::engine::farming::{idle_animal, unit_result, AnimalType, Crop, CropType, Farm};
use crate::player::Player;
use crate::rng::{random_ratio, random_usize_in};
use crate::text::{
    chars_of, contains_sub, contains_vec, dec_nat, lemma_lex_asym, lemma_lex_total, lemma_lex_trans, lex_less,
    lex_lt, push_dec, str_eq, to_lowercase, unicode_lower,
};

verus! {

/// The game world.
pub struct World {
    pub player: Player,
    pub player_area: String,
    pub areas: Vec<Area>,
    /// The entities, each id once.
    pub entities: Vec<Entity>,
    pub farm: Farm,
    pub crop_types: Vec<CropType>,
    /// The id the next spawned entity gets.
    pub next_id: EntityId,
}

/// The entity with id `id`, if any (the first one in the sequence).
pub open spec fn entity_of(es: Seq<Entity>, id: EntityId) -> Option<Entity>
    decreases es.len(),
{
    if es.len() == 0 {
        None
    } else if es[0].id == id {
        Some(es[0])
    } else {
        entity_of(es.drop_first(), id)
    }
}

/// No id occurs twice and every entity is well formed.
pub open spec fn entities_wf(es: Seq<Entity>) -> bool {
    &&& forall|i: int, j: int| 0 <= i < j < es.len() ==> es[i].id != es[j].id
    &&& forall|i: int| 0 <= i < es.len() ==> (#[trigger] es[i]).wf()
}

/// The entities by id, as plain data.
pub open spec fn entities_map(es: Seq<Entity>) -> Map<EntityId, EntityView> {
    Map::new(
        |k: EntityId| entity_of(es, k) is Some,
        |k: EntityId| entity_view(entity_of(es, k)->0),
    )
}

/// With distinct ids, the entity of an id is the one that carries it.
pub proof fn lemma_entity_of(es: Seq<Entity>)
    requires
        forall|i: int, j: int| 0 <= i < j < es.len() ==> es[i].id != es[j].id,
    ensures
        forall|i: int| 0 <= i < es.len() ==> entity_of(es, #[trigger] es[i].id) == Some(es[i]),
        forall|k: EntityId|
            (forall|i: int| 0 <= i < es.len() ==> es[i].id != k) ==> #[trigger] entity_of(es, k)
                == None::<Entity>,
    decreases es.len(),
{
    if es.len() > 0 {
        let t = es.drop_first();
        assert forall|a: int, b: int| 0 <= a < b < t.len() implies t[a].id != t[b].id by {
            assert(t[a] == es[a + 1]);
            assert(t[b] == es[b + 1]);
        }
        lemma_entity_of(t);
        assert forall|i: int| 0 <= i < es.len() implies entity_of(es, #[trigger] es[i].id) == Some(
            es[i],
        ) by {
            if i > 0 {
                assert(t[i - 1] == es[i]);
                assert(es[0].id != es[i].id);
            }
        }
        assert forall|k: EntityId|
            (forall|i: int| 0 <= i < es.len() ==> es[i].id != k) implies #[trigger] entity_of(es, k)
                == None::<Entity> by {
            assert(es[0].id != k);
            assert forall|i: int| 0 <= i < t.len() implies t[i].id != k by {
                assert(t[i] == es[i + 1]);
            }
            assert(entity_of(t, k) == None::<Entity>);
        }
    }
}

/// The entities that `spawned_map` adds: kind, name and properties.
pub type Spawn = (EntityKind, Seq<char>, Map<Seq<char>, ValueView>);

/// `m` after spawning `news` in `area`, with ids counting up from `start`.
pub open spec fn spawned_map(
    m: Map<EntityId, EntityView>,
    start: int,
    area: Seq<char>,
    news: Seq<Spawn>,
) -> Map<EntityId, EntityView>
    decreases news.len(),
{
    if news.len() == 0 {
        m
    } else {
        let id = (start + news.len() - 1) as u64;
        spawned_map(m, start, area, news.drop_last()).insert(
            id,
            EntityView {
                id,
                kind: news.last().0,
                name: news.last().1,
                area,
                props: news.last().2,
            },
        )
    }
}

/// The names of the NPCs that may appear in an area.
pub open spec fn npc_names() -> Seq<Seq<char>> {
    seq!["老者"@, "旅行商人"@, "隐士"@]
}

/// What each NPC of [`npc_names`] says.
pub open spec fn npc_dialogues() -> Seq<Seq<char>> {
    seq![
        "欢迎来到这片土地，冒险者。小心前方的怪物。"@,
        "我这里有好东西卖，不过你现在还买不起。"@,
        "真正的力量不在于攻击，而在于知道何时该撤退。"@,
    ]
}

/// The items that may appear in an area, with their value in gold.
pub open spec fn loot_items() -> Seq<(Seq<char>, nat)> {
    seq![("草药"@, 15nat), ("旧剑"@, 20nat), ("皮靴"@, 12nat), ("魔法卷轴"@, 25nat), ("盾牌碎片"@, 18nat)]
}

/// The description of an item worth `gold`.
pub open spec fn item_description(name: Seq<char>, gold: nat) -> Seq<char> {
    "一个"@ + name + "，价值"@ + dec_nat(gold) + "金币。"@
}

/// The random draws that decide how an area is populated: which monsters
/// of the area's five (in order), which NPC if any, which item if any.
pub struct PopulateChoice {
    pub monsters: Vec<usize>,
    pub npc: Option<usize>,
    pub item: Option<usize>,
}

impl PopulateChoice {
    /// Every index is in range.
    pub open spec fn in_range(&self) -> bool {
        &&& forall|i: int| 0 <= i < self.monsters@.len() ==> self.monsters@[i] < 5
        &&& self.npc matches Some(n) ==> n < 3
        &&& self.item matches Some(t) ==> t < 5
    }

    /// What the random draws can give: two or three distinct monsters.
    pub open spec fn drawable(&self) -> bool {
        &&& self.in_range()
        &&& 2 <= self.monsters@.len() <= 3
        &&& forall|i: int, j: int|
            0 <= i < j < self.monsters@.len() ==> self.monsters@[i] != self.monsters@[j]
    }
}

/// The properties of a monster with the given stats.
pub open spec fn monster_props(stats: Seq<int>) -> Map<Seq<char>, ValueView> {
    pairs_map(
        Seq::new(6, |i: int| (stat_keys()[i], ValueView::Int(stats[i] as i64))),
    )
}

/// The entities that a populate choice spawns in an area of level `level`.
pub open spec fn populate_spawns(level: nat, c: PopulateChoice) -> Seq<Spawn> {
    let ms = c.monsters@.map_values(
        |m: usize|
            (EntityKind::Monster, monsters_spec(level)[m as int].0, monster_props(
                monsters_spec(level)[m as int].1,
            )),
    );
    let npc = match c.npc {
        Some(n) => seq![
            (EntityKind::Npc, npc_names()[n as int], Map::empty().insert(
                "dialogue"@,
                ValueView::Str(npc_dialogues()[n as int]),
            )),
        ],
        None => Seq::empty(),
    };
    let item = match c.item {
        Some(t) => seq![
            (EntityKind::Item, loot_items()[t as int].0, Map::empty().insert(
                "gold_value"@,
                ValueView::Int(loot_items()[t as int].1 as i64),
            ).insert(
                "description"@,
                ValueView::Str(item_description(loot_items()[t as int].0, loot_items()[t as int].1)),
            )),
        ],
        None => Seq::empty(),
    };
    ms + npc + item
}

/// Index of the first area named `name`, or `-1`.
pub open spec fn area_index(areas: Seq<Area>, name: Seq<char>) -> int
    decreases areas.len(),
{
    if areas.len() == 0 {
        -1
    } else if areas.last().name@ == name && area_index(areas.drop_last(), name) == -1 {
        areas.len() - 1
    } else {
        area_index(areas.drop_last(), name)
    }
}

pub proof fn lemma_area_index(areas: Seq<Area>, name: Seq<char>)
    ensures
        -1 <= area_index(areas, name) < areas.len(),
        area_index(areas, name) >= 0 ==> areas[area_index(areas, name)].name@ == name,
        forall|j: int|
            0 <= j < areas.len() && (j < area_index(areas, name) || area_index(areas, name) == -1)
                ==> (#[trigger] areas[j]).name@ != name,
    decreases areas.len(),
{
    if areas.len() > 0 {
        let t = areas.drop_last();
        lemma_area_index(t, name);
        assert forall|j: int|
            0 <= j < areas.len() && (j < area_index(areas, name) || area_index(areas, name) == -1)
                implies (#[trigger] areas[j]).name@ != name by {
            if j < areas.len() - 1 {
                assert(areas[j] == t[j]);
            }
        }
    }
}

/// `vs` lists, each once and ordered by name, exactly the entities of `m`
/// that are in `area`.
pub open spec fn is_area_listing(m: Map<EntityId, EntityView>, area: Seq<char>, vs: Seq<EntityView>) -> bool {
    &&& forall|i: int|
        0 <= i < vs.len() ==> m.contains_key(#[trigger] vs[i].id) && m[vs[i].id] == vs[i] && vs[i].area == area
    &&& forall|id: EntityId|
        #[trigger] m.contains_key(id) && m[id].area == area ==> exists|i: int| 0 <= i < vs.len() && vs[i].id == id
    &&& forall|i: int, j: int| 0 <= i < j < vs.len() ==> vs[i].id != vs[j].id
    &&& forall|i: int, j: int| 0 <= i < j < vs.len() ==> !lex_lt(vs[j].name, vs[i].name)
}

/// The plain data of a sequence of entity references.
pub open spec fn entity_views(s: Seq<&Entity>) -> Seq<EntityView> {
    s.map_values(|e: &Entity| entity_view(*e))
}

/// The area names, with the farm added at the end when no area has its name.
pub open spec fn area_names_spec(areas: Seq<Area>) -> Seq<Seq<char>> {
    let names = areas.map_values(|a: Area| a.name@);
    if names.contains(FARM_AREA@) {
        names
    } else {
        names.push(FARM_AREA@)
    }
}

/// The views of a sequence of strings.
pub open spec fn str_seq_views(v: Seq<&str>) -> Seq<Seq<char>> {
    v.map_values(|s: &str| s@)
}

/// Names never decrease along `s`.
pub open spec fn names_sorted(s: Seq<&Entity>) -> bool {
    forall|i: int, j: int| 0 <= i < j < s.len() ==> !lex_lt(s[j].name@, s[i].name@)
}

/// Insert `e` after every entity whose name is not greater than its own.
fn insert_by_name<'a>(out: &mut Vec<&'a Entity>, e: &'a Entity) -> (p: usize)
    requires
        names_sorted(old(out)@),
    ensures
        p <= old(out)@.len(),
        final(out)@ == old(out)@.insert(p as int, e),
        names_sorted(final(out)@),
{
    let en = chars_of(e.name.as_str());
    let mut p: usize = 0;
    let mut found = false;
    while p < out.len() && !found
        invariant
            p <= out@.len(),
            en@ == e.name@,
            found ==> p < out@.len() && lex_lt(e.name@, out@[p as int].name@),
            forall|a: int| 0 <= a < p ==> !lex_lt(e.name@, out@[a].name@),
        decreases out@.len() - p + if found {
            0int
        } else {
            1int
        },
    {
        let on = chars_of(out[p].name.as_str());
        if lex_less(&en, &on) {
            found = true;
        } else {
            p = p + 1;
        }
    }
    let ghost prev = out@;
    proof {
        assert forall|a: int| p <= a < prev.len() implies lex_lt(e.name@, prev[a].name@) by {
            if a > p {
                assert(!lex_lt(prev[a].name@, prev[p as int].name@));
                if prev[p as int].name@ != prev[a].name@ {
                    lemma_lex_total(prev[p as int].name@, prev[a].name@);
                    lemma_lex_trans(e.name@, prev[p as int].name@, prev[a].name@);
                }
            }
        }
    }
    out.insert(p, e);
    proof {
        let ns = out@;
        assert forall|a: int, b: int| 0 <= a < b < ns.len() implies !lex_lt(ns[b].name@, ns[a].name@) by {
            if a < p && b < p {
                assert(ns[a] == prev[a] && ns[b] == prev[b]);
            } else if a < p && b == p {
                assert(ns[a] == prev[a]);
            } else if a < p {
                assert(ns[a] == prev[a] && ns[b] == prev[b - 1]);
            } else if a == p {
                assert(ns[b] == prev[b - 1]);
                lemma_lex_asym(e.name@, prev[b - 1].name@);
            } else {
                assert(ns[a] == prev[a - 1] && ns[b] == prev[b - 1]);
            }
        }
    }
    p
}

/// `out` holds, each once, exactly the entities of `es[..i]` in `area`;
/// `src` gives the position in `es` of each element of `out`.
pub open spec fn collected(es: Seq<Entity>, out: Seq<&Entity>, src: Seq<int>, i: int, area: Seq<char>) -> bool {
    &&& out.len() == src.len()
    &&& forall|a: int|
        #![trigger src[a]]
        0 <= a < src.len() ==> 0 <= src[a] < i && *out[a] == es[src[a]] && es[src[a]].area@ == area
    &&& forall|j: int|
        #![trigger es[j]]
        0 <= j < i && es[j].area@ == area ==> exists|a: int| 0 <= a < src.len() && src[a] == j
    &&& forall|a: int, b: int| 0 <= a < b < src.len() ==> src[a] != src[b]
}

proof fn lemma_collected_insert(es: Seq<Entity>, prev: Seq<&Entity>, src: Seq<int>, p: int, i: int, area: Seq<char>)
    requires
        0 <= i < es.len(),
        0 <= p <= prev.len(),
        es[i].area@ == area,
        collected(es, prev, src, i, area),
    ensures
        collected(es, prev.insert(p, &es[i]), src.insert(p, i), i + 1, area),
{
    let ns = prev.insert(p, &es[i]);
    let nsrc = src.insert(p, i);
    assert forall|a: int|
        #![trigger nsrc[a]]
        0 <= a < nsrc.len() implies 0 <= nsrc[a] < i + 1 && *ns[a] == es[nsrc[a]] && es[nsrc[a]].area@ == area by {
        if a < p {
            assert(ns[a] == prev[a] && nsrc[a] == src[a]);
        } else if a > p {
            assert(ns[a] == prev[a - 1] && nsrc[a] == src[a - 1]);
        }
    }
    assert forall|j: int|
        #![trigger es[j]]
        0 <= j < i + 1 && es[j].area@ == area implies exists|a: int| 0 <= a < nsrc.len() && nsrc[a] == j by {
        if j == i {
            assert(nsrc[p] == j);
        } else {
            let a = choose|a: int| 0 <= a < src.len() && src[a] == j;
            if a < p {
                assert(nsrc[a] == src[a]);
            } else {
                assert(nsrc[a + 1] == src[a]);
            }
        }
    }
    assert forall|a: int, b: int| 0 <= a < b < nsrc.len() implies nsrc[a] != nsrc[b] by {
        if a < p && b < p {
            assert(nsrc[a] == src[a] && nsrc[b] == src[b]);
        } else if a < p && b == p {
            assert(nsrc[a] == src[a]);
        } else if a < p {
            assert(nsrc[a] == src[a] && nsrc[b] == src[b - 1]);
        } else if a == p {
            assert(nsrc[b] == src[b - 1]);
        } else {
            assert(nsrc[a] == src[a - 1] && nsrc[b] == src[b - 1]);
        }
    }
}

proof fn lemma_collected_done(es: Seq<Entity>, out: Seq<&Entity>, src: Seq<int>, area: Seq<char>)
    requires
        entities_wf(es),
        collected(es, out, src, es.len() as int, area),
    ensures
        forall|i: int|
            0 <= i < out.len() ==> entities_map(es).contains_key(#[trigger] out[i].id)
                && entities_map(es)[out[i].id] == entity_view(*out[i]) && out[i].area@ == area,
        forall|id: EntityId|
            #[trigger] entities_map(es).contains_key(id) && entities_map(es)[id].area == area ==> exists|i: int|
                0 <= i < out.len() && out[i].id == id,
        forall|i: int, j: int| 0 <= i < j < out.len() ==> out[i].id != out[j].id,
{
    lemma_entity_of(es);
    assert forall|a: int|
        0 <= a < out.len() implies entities_map(es).contains_key(#[trigger] out[a].id)
            && entities_map(es)[out[a].id] == entity_view(*out[a]) && out[a].area@ == area by {
        let j = src[a];
        assert(entity_of(es, es[j].id) == Some(es[j]));
    }
    assert forall|id: EntityId|
        #[trigger] entities_map(es).contains_key(id) && entities_map(es)[id].area == area implies exists|a: int|
            0 <= a < out.len() && out[a].id == id by {
        if forall|j: int| 0 <= j < es.len() ==> es[j].id != id {
            assert(entity_of(es, id) == None::<Entity>);
        } else {
            let j = choose|j: int| 0 <= j < es.len() && es[j].id == id;
            assert(entity_of(es, es[j].id) == Some(es[j]));
            assert(es[j].area@ == area);
            let a = choose|a: int| 0 <= a < src.len() && src[a] == j;
            assert(out[a].id == id);
        }
    }
    assert forall|a: int, b: int| 0 <= a < b < out.len() implies out[a].id != out[b].id by {
        assert(src[a] != src[b]);
        assert(*out[a] == es[src[a]]);
        assert(*out[b] == es[src[b]]);
    }
}

proof fn lemma_spawned_step(m0: Map<EntityId, EntityView>, start: int, area: Seq<char>, news: Seq<Spawn>, k: int)
    requires
        0 <= k < news.len(),
    ensures
        spawned_map(m0, start, area, news.take(k + 1)) == spawned_map(m0, start, area, news.take(k)).insert(
            (start + k) as u64,
            EntityView { id: (start + k) as u64, kind: news[k].0, name: news[k].1, area, props: news[k].2 },
        ),
{
    assert(news.take(k + 1).drop_last() =~= news.take(k));
    assert(news.take(k + 1).last() == news[k]);
}

/// The effect of moving the player of `w0` to `target`, giving `w1` and
/// the result `r`.
pub open spec fn move_outcome(w0: World, w1: World, target: Seq<char>, r: Result<(), Seq<char>>) -> bool {
    &&& w1.wf()
    &&& w1.areas == w0.areas
    &&& w1.farm == w0.farm
    &&& w1.crop_types == w0.crop_types
    &&& {
        let idx = area_index(w0.areas@, target);
        let a = w0.areas@[idx];
        let p = w0.player;
        if target == FARM_AREA@ {
            &&& r is Ok
            &&& w1.player == p
            &&& w1.player_area@ == target
            &&& w1.entities == w0.entities
            &&& w1.next_id == w0.next_id
        } else if idx == -1 {
            &&& r == Err::<(), Seq<char>>("未知区域："@ + target)
            &&& w1 == w0
        } else if p.level < a.level_req {
            &&& r == Err::<(), Seq<char>>(level_msg(a.level_req, a.name@, p.level))
            &&& w1 == w0
        } else {
            &&& r is Ok
            &&& w1.player == if a.explore_cost_hp > 0 && p.hp > a.explore_cost_hp {
                Player { hp: (p.hp - a.explore_cost_hp) as i32, ..p }
            } else {
                p
            }
            &&& w1.player_area@ == target
            &&& if exists|id: EntityId|
                #[trigger] w0.entity_map().contains_key(id) && w0.entity_map()[id].area == target {
                &&& w1.entity_map() == w0.entity_map()
                &&& w1.next_id == w0.next_id
            } else {
                exists|c: Option<PopulateChoice>|
                    (c matches Some(ch) ==> ch.drawable()) && populated(
                        w0.entity_map(),
                        w0.next_id as int,
                        target,
                        w0.areas@,
                        w1.entity_map(),
                        w1.next_id as int,
                        c,
                    )
            }
        }
    }
}

/// The message that refuses an area whose level requirement is not met.
pub open spec fn level_msg(req: u32, name: Seq<char>, level: u32) -> Seq<char> {
    "等级不足！需要 Lv."@ + dec_nat(req as nat) + " 才能进入 "@ + name + "（当前 Lv."@ + dec_nat(level as nat) + "）"@
}

/// The entity map and next id after populating `area` (named among
/// `areas`) with the draws `c`: unchanged when no area has that name,
/// otherwise the spawns of `c` added with ids counting up from `start`.
pub open spec fn populated(
    m0: Map<EntityId, EntityView>,
    start: int,
    area: Seq<char>,
    areas: Seq<Area>,
    m1: Map<EntityId, EntityView>,
    next: int,
    c: Option<PopulateChoice>,
) -> bool {
    let idx = area_index(areas, area);
    if idx == -1 {
        m1 == m0 && next == start
    } else {
        c matches Some(ch) && {
            let news = populate_spawns(areas[idx].enemy_level as nat, ch);
            m1 == spawned_map(m0, start, area, news) && next == start + news.len()
        }
    }
}

impl World {
    /// The next id to be handed out.
    pub open spec fn next_id_view(&self) -> EntityId {
        self.next_id
    }

    /// The entities by id, as plain data.
    pub open spec fn entity_map(&self) -> Map<EntityId, EntityView> {
        entities_map(self.entities@)
    }

    /// Well-formedness: distinct ids, each entity well formed.
    pub open spec fn wf(&self) -> bool {
        entities_wf(self.entities@)
    }

    /// The world with `player_area`, `entities` and `next_id` replaced.
    pub open spec fn same_except_entities(&self, other: &World) -> bool {
        &&& self.player == other.player
        &&& self.player_area == other.player_area
        &&& self.areas == other.areas
        &&& self.farm == other.farm
        &&& self.crop_types == other.crop_types
    }

    /// Restore a world from saved state.
    pub fn from_save(
        player: Player,
        player_area: String,
        areas: Vec<Area>,
        entities: Vec<Entity>,
        farm: Farm,
        crop_types: Vec<CropType>,
        next_id: EntityId,
    ) -> (r: World)
        requires
            entities_wf(entities@),
        ensures
            r.wf(),
            r == (World { player, player_area, areas, entities, farm, crop_types, next_id: r.next_id }),
            r.next_id_view() == next_id,
    {
        World { player, player_area, areas, entities, farm, crop_types, next_id }
    }

    /// Expose next_id for persistence.
    pub fn next_id(&self) -> (r: EntityId)
        ensures
            r == self.next_id_view(),
    {
        self.next_id
    }

    /// Index of the entity with id `id`.
    fn index_of(&self, id: EntityId) -> (r: Option<usize>)
        requires
            self.wf(),
        ensures
            match r {
                Some(i) => i < self.entities@.len() && self.entities@[i as int].id == id,
                None => forall|i: int| 0 <= i < self.entities@.len() ==> self.entities@[i].id != id,
            },
    {
        let mut i: usize = 0;
        while i < self.entities.len()
            invariant
                i <= self.entities@.len(),
                forall|j: int| 0 <= j < i ==> self.entities@[j].id != id,
            decreases self.entities@.len() - i,
        {
            if self.entities[i].id == id {
                return Some(i);
            }
            i = i + 1;
        }
        None
    }

    /// Get a reference to an entity.
    pub fn entity(&self, id: EntityId) -> (r: Option<&Entity>)
        requires
            self.wf(),
        ensures
            match r {
                Some(e) => self.entity_map().contains_key(id) && entity_view(*e) == self.entity_map()[id]
                    && e.wf(),
                None => !self.entity_map().contains_key(id),
            },
    {
        proof {
            lemma_entity_of(self.entities@);
        }
        match self.index_of(id) {
            Some(i) => {
                assert(entity_of(self.entities@, self.entities@[i as int].id) == Some(
                    self.entities@[i as int],
                ));
                Some(&self.entities[i])
            },
            None => {
                assert(entity_of(self.entities@, id) == None::<Entity>);
                None
            },
        }
    }

    /// Remove an entity from the world and return it (`HashMap::remove`).
    pub fn take_entity(&mut self, id: EntityId) -> (r: Option<Entity>)
        requires
            old(self).wf(),
        ensures
            final(self).wf(),
            final(self).same_except_entities(old(self)),
            final(self).next_id_view() == old(self).next_id_view(),
            final(self).entity_map() == old(self).entity_map().remove(id),
            match r {
                Some(e) => old(self).entity_map().contains_key(id) && entity_view(e) == old(
                    self,
                ).entity_map()[id] && e.wf() && e.id == id,
                None => !old(self).entity_map().contains_key(id),
            },
    {
        proof {
            lemma_entity_of(self.entities@);
        }
        let ghost es = self.entities@;
        match self.index_of(id) {
            Some(i) => {
                assert(entity_of(es, es[i as int].id) == Some(es[i as int]));
                let e = self.entities.remove(i);
                let ghost ns = self.entities@;
                assert(ns =~= es.remove(i as int));
                assert forall|a: int, b: int| 0 <= a < b < ns.len() implies ns[a].id != ns[b].id by {
                    let a0 = if a < i { a } else { a + 1 };
                    let b0 = if b < i { b } else { b + 1 };
                    assert(ns[a] == es[a0]);
                    assert(ns[b] == es[b0]);
                }
                assert forall|a: int| 0 <= a < ns.len() implies (#[trigger] ns[a]).wf() by {
                    let a0 = if a < i { a } else { a + 1 };
                    assert(ns[a] == es[a0]);
                }
                proof {
                    lemma_entity_of(ns);
                    assert forall|k: EntityId| #[trigger] entity_of(ns, k) == if k == id {
                        None
                    } else {
                        entity_of(es, k)
                    } by {
                        if k == id {
                            assert forall|a: int| 0 <= a < ns.len() implies ns[a].id != k by {
                                let a0 = if a < i { a } else { a + 1 };
                                assert(ns[a] == es[a0]);
                            }
                        } else {
                            if exists|a: int| 0 <= a < es.len() && es[a].id == k {
                                let a = choose|a: int| 0 <= a < es.len() && es[a].id == k;
                                assert(a != i);
                                let a1 = if a < i { a } else { a - 1 };
                                assert(ns[a1] == es[a]);
                                assert(entity_of(ns, ns[a1].id) == Some(ns[a1]));
                                assert(entity_of(es, es[a].id) == Some(es[a]));
                            } else {
                                assert forall|a: int| 0 <= a < ns.len() implies ns[a].id != k by {
                                    let a0 = if a < i { a } else { a + 1 };
                                    assert(ns[a] == es[a0]);
                                }
                            }
                        }
                    }
                    assert(entities_map(ns) =~= entities_map(es).remove(id));
                }
                Some(e)
            },
            None => {
                assert(entity_of(es, id) == None::<Entity>);
                assert(entities_map(es) =~= entities_map(es).remove(id));
                None
            },
        }
    }

    /// Remove an entity from the world.
    pub fn remove_entity(&mut self, id: EntityId)
        requires
            old(self).wf(),
        ensures
            final(self).wf(),
            final(self).same_except_entities(old(self)),
            final(self).next_id_view() == old(self).next_id_view(),
            final(self).entity_map() == old(self).entity_map().remove(id),
    {
        let _ = self.take_entity(id);
    }

    /// Put an entity into the world under its id, replacing any entity with
    /// that id (`HashMap::insert`).
    pub fn insert_entity(&mut self, e: Entity)
        requires
            old(self).wf(),
            e.wf(),
        ensures
            final(self).wf(),
            final(self).same_except_entities(old(self)),
            final(self).next_id_view() == old(self).next_id_view(),
            final(self).entity_map() == old(self).entity_map().insert(e.id, entity_view(e)),
    {
        let id = e.id;
        self.remove_entity(id);
        let ghost es = self.entities@;
        proof {
            lemma_entity_of(es);
        }
        assert(!entities_map(es).contains_key(id));
        assert forall|a: int| 0 <= a < es.len() implies es[a].id != id by {
            assert(entity_of(es, es[a].id) == Some(es[a]));
            assert(entities_map(es).contains_key(es[a].id));
        }
        self.entities.push(e);
        let ghost ns = self.entities@;
        assert forall|a: int, b: int| 0 <= a < b < ns.len() implies ns[a].id != ns[b].id by {
            assert(ns[a] == es[a]);
            if b < es.len() {
                assert(ns[b] == es[b]);
            }
        }
        assert forall|a: int| 0 <= a < ns.len() implies (#[trigger] ns[a]).wf() by {
            if a < es.len() {
                assert(ns[a] == es[a]);
            }
        }
        proof {
            lemma_entity_of(ns);
            assert forall|k: EntityId| #[trigger] entity_of(ns, k) == if k == id {
                Some(e)
            } else {
                entity_of(es, k)
            } by {
                if k == id {
                    assert(ns[es.len() as int] == e);
                    assert(entity_of(ns, ns[es.len() as int].id) == Some(e));
                } else if exists|a: int| 0 <= a < es.len() && es[a].id == k {
                    let a = choose|a: int| 0 <= a < es.len() && es[a].id == k;
                    assert(ns[a] == es[a]);
                    assert(entity_of(ns, ns[a].id) == Some(ns[a]));
                    assert(entity_of(es, es[a].id) == Some(es[a]));
                } else {
                    assert forall|a: int| 0 <= a < ns.len() implies ns[a].id != k by {
                        if a < es.len() {
                            assert(ns[a] == es[a]);
                        }
                    }
                }
            }
            assert(entities_map(ns) =~= entities_map(es).insert(id, entity_view(e)));
        }
    }

    /// Spawn a new entity and return its id.
    pub fn spawn_entity(&mut self, kind: EntityKind, name: &str, area: &str, props: Vec<(&str, Value)>) -> (r: EntityId)
        requires
            old(self).wf(),
            old(self).next_id_view() < u64::MAX,
        ensures
            final(self).wf(),
            final(self).same_except_entities(old(self)),
            r == old(self).next_id_view(),
            final(self).next_id_view() == r + 1,
            final(self).entity_map() == old(self).entity_map().insert(
                r,
                EntityView { id: r, kind, name: name@, area: area@, props: pairs_map(prop_pairs(props@)) },
            ),
    {
        let id = self.next_id;
        self.next_id = self.next_id + 1;
        let mut state: Vec<(String, Value)> = Vec::new();
        let mut props = props;
        let ghost pv = props@;
        let mut i: usize = 0;
        let n = props.len();
        assert(props_view(state@) =~= pairs_map(prop_pairs(pv.take(0))));
        assert(pv.skip(0) =~= pv);
        while props.len() > 0
            invariant
                state_wf(state@),
                props@.len() + i == n,
                n == pv.len(),
                props@ == pv.skip(i as int),
                props_view(state@) == pairs_map(prop_pairs(pv.take(i as int))),
            decreases props@.len(),
        {
            let ghost before = props@;
            let (k, v) = props.remove(0);
            proof {
                assert(props@ =~= pv.skip(i + 1));
            }
            state_insert(&mut state, k, v);
            proof {
                let ps = prop_pairs(pv.take(i + 1));
                assert(ps.drop_last() =~= prop_pairs(pv.take(i as int)));
                assert(ps.last() == (k@, value_view(v)));
            }
            i = i + 1;
        }
        assert(pv.take(n as int) =~= pv);
        let e = Entity {
            id,
            kind,
            name: String::from_str(name),
            area: String::from_str(area),
            state,
        };
        self.insert_entity(e);
        id
    }

    /// Find an area by name (the first one with that name).
    pub fn find_area(&self, name: &str) -> (r: Option<&Area>)
        ensures
            match r {
                Some(a) => area_index(self.areas@, name@) >= 0 && *a == self.areas@[area_index(
                    self.areas@,
                    name@,
                )],
                None => area_index(self.areas@, name@) == -1,
            },
    {
        proof {
            lemma_area_index(self.areas@, name@);
        }
        let mut i: usize = 0;
        while i < self.areas.len()
            invariant
                i <= self.areas@.len(),
                -1 <= area_index(self.areas@, name@) < self.areas@.len(),
                area_index(self.areas@, name@) >= 0 ==> self.areas@[area_index(self.areas@, name@)].name@
                    == name@,
                forall|j: int|
                    0 <= j < self.areas@.len() && (j < area_index(self.areas@, name@) || area_index(
                        self.areas@,
                        name@,
                    ) == -1) ==> (#[trigger] self.areas@[j]).name@ != name@,
                forall|j: int| 0 <= j < i ==> (#[trigger] self.areas@[j]).name@ != name@,
            decreases self.areas@.len() - i,
        {
            if str_eq(self.areas[i].name.as_str(), name) {
                return Some(&self.areas[i]);
            }
            i = i + 1;
        }
        None
    }

    /// List all area names (including the farm).
    pub fn area_names(&self) -> (r: Vec<&str>)
        ensures
            str_seq_views(r@) == area_names_spec(self.areas@),
    {
        let ghost names = self.areas@.map_values(|a: Area| a.name@);
        let mut r: Vec<&str> = Vec::new();
        let mut has_farm = false;
        let mut i: usize = 0;
        while i < self.areas.len()
            invariant
                i <= self.areas@.len(),
                names == self.areas@.map_values(|a: Area| a.name@),
                str_seq_views(r@) == names.take(i as int),
                has_farm == names.take(i as int).contains(FARM_AREA@),
            decreases self.areas@.len() - i,
        {
            let n = self.areas[i].name.as_str();
            let ghost before = r@;
            r.push(n);
            proof {
                assert(r@ =~= before.push(n));
                assert(str_seq_views(r@) =~= str_seq_views(before).push(n@));
                assert(names.take(i + 1) =~= names.take(i as int).push(n@));
            }
            if str_eq(n, FARM_AREA) {
                has_farm = true;
            }
            proof {
                let t0 = names.take(i as int);
                let t1 = names.take(i + 1);
                assert(t1.contains(FARM_AREA@) == (t0.contains(FARM_AREA@) || n@ == FARM_AREA@)) by {
                    if t1.contains(FARM_AREA@) {
                        let k = choose|k: int| 0 <= k < t1.len() && t1[k] == FARM_AREA@;
                        if k < i {
                            assert(t0[k] == FARM_AREA@);
                        }
                    }
                    if n@ == FARM_AREA@ {
                        assert(t1[i as int] == FARM_AREA@);
                    }
                    if t0.contains(FARM_AREA@) {
                        let k = choose|k: int| 0 <= k < t0.len() && t0[k] == FARM_AREA@;
                        assert(t1[k] == FARM_AREA@);
                    }
                }
            }
            i = i + 1;
        }
        assert(names.take(self.areas@.len() as int) =~= names);
        if !has_farm {
            r.push(FARM_AREA);
            assert(str_seq_views(r@) =~= names.push(FARM_AREA@));
        }
        r
    }

    /// Find an entity by name in the given area: one whose area is `area`
    /// and whose lower-cased name contains the lower-cased `name`.
    pub fn find_entity_in_area(&self, area: &str, name: &str) -> (r: Option<EntityId>)
        requires
            self.wf(),
        ensures
            match r {
                Some(id) => self.entity_map().contains_key(id) && self.entity_map()[id].area == area@
                    && contains_sub(unicode_lower(self.entity_map()[id].name), unicode_lower(name@)),
                None => forall|id: EntityId|
                    #[trigger] self.entity_map().contains_key(id) ==> !(self.entity_map()[id].area
                        == area@ && contains_sub(
                        unicode_lower(self.entity_map()[id].name),
                        unicode_lower(name@),
                    )),
            },
    {
        proof {
            lemma_entity_of(self.entities@);
        }
        let lower = to_lowercase(name);
        let lv = chars_of(lower.as_str());
        let mut i: usize = 0;
        while i < self.entities.len()
            invariant
                self.wf(),
                i <= self.entities@.len(),
                lv@ == unicode_lower(name@),
                forall|j: int|
                    0 <= j < i ==> !((#[trigger] self.entities@[j]).area@ == area@ && contains_sub(
                        unicode_lower(self.entities@[j].name@),
                        unicode_lower(name@),
                    )),
            decreases self.entities@.len() - i,
        {
            let e = &self.entities[i];
            if str_eq(e.area.as_str(), area) {
                let ln = to_lowercase(e.name.as_str());
                let nv = chars_of(ln.as_str());
                if contains_vec(&nv, &lv) {
                    proof {
                        lemma_entity_of(self.entities@);
                    }
                    assert(entity_of(self.entities@, self.entities@[i as int].id) == Some(
                        self.entities@[i as int],
                    ));
                    return Some(e.id);
                }
            }
            i = i + 1;
        }
        proof {
            lemma_entity_of(self.entities@);
            assert forall|id: EntityId| #[trigger] self.entity_map().contains_key(id) implies !(
            self.entity_map()[id].area == area@ && contains_sub(
                unicode_lower(self.entity_map()[id].name),
                unicode_lower(name@),
            )) by {
                if forall|j: int| 0 <= j < self.entities@.len() ==> self.entities@[j].id != id {
                    assert(entity_of(self.entities@, id) == None::<Entity>);
                } else {
                    let j = choose|j: int| 0 <= j < self.entities@.len() && self.entities@[j].id == id;
                    assert(entity_of(self.entities@, self.entities@[j].id) == Some(
                        self.entities@[j],
                    ));
                }
            }
        }
        None
    }

    /// All entities currently in the given area, ordered by name.
    pub fn entities_in_area(&self, area: &str) -> (r: Vec<&Entity>)
        requires
            self.wf(),
        ensures
            forall|i: int|
                0 <= i < r@.len() ==> self.entity_map().contains_key(#[trigger] r@[i].id)
                    && self.entity_map()[r@[i].id] == entity_view(*r@[i]) && r@[i].area@ == area@,
            forall|id: EntityId|
                #[trigger] self.entity_map().contains_key(id) && self.entity_map()[id].area == area@
                    ==> exists|i: int| 0 <= i < r@.len() && r@[i].id == id,
            forall|i: int, j: int| 0 <= i < j < r@.len() ==> r@[i].id != r@[j].id,
            names_sorted(r@),
            is_area_listing(self.entity_map(), area@, entity_views(r@)),
    {
        let ghost es = self.entities@;
        let mut out: Vec<&Entity> = Vec::new();
        let ghost mut src: Seq<int> = Seq::empty();
        let mut i: usize = 0;
        while i < self.entities.len()
            invariant
                es == self.entities@,
                entities_wf(es),
                i <= es.len(),
                collected(es, out@, src, i as int, area@),
                names_sorted(out@),
            decreases es.len() - i,
        {
            let e = &self.entities[i];
            if str_eq(e.area.as_str(), area) {
                let ghost prev = out@;
                let p = insert_by_name(&mut out, e);
                proof {
                    lemma_collected_insert(es, prev, src, p as int, i as int, area@);
                    src = src.insert(p as int, i as int);
                }
            }
            i = i + 1;
        }
        proof {
            lemma_collected_done(es, out@, src, area@);
            let vs = entity_views(out@);
            assert forall|id: EntityId|
                #[trigger] self.entity_map().contains_key(id) && self.entity_map()[id].area == area@
                    implies exists|i: int| 0 <= i < vs.len() && vs[i].id == id by {
                let i = choose|i: int| 0 <= i < out@.len() && out@[i].id == id;
                assert(vs[i].id == id);
            }
            assert forall|i: int|
                0 <= i < vs.len() implies self.entity_map().contains_key(#[trigger] vs[i].id)
                    && self.entity_map()[vs[i].id] == vs[i] && vs[i].area == area@ by {
                assert(vs[i] == entity_view(*out@[i]));
            }
        }
        out
    }

    /// Spawn in `area_name` the entities that the choice `c` picks: the
    /// chosen monsters of the area's level in order, then the NPC, then the
    /// item.  Nothing happens when no area has that name.
    pub fn populate_area_with(&mut self, area_name: &str, c: &PopulateChoice)
        requires
            old(self).wf(),
            c.in_range(),
            old(self).next_id_view() + c.monsters@.len() + 2 <= u64::MAX,
        ensures
            final(self).wf(),
            final(self).same_except_entities(old(self)),
            populated(old(self).entity_map(), old(self).next_id_view() as int, area_name@, old(self).areas@, final(self).entity_map(), final(self).next_id_view() as int, Some(*c)),
    {
        let level = match self.find_area(area_name) {
            Some(a) => a.enemy_level,
            None => return,
        };
        let ghost m0 = self.entity_map();
        let ghost start = self.next_id as int;
        let ghost news = populate_spawns(level as nat, *c);
        let monsters = generate_monsters(level);
        let mut k: usize = 0;
        let ghost ms = news.take(c.monsters@.len() as int);
        assert(news.take(0) =~= Seq::<Spawn>::empty());
        while k < c.monsters.len()
            invariant
                self.wf(),
                self.same_except_entities(old(self)),
                c.in_range(),
                k <= c.monsters@.len(),
                start + c.monsters@.len() + 2 <= u64::MAX,
                self.next_id == start + k,
                news == populate_spawns(level as nat, *c),
                monsters@.len() == 5,
                forall|i: int| 0 <= i < 5 ==> {
                    let v = monster_view(#[trigger] monsters@[i]);
                    let w = monsters_spec(level as nat)[i];
                    v.0 == w.0 && v.1 == stat_keys() && v.2 == w.1
                },
                self.entity_map() == spawned_map(m0, start, area_name@, news.take(k as int)),
            decreases c.monsters@.len() - k,
        {
            let mi = c.monsters[k];
            let ghost mv = monster_view(monsters@[mi as int]);
            let stats = &monsters[mi].1;
            let mut props: Vec<(&str, Value)> = Vec::new();
            let mut j: usize = 0;
            while j < stats.len()
                invariant
                    j <= stats@.len(),
                    stats@.len() == 6,
                    mv.1 == stats@.map_values(|p: (&'static str, i64)| p.0@),
                    mv.2 == stats@.map_values(|p: (&'static str, i64)| p.1 as int),
                    prop_pairs(props@) == Seq::new(j as nat, |t: int| (mv.1[t], ValueView::Int(mv.2[t] as i64))),
                decreases stats@.len() - j,
            {
                let (key, val) = stats[j];
                let ghost prevp = props@;
                props.push((key, Value::Int(val)));
                assert(props@ =~= prevp.push((key, Value::Int(val))));
                assert(mv.1[j as int] == key@);
                assert(mv.2[j as int] == val as int);
                assert(prop_pairs(props@) =~= prop_pairs(prevp).push((key@, ValueView::Int(val))));
                assert((mv.2[j as int] as i64) == val);
                assert(prop_pairs(props@) =~= Seq::new((j + 1) as nat, |t: int| (mv.1[t], ValueView::Int(mv.2[t] as i64))));
                j = j + 1;
            }
            proof {
                assert(news[k as int] == (EntityKind::Monster, monsters_spec(level as nat)[mi as int].0, monster_props(monsters_spec(level as nat)[mi as int].1)));
                assert(prop_pairs(props@) =~= Seq::new(6, |t: int| (stat_keys()[t], ValueView::Int(monsters_spec(level as nat)[mi as int].1[t] as i64))));
            }
            self.spawn_entity(EntityKind::Monster, monsters[mi].0.as_str(), area_name, props);
            proof {
                lemma_spawned_step(m0, start, area_name@, news, k as int);
            }
            k = k + 1;
        }
        let ghost nm = c.monsters@.len() as int;
        let ghost kk: int = nm;
        match c.npc {
            Some(n) => {
                let (nname, dialogue) = if n == 0 {
                    ("老者", "欢迎来到这片土地，冒险者。小心前方的怪物。")
                } else if n == 1 {
                    ("旅行商人", "我这里有好东西卖，不过你现在还买不起。")
                } else {
                    ("隐士", "真正的力量不在于攻击，而在于知道何时该撤退。")
                };
                let mut props: Vec<(&str, Value)> = Vec::new();
                props.push(("dialogue", Value::Str(String::from_str(dialogue))));
                proof {
                    reveal_with_fuel(pairs_map, 2);
                    assert(prop_pairs(props@) =~= seq![("dialogue"@, ValueView::Str(dialogue@))]);
                    assert(pairs_map(prop_pairs(props@)) =~= Map::empty().insert("dialogue"@, ValueView::Str(npc_dialogues()[n as int])));
                    assert(news[nm] == (EntityKind::Npc, npc_names()[n as int], Map::empty().insert("dialogue"@, ValueView::Str(npc_dialogues()[n as int]))));
                    assert(nname@ == npc_names()[n as int]);
                }
                self.spawn_entity(EntityKind::Npc, nname, area_name, props);
                proof {
                    lemma_spawned_step(m0, start, area_name@, news, nm);
                    kk = nm + 1;
                }
            },
            None => {},
        }
        match c.item {
            Some(t) => {
                let (iname, gold) = if t == 0 {
                    ("草药", 15u64)
                } else if t == 1 {
                    ("旧剑", 20u64)
                } else if t == 2 {
                    ("皮靴", 12u64)
                } else if t == 3 {
                    ("魔法卷轴", 25u64)
                } else {
                    ("盾牌碎片", 18u64)
                };
                let mut desc = String::from_str("一个");
                desc.append(iname);
                desc.append("，价值");
                push_dec(&mut desc, gold);
                desc.append("金币。");
                let mut props: Vec<(&str, Value)> = Vec::new();
                props.push(("gold_value", Value::Int(gold as i64)));
                props.push(("description", Value::Str(desc)));
                proof {
                    reveal_with_fuel(pairs_map, 3);
                    assert(iname@ == loot_items()[t as int].0);
                    assert(gold == loot_items()[t as int].1);
                    assert(prop_pairs(props@) =~= seq![("gold_value"@, ValueView::Int(gold as i64)), ("description"@, ValueView::Str(desc@))]);
                    assert(news[kk] == news.last());
                }
                self.spawn_entity(EntityKind::Item, iname, area_name, props);
                proof {
                    lemma_spawned_step(m0, start, area_name@, news, kk);
                    kk = kk + 1;
                }
            },
            None => {},
        }
        assert(news.take(kk) =~= news);
    }

    /// Populate an area with random monsters, possibly an NPC and possibly
    /// an item: two or three distinct monsters of the area's level, an NPC
    /// with probability 1/2 and an item with probability 2/5.
    pub fn populate_area(&mut self, area_name: &str)
        requires
            old(self).wf(),
            old(self).next_id_view() + 5 <= u64::MAX,
        ensures
            final(self).wf(),
            final(self).same_except_entities(old(self)),
            exists|c: Option<PopulateChoice>|
                (c matches Some(ch) ==> ch.drawable()) && populated(
                    old(self).entity_map(),
                    old(self).next_id_view() as int,
                    area_name@,
                    old(self).areas@,
                    final(self).entity_map(),
                    final(self).next_id_view() as int,
                    c,
                ),
    {
        if self.find_area(area_name).is_none() {
            assert(populated(self.entity_map(), self.next_id as int, area_name@, self.areas@, self.entity_map(), self.next_id as int, None));
            return;
        }
        let count = random_usize_in(2, 3);
        let mut indices: Vec<usize> = vec![0, 1, 2, 3, 4];
        let mut i: usize = 4;
        while i >= 1
            invariant
                i <= 4,
                indices@.len() == 5,
                forall|a: int| 0 <= a < 5 ==> indices@[a] < 5,
                forall|a: int, b: int| 0 <= a < b < 5 ==> indices@[a] != indices@[b],
            decreases i,
        {
            let j = random_usize_in(0, i);
            let x = indices[i];
            let y = indices[j];
            let ghost before = indices@;
            indices.set(i, y);
            indices.set(j, x);
            assert forall|a: int, b: int| 0 <= a < b < 5 implies indices@[a] != indices@[b] by {
                let a0 = if a == i { j as int } else if a == j { i as int } else { a };
                let b0 = if b == i { j as int } else if b == j { i as int } else { b };
                assert(indices@[a] == before[a0]);
                assert(indices@[b] == before[b0]);
            }
            i = i - 1;
        }
        let mut chosen: Vec<usize> = Vec::new();
        let mut k: usize = 0;
        while k < count
            invariant
                k <= count <= 3,
                indices@.len() == 5,
                chosen@ == indices@.take(k as int),
            decreases count - k,
        {
            chosen.push(indices[k]);
            assert(chosen@ =~= indices@.take(k + 1));
            k = k + 1;
        }
        let npc = if random_ratio(1, 2) {
            Some(random_usize_in(0, 2))
        } else {
            None
        };
        let item = if random_ratio(2, 5) {
            Some(random_usize_in(0, 4))
        } else {
            None
        };
        let c = PopulateChoice { monsters: chosen, npc, item };
        assert(c.drawable());
        self.populate_area_with(area_name, &c);
        assert(Some(c) matches Some(ch) ==> ch.drawable());
    }

    /// Move the player to a new area.  The farm is always open; another area
    /// must exist and the player's level must reach its requirement.
    /// Entering costs the area's exploration HP when the player has more
    /// than that, and an area without entities is populated.
    pub fn move_player(&mut self, target: &str) -> (r: Result<(), String>)
        requires
            old(self).wf(),
            old(self).next_id_view() + 5 <= u64::MAX,
        ensures
            final(self).wf(),
            final(self).areas == old(self).areas,
            final(self).farm == old(self).farm,
            final(self).crop_types == old(self).crop_types,
            move_outcome(*old(self), *final(self), target@, unit_result(r)),
    {
        if str_eq(target, FARM_AREA) {
            self.player_area = String::from_str(target);
            return Ok(());
        }
        let (level_req, aname, cost) = match self.find_area(target) {
            Some(a) => (a.level_req, a.name.clone(), a.explore_cost_hp),
            None => {
                let mut msg = String::from_str("未知区域：");
                msg.append(target);
                return Err(msg);
            },
        };
        if self.player.level < level_req {
            let mut msg = String::from_str("等级不足！需要 Lv.");
            push_dec(&mut msg, level_req as u64);
            msg.append(" 才能进入 ");
            msg.append(aname.as_str());
            msg.append("（当前 Lv.");
            push_dec(&mut msg, self.player.level as u64);
            msg.append("）");
            return Err(msg);
        }
        if cost > 0 && self.player.hp > cost {
            self.player.take_damage(cost);
        }
        self.player_area = String::from_str(target);
        let mut has_entities = false;
        let mut i: usize = 0;
        while i < self.entities.len() && !has_entities
            invariant
                i <= self.entities@.len(),
                has_entities ==> i < self.entities@.len() && self.entities@[i as int].area@ == target@,
                !has_entities ==> forall|j: int| 0 <= j < i ==> self.entities@[j].area@ != target@,
            decreases self.entities@.len() - i + if has_entities { 0int } else { 1int },
        {
            if str_eq(self.entities[i].area.as_str(), target) {
                has_entities = true;
            } else {
                i = i + 1;
            }
        }
        proof {
            lemma_entity_of(self.entities@);
            let es = self.entities@;
            if has_entities {
                assert(entity_of(es, es[i as int].id) == Some(es[i as int]));
                assert(self.entity_map().contains_key(es[i as int].id));
            } else {
                assert forall|id: EntityId| #[trigger] self.entity_map().contains_key(id) implies self.entity_map()[id].area != target@ by {
                    if forall|j: int| 0 <= j < es.len() ==> es[j].id != id {
                        assert(entity_of(es, id) == None::<Entity>);
                    } else {
                        let j = choose|j: int| 0 <= j < es.len() && es[j].id == id;
                        assert(entity_of(es, es[j].id) == Some(es[j]));
                    }
                }
            }
        }
        if !has_entities {
            self.populate_area(target);
        }
        Ok(())
    }

    /// Create a new world with the given configuration: a farm of four plots
    /// with one idle animal per type, and the start area populated.
    pub fn new(
        player: Player,
        start_area: &str,
        areas: Vec<Area>,
        crop_types: Vec<CropType>,
        animal_types: Vec<AnimalType>,
    ) -> (r: World)
        ensures
            r.wf(),
            r.player == player,
            r.player_area@ == start_area@,
            r.areas == areas,
            r.crop_types == crop_types,
            r.farm.plots@ == Seq::new(4, |i: int| None::<Crop>),
            r.farm.animals@ == animal_types@.map_values(|t: AnimalType| idle_animal(t)),
            exists|c: Option<PopulateChoice>|
                (c matches Some(ch) ==> ch.drawable()) && populated(
                    Map::empty(),
                    1,
                    start_area@,
                    areas@,
                    r.entity_map(),
                    r.next_id_view() as int,
                    c,
                ),
    {
        let farm = Farm::from_types(animal_types.as_slice(), 4);
        let mut world = World {
            player,
            player_area: String::from_str(start_area),
            areas,
            entities: Vec::new(),
            farm,
            crop_types,
            next_id: 1,
        };
        assert(world.entity_map() =~= Map::<EntityId, EntityView>::empty());
        world.populate_area(start_area);
        world
    }
}


/// Taking an entity out of the world and putting it back leaves the
/// world's entities as they were.
pub proof fn law_take_then_insert(w0: World, w1: World, w2: World, id: EntityId, e: Entity)
    requires
        w0.entity_map().contains_key(id),
        entity_view(e) == w0.entity_map()[id],
        e.id == id,
        w1.entity_map() == w0.entity_map().remove(id),
        w2.entity_map() == w1.entity_map().insert(e.id, entity_view(e)),
    ensures
        w2.entity_map() == w0.entity_map(),
{
    assert(w2.entity_map() =~= w0.entity_map());
}

/// A spawned entity can be found again: it is in the world under the id
/// that spawning returned, in the area, kind and name it was given.
pub proof fn law_spawn_then_lookup(w0: World, w1: World, kind: EntityKind, name: Seq<char>, area: Seq<char>, props: Map<Seq<char>, ValueView>, id: EntityId)
    requires
        id == w0.next_id,
        w1.entity_map() == w0.entity_map().insert(id, EntityView { id, kind, name, area, props }),
    ensures
        w1.entity_map().contains_key(id),
        w1.entity_map()[id].area == area,
        w1.entity_map()[id].name == name,
        w1.entity_map()[id].kind == kind,
        w1.entity_map()[id].props == props,
        forall|k: EntityId| k != id ==> w1.entity_map().contains_key(k) == w0.entity_map().contains_key(k),
{
}
} // verus!
