//! Entities: every game object (monster, NPC, item, crop, animal) with a
//! unique id and a bag of named properties.  The entity is the true state;
//! the virtual file system only presents a view of it.

use vstd::prelude::*;
use vstd::string::*;
use crate::actions::{is_sorted_listing, yaml_text};
use crate::text::{chars_of, dec_int, eq_vec, pair_views, push_int, sort_pairs, sorted_by_key, string_of};

verus! {

/// Unique numeric handle for an entity.
pub type EntityId = u64;

/// What kind of thing an entity represents.
#[derive(Debug, Clone, PartialEq, Eq, Structural)]
pub enum EntityKind {
    Monster,
    Npc,
    Item,
    Crop,
    Animal,
}

impl EntityKind {
    /// The kind's display name.
    pub open spec fn label_spec(&self) -> Seq<char> {
        match self {
            EntityKind::Monster => "怪物"@,
            EntityKind::Npc => "NPC"@,
            EntityKind::Item => "物品"@,
            EntityKind::Crop => "作物"@,
            EntityKind::Animal => "动物"@,
        }
    }

    /// The kind's display name (what `Display` prints).
    pub fn label(&self) -> (r: &'static str)
        ensures
            r@ == self.label_spec(),
    {
        match self {
            EntityKind::Monster => "怪物",
            EntityKind::Npc => "NPC",
            EntityKind::Item => "物品",
            EntityKind::Crop => "作物",
            EntityKind::Animal => "动物",
        }
    }

    /// A copy of the kind.
    pub fn copy(&self) -> (r: EntityKind)
        ensures
            r == *self,
    {
        match self {
            EntityKind::Monster => EntityKind::Monster,
            EntityKind::Npc => EntityKind::Npc,
            EntityKind::Item => EntityKind::Item,
            EntityKind::Crop => EntityKind::Crop,
            EntityKind::Animal => EntityKind::Animal,
        }
    }
}

/// A floating-point property: its IEEE-754 bits and its text with one
/// decimal (as `{:.1}` prints it), both fixed when the value is made.
#[derive(Debug, Clone)]
pub struct FloatValue {
    pub bits: u64,
    pub text: String,
}

/// A dynamically-typed value stored in entity state.
#[derive(Debug, Clone)]
pub enum Value {
    Int(i64),
    Float(FloatValue),
    Str(String),
    Bool(bool),
}

/// The text of a value (what `Display` prints): integers in decimal, floats
/// with one decimal, strings as they are, booleans as 是 / 否.
pub open spec fn value_text(v: Value) -> Seq<char> {
    match v {
        Value::Int(i) => dec_int(i as int),
        Value::Float(f) => f.text@,
        Value::Str(s) => s@,
        Value::Bool(b) => if b {
            "是"@
        } else {
            "否"@
        },
    }
}

impl Value {
    /// The text of the value.
    pub fn to_text(&self) -> (r: String)
        ensures
            r@ == value_text(*self),
    {
        match self {
            Value::Int(i) => {
                let mut s = String::new();
                push_int(&mut s, *i);
                s
            },
            Value::Float(f) => f.text.clone(),
            Value::Str(s) => s.clone(),
            Value::Bool(b) => if *b {
                String::from_str("是")
            } else {
                String::from_str("否")
            },
        }
    }

    /// A copy of the value.
    pub fn copy(&self) -> (r: Value)
        ensures
            r == *self,
    {
        match self {
            Value::Int(i) => Value::Int(*i),
            Value::Float(f) => Value::Float(FloatValue { bits: f.bits, text: f.text.clone() }),
            Value::Str(s) => Value::Str(s.clone()),
            Value::Bool(b) => Value::Bool(*b),
        }
    }
}

/// A value as plain data: a float by its bits and its text.
pub enum ValueView {
    Int(i64),
    Float(u64, Seq<char>),
    Str(Seq<char>),
    Bool(bool),
}

/// The plain data of a value.
pub open spec fn value_view(v: Value) -> ValueView {
    match v {
        Value::Int(i) => ValueView::Int(i),
        Value::Float(f) => ValueView::Float(f.bits, f.text@),
        Value::Str(s) => ValueView::Str(s@),
        Value::Bool(b) => ValueView::Bool(b),
    }
}

/// The map built by inserting `ps` in order (a later key replaces an
/// earlier one).
pub open spec fn pairs_map(ps: Seq<(Seq<char>, ValueView)>) -> Map<Seq<char>, ValueView>
    decreases ps.len(),
{
    if ps.len() == 0 {
        Map::empty()
    } else {
        pairs_map(ps.drop_last()).insert(ps.last().0, ps.last().1)
    }
}

/// The pairs of a property argument list, as plain data.
pub open spec fn prop_pairs(props: Seq<(&str, Value)>) -> Seq<(Seq<char>, ValueView)> {
    props.map_values(|p: (&str, Value)| (p.0@, value_view(p.1)))
}

/// The properties of an entity as a map.
pub open spec fn props_view(st: Seq<(String, Value)>) -> Map<Seq<char>, ValueView> {
    Map::new(
        |k: Seq<char>| state_get(st, k) is Some,
        |k: Seq<char>| value_view(state_get(st, k)->0),
    )
}

/// An entity as plain data.
pub struct EntityView {
    pub id: EntityId,
    pub kind: EntityKind,
    pub name: Seq<char>,
    pub area: Seq<char>,
    pub props: Map<Seq<char>, ValueView>,
}

/// The plain data of an entity.
pub open spec fn entity_view(e: Entity) -> EntityView {
    EntityView { id: e.id, kind: e.kind, name: e.name@, area: e.area@, props: props_view(e.state@) }
}

/// A game-world entity.
#[derive(Debug, Clone)]
pub struct Entity {
    pub id: EntityId,
    pub kind: EntityKind,
    pub name: String,
    /// Which area this entity currently resides in.
    pub area: String,
    /// Named properties (HP, attack, description, …); each key once.
    pub state: Vec<(String, Value)>,
}

/// The value under key `k`, if any.
pub open spec fn state_get(st: Seq<(String, Value)>, k: Seq<char>) -> Option<Value>
    decreases st.len(),
{
    if st.len() == 0 {
        None
    } else if st[0].0@ == k {
        Some(st[0].1)
    } else {
        state_get(st.drop_first(), k)
    }
}

/// No key occurs twice in a property list.
pub open spec fn state_wf(st: Seq<(String, Value)>) -> bool {
    forall|i: int, j: int| 0 <= i < j < st.len() ==> st[i].0@ != st[j].0@
}

fn find_key(st: &Vec<(String, Value)>, key: &str) -> (r: Option<usize>)
    ensures
        match r {
            Some(i) => i < st@.len() && st@[i as int].0@ == key@ && state_get(st@, key@) == Some(
                st@[i as int].1,
            ) && forall|j: int| 0 <= j < i ==> st@[j].0@ != key@,
            None => state_get(st@, key@).is_none() && forall|j: int|
                0 <= j < st@.len() ==> st@[j].0@ != key@,
        },
{
    let kv = chars_of(key);
    let mut i: usize = 0;
    assert(st@.skip(0) =~= st@);
    while i < st.len()
        invariant
            kv@ == key@,
            i <= st@.len(),
            state_get(st@, key@) == state_get(st@.skip(i as int), key@),
            forall|j: int| 0 <= j < i ==> st@[j].0@ != key@,
        decreases st@.len() - i,
    {
        let c = chars_of(st[i].0.as_str());
        assert(st@.skip(i as int)[0] == st@[i as int]);
        if eq_vec(&c, &kv) {
            return Some(i);
        }
        assert(st@.skip(i as int).drop_first() =~= st@.skip(i + 1));
        i = i + 1;
    }
    None
}

/// Insert or replace the value under `key`.
pub fn state_insert(st: &mut Vec<(String, Value)>, key: &str, v: Value)
    requires
        state_wf(old(st)@),
    ensures
        state_wf(final(st)@),
        state_get(final(st)@, key@) == Some(v),
        forall|k: Seq<char>| k != key@ ==> state_get(final(st)@, k) == state_get(old(st)@, k),
        props_view(final(st)@) == props_view(old(st)@).insert(key@, value_view(v)),
{
    let ghost old_st = st@;
    match find_key(st, key) {
        Some(i) => {
            let k = st[i].0.clone();
            st.set(i, (k, v));
            proof {
                lemma_state_get_update(old(st)@, i as int, v);
            }
        },
        None => {
            let ghost prev = st@;
            let e = (String::from_str(key), v);
            proof {
                lemma_state_get_push(prev, e);
            }
            st.push(e);
        },
    }
    assert(props_view(st@) =~= props_view(old_st).insert(key@, value_view(v)));
}

proof fn lemma_state_get_update(st: Seq<(String, Value)>, i: int, v: Value)
    requires
        state_wf(st),
        0 <= i < st.len(),
    ensures
        state_wf(st.update(i, (st[i].0, v))),
        forall|k: Seq<char>|
            #[trigger] state_get(st.update(i, (st[i].0, v)), k) == if k == st[i].0@ {
                Some(v)
            } else {
                state_get(st, k)
            },
    decreases st.len(),
{
    let nst = st.update(i, (st[i].0, v));
    assert forall|a: int, b: int| 0 <= a < b < nst.len() implies nst[a].0@ != nst[b].0@ by {
        assert(nst[a].0 == st[a].0);
        assert(nst[b].0 == st[b].0);
    }
    if i == 0 {
        assert(nst.drop_first() =~= st.drop_first());
        assert forall|k: Seq<char>|
            #[trigger] state_get(nst, k) == if k == st[i].0@ {
                Some(v)
            } else {
                state_get(st, k)
            } by {
            assert(nst[0] == (st[0].0, v));
        }
    } else {
        let t = st.drop_first();
        assert(nst.drop_first() =~= t.update(i - 1, (t[i - 1].0, v)));
        assert(state_wf(t)) by {
            assert forall|a: int, b: int| 0 <= a < b < t.len() implies t[a].0@ != t[b].0@ by {
                assert(t[a] == st[a + 1]);
                assert(t[b] == st[b + 1]);
            }
        }
        lemma_state_get_update(t, i - 1, v);
        assert(t[i - 1] == st[i]);
        assert(st[0].0@ != st[i].0@);
        assert forall|k: Seq<char>|
            #[trigger] state_get(nst, k) == if k == st[i].0@ {
                Some(v)
            } else {
                state_get(st, k)
            } by {
            assert(nst[0] == st[0]);
            assert(state_get(nst.drop_first(), k) == state_get(t.update(i - 1, (t[i - 1].0, v)), k));
        }
    }
}

proof fn lemma_state_get_push(st: Seq<(String, Value)>, e: (String, Value))
    requires
        state_wf(st),
        forall|j: int| 0 <= j < st.len() ==> st[j].0@ != e.0@,
    ensures
        state_wf(st.push(e)),
        forall|k: Seq<char>|
            #[trigger] state_get(st.push(e), k) == if k == e.0@ {
                Some(e.1)
            } else {
                state_get(st, k)
            },
    decreases st.len(),
{
    let p = st.push(e);
    assert forall|a: int, b: int| 0 <= a < b < p.len() implies p[a].0@ != p[b].0@ by {
        if b == st.len() {
            assert(p[a] == st[a]);
        } else {
            assert(p[a] == st[a]);
            assert(p[b] == st[b]);
        }
    }
    if st.len() == 0 {
        assert(p.drop_first() =~= Seq::<(String, Value)>::empty());
        assert forall|k: Seq<char>|
            #[trigger] state_get(p, k) == if k == e.0@ {
                Some(e.1)
            } else {
                state_get(st, k)
            } by {
            assert(p[0] == e);
            assert(state_get(p.drop_first(), k) == None::<Value>);
        }
    } else {
        let t = st.drop_first();
        assert(state_wf(t)) by {
            assert forall|a: int, b: int| 0 <= a < b < t.len() implies t[a].0@ != t[b].0@ by {
                assert(t[a] == st[a + 1]);
                assert(t[b] == st[b + 1]);
            }
        }
        assert forall|j: int| 0 <= j < t.len() implies t[j].0@ != e.0@ by {
            assert(t[j] == st[j + 1]);
        }
        lemma_state_get_push(t, e);
        assert(p.drop_first() =~= t.push(e));
        assert(p[0] == st[0]);
        assert forall|k: Seq<char>|
            #[trigger] state_get(p, k) == if k == e.0@ {
                Some(e.1)
            } else {
                state_get(st, k)
            } by {
            assert(state_get(p.drop_first(), k) == state_get(t.push(e), k));
        }
    }
}

/// With distinct keys, the value under a key is the one stored with it.
pub proof fn lemma_state_get(st: Seq<(String, Value)>)
    requires
        state_wf(st),
    ensures
        forall|i: int| 0 <= i < st.len() ==> state_get(st, #[trigger] st[i].0@) == Some(st[i].1),
        forall|k: Seq<char>|
            (forall|i: int| 0 <= i < st.len() ==> st[i].0@ != k) ==> #[trigger] state_get(st, k)
                == None::<Value>,
    decreases st.len(),
{
    if st.len() > 0 {
        let t = st.drop_first();
        assert(state_wf(t)) by {
            assert forall|a: int, b: int| 0 <= a < b < t.len() implies t[a].0@ != t[b].0@ by {
                assert(t[a] == st[a + 1]);
                assert(t[b] == st[b + 1]);
            }
        }
        lemma_state_get(t);
        assert forall|i: int| 0 <= i < st.len() implies state_get(st, #[trigger] st[i].0@) == Some(
            st[i].1,
        ) by {
            if i > 0 {
                assert(t[i - 1] == st[i]);
                assert(st[0].0@ != st[i].0@);
            }
        }
        assert forall|k: Seq<char>|
            (forall|i: int| 0 <= i < st.len() ==> st[i].0@ != k) implies #[trigger] state_get(st, k)
                == None::<Value> by {
            assert(st[0].0@ != k);
            assert forall|i: int| 0 <= i < t.len() implies t[i].0@ != k by {
                assert(t[i] == st[i + 1]);
            }
            assert(state_get(t, k) == None::<Value>);
        }
    }
}

/// The pairs of a property list, as plain data.
pub open spec fn state_pairs(st: Seq<(String, Value)>) -> Seq<(Seq<char>, ValueView)> {
    st.map_values(|e: (String, Value)| (e.0@, value_view(e.1)))
}

/// With distinct keys, inserting the pairs in order gives the property map.
pub proof fn lemma_pairs_map_state(st: Seq<(String, Value)>)
    requires
        state_wf(st),
    ensures
        pairs_map(state_pairs(st)) == props_view(st),
    decreases st.len(),
{
    if st.len() == 0 {
        assert(props_view(st) =~= Map::<Seq<char>, ValueView>::empty());
    } else {
        let t = st.drop_last();
        let e = st.last();
        assert(state_wf(t)) by {
            assert forall|a: int, b: int| 0 <= a < b < t.len() implies t[a].0@ != t[b].0@ by {
                assert(t[a] == st[a] && t[b] == st[b]);
            }
        }
        assert forall|j: int| 0 <= j < t.len() implies t[j].0@ != e.0@ by {
            assert(t[j] == st[j]);
        }
        lemma_pairs_map_state(t);
        lemma_state_get_push(t, e);
        assert(t.push(e) =~= st);
        assert(state_pairs(st).drop_last() =~= state_pairs(t));
        assert(props_view(st) =~= props_view(t).insert(e.0@, value_view(e.1)));
    }
}

/// The integer property `k`, or 0 if missing or of another type.
pub open spec fn int_prop(props: Map<Seq<char>, ValueView>, k: Seq<char>) -> i64 {
    if props.contains_key(k) {
        match props[k] {
            ValueView::Int(v) => v,
            _ => 0,
        }
    } else {
        0
    }
}

/// The string property `k`, or the empty string if missing or of another
/// type.
pub open spec fn str_prop(props: Map<Seq<char>, ValueView>, k: Seq<char>) -> Seq<char> {
    if props.contains_key(k) {
        match props[k] {
            ValueView::Str(v) => v,
            _ => Seq::empty(),
        }
    } else {
        Seq::empty()
    }
}

/// The bool property `k`, or `false` if missing or of another type.
pub open spec fn bool_prop(props: Map<Seq<char>, ValueView>, k: Seq<char>) -> bool {
    if props.contains_key(k) {
        match props[k] {
            ValueView::Bool(v) => v,
            _ => false,
        }
    } else {
        false
    }
}

/// Reading a property back after setting it gives the value that was set,
/// and setting a property leaves every other property as it was.
pub proof fn law_set_then_get(e0: EntityView, e1: EntityView, k: Seq<char>, v: ValueView, other: Seq<char>)
    requires
        e1 == (EntityView { props: e0.props.insert(k, v), ..e0 }),
        other != k,
    ensures
        v matches ValueView::Int(i) ==> int_prop(e1.props, k) == i,
        v matches ValueView::Str(t) ==> str_prop(e1.props, k) == t,
        v matches ValueView::Bool(b) ==> bool_prop(e1.props, k) == b,
        e1.props.remove(k) == e0.props.remove(k),
        int_prop(e1.props, other) == int_prop(e0.props, other),
        str_prop(e1.props, other) == str_prop(e0.props, other),
        bool_prop(e1.props, other) == bool_prop(e0.props, other),
{
    assert(e1.props.remove(k) =~= e0.props.remove(k));
}

/// The text of a value given as plain data.
pub open spec fn view_text(v: ValueView) -> Seq<char> {
    match v {
        ValueView::Int(i) => dec_int(i as int),
        ValueView::Float(_, t) => t,
        ValueView::Str(s) => s,
        ValueView::Bool(b) => if b {
            "是"@
        } else {
            "否"@
        },
    }
}

/// `t` is the file content of the entity `v`: `[kind] name`, then one
/// `key: value` line per property in increasing key order.
pub open spec fn entity_display(v: EntityView, t: Seq<char>) -> bool {
    exists|l: Seq<(Seq<char>, Seq<char>)>|
        {
            &&& sorted_by_key(l)
            &&& forall|e: (Seq<char>, Seq<char>)|
                #[trigger] l.contains(e) <==> (v.props.contains_key(e.0) && view_text(v.props[e.0]) == e.1)
            &&& t == "["@ + v.kind.label_spec() + "] "@ + v.name + "\n"@ + yaml_text(l)
        }
}

/// The property lines of an entity: key and value text for each property.
pub open spec fn prop_lines(st: Seq<(String, Value)>) -> Seq<(Seq<char>, Seq<char>)> {
    st.map_values(|e: (String, Value)| (e.0@, value_text(e.1)))
}

impl Entity {
    /// Well-formedness: each property key once.
    pub open spec fn wf(&self) -> bool {
        state_wf(self.state@)
    }

    /// Read an integer property, returning 0 if missing or of another type.
    pub fn get_int(&self, key: &str) -> (r: i64)
        ensures
            r == match state_get(self.state@, key@) {
                Some(Value::Int(v)) => v,
                _ => 0,
            },
            r == int_prop(props_view(self.state@), key@),
    {
        match find_key(&self.state, key) {
            Some(i) => match &self.state[i].1 {
                Value::Int(v) => *v,
                _ => 0,
            },
            None => 0,
        }
    }

    /// Read a string property, returning `""` if missing or of another type.
    pub fn get_str(&self, key: &str) -> (r: &str)
        ensures
            r@ == match state_get(self.state@, key@) {
                Some(Value::Str(v)) => v@,
                _ => Seq::<char>::empty(),
            },
            r@ == str_prop(props_view(self.state@), key@),
    {
        match find_key(&self.state, key) {
            Some(i) => match &self.state[i].1 {
                Value::Str(v) => v.as_str(),
                _ => {
                    proof {
                        reveal_strlit("");
                    }
                    ""
                },
            },
            None => {
                proof {
                    reveal_strlit("");
                }
                ""
            },
        }
    }

    /// Read a bool property, returning `false` if missing or of another type.
    pub fn get_bool(&self, key: &str) -> (r: bool)
        ensures
            r == match state_get(self.state@, key@) {
                Some(Value::Bool(v)) => v,
                _ => false,
            },
            r == bool_prop(props_view(self.state@), key@),
    {
        match find_key(&self.state, key) {
            Some(i) => match &self.state[i].1 {
                Value::Bool(v) => *v,
                _ => false,
            },
            None => false,
        }
    }

    /// Set an integer property.
    pub fn set_int(&mut self, key: &str, value: i64)
        requires
            old(self).wf(),
        ensures
            final(self).wf(),
            entity_view(*final(self)) == (EntityView {
                props: entity_view(*old(self)).props.insert(key@, ValueView::Int(value)),
                ..entity_view(*old(self))
            }),
    {
        state_insert(&mut self.state, key, Value::Int(value));
    }

    /// Set a string property.
    pub fn set_str(&mut self, key: &str, value: &str)
        requires
            old(self).wf(),
        ensures
            final(self).wf(),
            entity_view(*final(self)) == (EntityView {
                props: entity_view(*old(self)).props.insert(key@, ValueView::Str(value@)),
                ..entity_view(*old(self))
            }),
    {
        state_insert(&mut self.state, key, Value::Str(String::from_str(value)));
    }

    /// Set a bool property.
    pub fn set_bool(&mut self, key: &str, value: bool)
        requires
            old(self).wf(),
        ensures
            final(self).wf(),
            entity_view(*final(self)) == (EntityView {
                props: entity_view(*old(self)).props.insert(key@, ValueView::Bool(value)),
                ..entity_view(*old(self))
            }),
    {
        state_insert(&mut self.state, key, Value::Bool(value));
    }

    /// The entity's file content: `[kind] name`, then one `key: value` line
    /// per property in increasing key order.
    pub fn to_display(&self) -> (r: String)
        requires
            self.wf(),
        ensures
            entity_display(entity_view(*self), r@),
    {
        let n = self.state.len();
        let mut cv: Vec<(Vec<char>, Vec<char>)> = Vec::new();
        let mut i: usize = 0;
        let ghost pl = prop_lines(self.state@);
        while i < n
            invariant
                n == self.state@.len(),
                pl == prop_lines(self.state@),
                i <= n,
                pair_views(cv@) == pl.take(i as int),
            decreases n - i,
        {
            let a = chars_of(self.state[i].0.as_str());
            let t = self.state[i].1.to_text();
            let b = chars_of(t.as_str());
            let ghost prev = cv@;
            cv.push((a, b));
            assert(pair_views(cv@) =~= pair_views(prev).push((a@, b@)));
            assert(pl[i as int] == (a@, b@));
            assert(pair_views(cv@) =~= pl.take(i + 1));
            i = i + 1;
        }
        assert(pl.take(n as int) =~= pl);
        let sorted = sort_pairs(cv);
        let ghost l = pair_views(sorted@);
        let mut out = String::from_str("[");
        out.append(self.kind.label());
        out.append("] ");
        out.append(self.name.as_str());
        out.append("\n");
        let ghost head = out@;
        let mut j: usize = 0;
        while j < sorted.len()
            invariant
                l == pair_views(sorted@),
                j <= sorted@.len(),
                out@ == head + yaml_text(l.take(j as int)),
            decreases sorted@.len() - j,
        {
            let k = string_of(&sorted[j].0);
            let v = string_of(&sorted[j].1);
            out.append(k.as_str());
            out.append(": ");
            out.append(v.as_str());
            out.append("\n");
            assert(l.take(j + 1).drop_last() =~= l.take(j as int));
            j = j + 1;
        }
        assert(l.take(sorted@.len() as int) =~= l);
        assert(is_sorted_listing(l, pl));
        proof {
            let st = self.state@;
            let v = entity_view(*self);
            lemma_state_get(st);
            assert forall|e: (Seq<char>, Seq<char>)|
                #[trigger] l.contains(e) <==> (v.props.contains_key(e.0) && view_text(v.props[e.0]) == e.1) by {
                if l.contains(e) {
                    assert(pl.contains(e));
                    let i = choose|i: int| 0 <= i < pl.len() && pl[i] == e;
                    assert(pl[i] == (st[i].0@, value_text(st[i].1)));
                    assert(state_get(st, st[i].0@) == Some(st[i].1));
                }
                if v.props.contains_key(e.0) && view_text(v.props[e.0]) == e.1 {
                    if forall|i: int| 0 <= i < st.len() ==> st[i].0@ != e.0 {
                        assert(state_get(st, e.0) == None::<Value>);
                    } else {
                        let i = choose|i: int| 0 <= i < st.len() && st[i].0@ == e.0;
                        assert(state_get(st, st[i].0@) == Some(st[i].1));
                        assert(pl[i] == e);
                        assert(pl.contains(e));
                    }
                }
            }
        }
        out
    }
}

} // verus!
