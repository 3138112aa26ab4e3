//! File-driven action system.
//!
//! An action map binds player-visible command names (possibly several
//! words) to built-in command strings such as `"cd $1"` or `"ls ."`.
//! `$1`, `$2`, … in a built-in string are replaced by the words that follow
//! the matched action name in the player's input.

use vstd::prelude::*;
use vstd::string::*;
use crate::text::{
    chars_of, dec_nat, eq_ignore_ascii_case, eq_ignore_case_vec, eq_pred, eq_vec, find_char_from,
    first_where, has_prefix, last_where, push_char, push_dec, replace_all, replace_chars, rfind_char,
    slice_vec, sort_pairs, sorted_by_key, starts_with_vec, string_of, trim, trim_vec, views, words,
    words_of, pair_views, is_ws, lemma_first_where_at, trim_end, trim_start,
};

verus! {

/// A parsed, executable built-in command.
#[derive(Debug, Clone)]
pub enum BuiltinCmd {
    /// `ls [path]` — list entities in the current area or a named area.
    Ls { path: Option<String> },
    /// `cd <path>` — change area; special values: `~` (home), `..` (back).
    Cd { path: String },
    /// `cat <file>` — read and display an entity file.
    Cat { file: String },
    /// `echo <content> > <file>` — write text content to a file in the area.
    EchoTo { content: String, file: String },
    /// `grep <pattern>` — search for entities/content matching a pattern.
    Grep { pattern: String },
    /// Open the farm sub-menu.
    Farm,
    /// Open the breed-animals sub-menu.
    Breed,
    /// Rest and heal.
    Rest,
    /// Show player status.
    Status,
    /// Save the game.
    Save,
    /// Quit the game.
    Quit,
}

/// The mathematical value of a [`BuiltinCmd`]: its strings as character sequences.
pub enum BuiltinModel {
    Ls { path: Option<Seq<char>> },
    Cd { path: Seq<char> },
    Cat { file: Seq<char> },
    EchoTo { content: Seq<char>, file: Seq<char> },
    Grep { pattern: Seq<char> },
    Farm,
    Breed,
    Rest,
    Status,
    Save,
    Quit,
}

impl View for BuiltinCmd {
    type V = BuiltinModel;

    open spec fn view(&self) -> BuiltinModel {
        match self {
            BuiltinCmd::Ls { path } => BuiltinModel::Ls {
                path: match path {
                    Some(p) => Some(p@),
                    None => None,
                },
            },
            BuiltinCmd::Cd { path } => BuiltinModel::Cd { path: path@ },
            BuiltinCmd::Cat { file } => BuiltinModel::Cat { file: file@ },
            BuiltinCmd::EchoTo { content, file } => BuiltinModel::EchoTo {
                content: content@,
                file: file@,
            },
            BuiltinCmd::Grep { pattern } => BuiltinModel::Grep { pattern: pattern@ },
            BuiltinCmd::Farm => BuiltinModel::Farm,
            BuiltinCmd::Breed => BuiltinModel::Breed,
            BuiltinCmd::Rest => BuiltinModel::Rest,
            BuiltinCmd::Status => BuiltinModel::Status,
            BuiltinCmd::Save => BuiltinModel::Save,
            BuiltinCmd::Quit => BuiltinModel::Quit,
        }
    }
}

/// The view of an optional built-in command.
pub open spec fn opt_cmd_view(c: Option<BuiltinCmd>) -> Option<BuiltinModel> {
    match c {
        Some(x) => Some(x@),
        None => None,
    }
}

/// First field of `s.splitn(3, ' ')`.
pub open spec fn space_field0(s: Seq<char>) -> Seq<char> {
    s.take(first_where(s, eq_pred(' ')) as int)
}

/// Second field of `s.splitn(3, ' ')`, if there is one.
pub open spec fn space_field1(s: Seq<char>) -> Option<Seq<char>> {
    let i = first_where(s, eq_pred(' '));
    if i >= s.len() {
        None
    } else {
        let rest = s.skip((i + 1) as int);
        Some(rest.take(first_where(rest, eq_pred(' ')) as int))
    }
}

/// What [`parse_builtin`] makes of a built-in command string.
pub open spec fn builtin_of(input: Seq<char>) -> Option<BuiltinModel> {
    let s = trim(input);
    let cmd = space_field0(s);
    let arg = space_field1(s);
    if s.len() == 0 {
        None
    } else if cmd == "ls"@ {
        Some(
            BuiltinModel::Ls {
                path: match arg {
                    Some(a) => if trim(a).len() == 0 || trim(a) == "."@ {
                        None
                    } else {
                        Some(trim(a))
                    },
                    None => None,
                },
            },
        )
    } else if cmd == "cd"@ {
        Some(
            BuiltinModel::Cd {
                path: match arg {
                    Some(a) => trim(a),
                    None => "~"@,
                },
            },
        )
    } else if cmd == "cat"@ {
        Some(
            BuiltinModel::Cat {
                file: match arg {
                    Some(a) => trim(a),
                    None => Seq::empty(),
                },
            },
        )
    } else if cmd == "echo"@ {
        let rest = s.skip("echo "@.len() as int);
        let p = last_where(rest, eq_pred('>'));
        if has_prefix(s, "echo "@) && p >= 0 {
            Some(BuiltinModel::EchoTo { content: trim(rest.take(p)), file: trim(rest.skip(p + 1)) })
        } else {
            None
        }
    } else if cmd == "grep"@ {
        Some(
            BuiltinModel::Grep {
                pattern: match arg {
                    Some(a) => trim(a),
                    None => Seq::empty(),
                },
            },
        )
    } else if cmd == "farm"@ {
        Some(BuiltinModel::Farm)
    } else if cmd == "breed"@ {
        Some(BuiltinModel::Breed)
    } else if cmd == "rest"@ {
        Some(BuiltinModel::Rest)
    } else if cmd == "status"@ {
        Some(BuiltinModel::Status)
    } else if cmd == "save"@ {
        Some(BuiltinModel::Save)
    } else if cmd == "quit"@ {
        Some(BuiltinModel::Quit)
    } else {
        None
    }
}

/// A single word without white space is its own trimmed form and its own
/// first field, with no second field.
proof fn lemma_single_word(w: Seq<char>)
    requires
        w.len() > 0,
        forall|j: int| 0 <= j < w.len() ==> !is_ws(#[trigger] w[j]),
    ensures
        trim(w) == w,
        space_field0(w) == w,
        space_field1(w) is None,
{
    assert(!is_ws(w[0]));
    assert(trim_start(w) == w);
    assert(!is_ws(w[w.len() - 1]));
    assert(trim_end(w) == w);
    assert forall|j: int| 0 <= j < w.len() implies !eq_pred(' ')(#[trigger] w[j]) by {
        assert(!is_ws(w[j]));
    }
    lemma_first_where_at(w, eq_pred(' '), w.len() as int);
    assert(w.take(w.len() as int) =~= w);
}

/// Each built-in command word without arguments parses to the command of
/// the same name: `farm`, `breed`, `rest`, `status`, `save`, `quit`.
pub proof fn law_builtin_words()
    ensures
        builtin_of("farm"@) matches Some(c) && c is Farm,
        builtin_of("breed"@) matches Some(c) && c is Breed,
        builtin_of("rest"@) matches Some(c) && c is Rest,
        builtin_of("status"@) matches Some(c) && c is Status,
        builtin_of("save"@) matches Some(c) && c is Save,
        builtin_of("quit"@) matches Some(c) && c is Quit,
{
    reveal_strlit("ls");
    reveal_strlit("cd");
    reveal_strlit("cat");
    reveal_strlit("echo");
    reveal_strlit("grep");
    reveal_strlit("farm");
    reveal_strlit("breed");
    reveal_strlit("rest");
    reveal_strlit("status");
    reveal_strlit("save");
    reveal_strlit("quit");
    lemma_single_word("farm"@);
    lemma_single_word("breed"@);
    lemma_single_word("rest"@);
    lemma_single_word("status"@);
    lemma_single_word("save"@);
    lemma_single_word("quit"@);
}

/// Whether the character vector `v` spells the literal `lit`.
fn is_lit(v: &Vec<char>, lit: &str) -> (r: bool)
    ensures
        r == (v@ == lit@),
{
    let l = chars_of(lit);
    eq_vec(v, &l)
}

/// Parse a built-in command string (after argument substitution) into a
/// [`BuiltinCmd`].  Returns `None` for unknown commands.
pub fn parse_builtin(input: &str) -> (r: Option<BuiltinCmd>)
    ensures
        opt_cmd_view(r) == builtin_of(input@),
{
    let raw = chars_of(input);
    let s = trim_vec(&raw);
    if s.len() == 0 {
        return None;
    }
    let i0 = find_char_from(&s, ' ', 0);
    assert(s@.skip(0) =~= s@);
    let cmd = slice_vec(&s, 0, i0);
    assert(cmd@ =~= space_field0(s@));
    let arg: Option<Vec<char>> = if i0 < s.len() {
        let i1 = find_char_from(&s, ' ', i0 + 1);
        let a = slice_vec(&s, i0 + 1, i1);
        assert(a@ =~= s@.skip(i0 + 1).take(i1 - (i0 + 1)));
        Some(a)
    } else {
        None
    };
    assert(match arg {
        Some(a) => space_field1(s@) == Some(a@),
        None => space_field1(s@).is_none(),
    });
    if is_lit(&cmd, "ls") {
        let path = match arg {
            Some(a) => {
                let t = trim_vec(&a);
                if t.len() == 0 || is_lit(&t, ".") {
                    None
                } else {
                    Some(string_of(&t))
                }
            },
            None => None,
        };
        Some(BuiltinCmd::Ls { path })
    } else if is_lit(&cmd, "cd") {
        let path = match arg {
            Some(a) => string_of(&trim_vec(&a)),
            None => String::from_str("~"),
        };
        Some(BuiltinCmd::Cd { path })
    } else if is_lit(&cmd, "cat") {
        let file = match arg {
            Some(a) => string_of(&trim_vec(&a)),
            None => String::new(),
        };
        Some(BuiltinCmd::Cat { file })
    } else if is_lit(&cmd, "echo") {
        let prefix = chars_of("echo ");
        if !starts_with_vec(&s, &prefix) {
            return None;
        }
        let rest = slice_vec(&s, prefix.len(), s.len());
        assert(rest@ =~= s@.skip("echo "@.len() as int));
        match rfind_char(&rest, '>') {
            Some(p) => {
                let c = slice_vec(&rest, 0, p);
                let f = slice_vec(&rest, p + 1, rest.len());
                assert(c@ =~= rest@.take(p as int));
                assert(f@ =~= rest@.skip(p + 1));
                Some(
                    BuiltinCmd::EchoTo {
                        content: string_of(&trim_vec(&c)),
                        file: string_of(&trim_vec(&f)),
                    },
                )
            },
            None => None,
        }
    } else if is_lit(&cmd, "grep") {
        let pattern = match arg {
            Some(a) => string_of(&trim_vec(&a)),
            None => String::new(),
        };
        Some(BuiltinCmd::Grep { pattern })
    } else if is_lit(&cmd, "farm") {
        Some(BuiltinCmd::Farm)
    } else if is_lit(&cmd, "breed") {
        Some(BuiltinCmd::Breed)
    } else if is_lit(&cmd, "rest") {
        Some(BuiltinCmd::Rest)
    } else if is_lit(&cmd, "status") {
        Some(BuiltinCmd::Status)
    } else if is_lit(&cmd, "save") {
        Some(BuiltinCmd::Save)
    } else if is_lit(&cmd, "quit") {
        Some(BuiltinCmd::Quit)
    } else {
        None
    }
}


/// A map of game action names to built-in command strings.
///
/// Keys are action names as typed by the player (may contain spaces);
/// values are built-in command strings, e.g. `"cd $1"`, `"ls ."`, `"quit"`.
/// Each key occurs at most once.
#[derive(Debug, Clone)]
pub struct ActionMap(pub Vec<(String, String)>);

/// The entries of an action map as pairs of character sequences.
pub open spec fn entries_of(v: Seq<(String, String)>) -> Seq<(Seq<char>, Seq<char>)> {
    v.map_values(|e: (String, String)| (e.0@, e.1@))
}

/// No key occurs twice.
pub open spec fn keys_unique(es: Seq<(Seq<char>, Seq<char>)>) -> bool {
    forall|i: int, j: int| 0 <= i < j < es.len() ==> es[i].0 != es[j].0
}

/// The map that a list of entries denotes.
pub open spec fn map_of(es: Seq<(Seq<char>, Seq<char>)>) -> Map<Seq<char>, Seq<char>>
    decreases es.len(),
{
    if es.len() == 0 {
        Map::empty()
    } else {
        map_of(es.drop_last()).insert(es.last().0, es.last().1)
    }
}

impl ActionMap {
    /// The entries in storage order.
    pub open spec fn entries(&self) -> Seq<(Seq<char>, Seq<char>)> {
        entries_of(self.0@)
    }

    /// Well-formedness: keys are unique.
    pub open spec fn wf(&self) -> bool {
        keys_unique(self.entries())
    }
}

impl View for ActionMap {
    type V = Map<Seq<char>, Seq<char>>;

    open spec fn view(&self) -> Map<Seq<char>, Seq<char>> {
        map_of(self.entries())
    }
}

/// The placeholder `$k`.
pub open spec fn placeholder(k: nat) -> Seq<char> {
    seq!['$'] + dec_nat(k)
}

/// Replace `$1`, `$2`, … in turn by the successive arguments.
pub open spec fn subst_args(v: Seq<char>, args: Seq<Seq<char>>) -> Seq<char>
    decreases args.len(),
{
    if args.len() == 0 {
        v
    } else {
        replace_all(subst_args(v, args.drop_last()), placeholder(args.len()), args.last())
    }
}

/// The action name `key` is a case-insensitive word prefix of the input words `it`.
pub open spec fn key_matches(key: Seq<char>, it: Seq<Seq<char>>) -> bool {
    let kt = words(key);
    kt.len() <= it.len() && forall|i: int|
        0 <= i < kt.len() ==> eq_ignore_ascii_case(#[trigger] it[i], kt[i])
}

/// Entry `i` is the chosen match: it matches, no matching key has more words,
/// and every earlier matching key has fewer words.
pub open spec fn is_best(es: Seq<(Seq<char>, Seq<char>)>, it: Seq<Seq<char>>, i: int) -> bool {
    &&& 0 <= i < es.len()
    &&& key_matches(es[i].0, it)
    &&& forall|j: int|
        0 <= j < es.len() && key_matches(#[trigger] es[j].0, it) ==> words(es[j].0).len()
            <= words(es[i].0).len()
    &&& forall|j: int|
        0 <= j < i && key_matches(#[trigger] es[j].0, it) ==> words(es[j].0).len() < words(
            es[i].0,
        ).len()
}

/// What [`ActionMap::match_input`] returns for the entries `es`.
pub open spec fn match_result(es: Seq<(Seq<char>, Seq<char>)>, input: Seq<char>) -> Option<
    BuiltinModel,
> {
    let it = words(input);
    if it.len() > 0 && exists|i: int| is_best(es, it, i) {
        let i = choose|i: int| is_best(es, it, i);
        builtin_of(subst_args(es[i].1, it.skip(words(es[i].0).len() as int)))
    } else {
        None
    }
}

proof fn lemma_best_unique(es: Seq<(Seq<char>, Seq<char>)>, it: Seq<Seq<char>>, a: int, b: int)
    requires
        is_best(es, it, a),
        is_best(es, it, b),
    ensures
        a == b,
{
    if a < b {
        assert(key_matches(es[a].0, it));
    } else if b < a {
        assert(key_matches(es[b].0, it));
    }
}

impl ActionMap {
    /// Match player input against the action map and return the corresponding
    /// [`BuiltinCmd`], or `None` if no action matches.
    ///
    /// Matching is case-insensitive. When several keys are a prefix of the
    /// input, the one with the most words wins. Arguments (`$1`, `$2`, …)
    /// are substituted with the remaining input words after the matched key.
    pub fn match_input(&self, input: &str) -> (r: Option<BuiltinCmd>)
        ensures
            opt_cmd_view(r) == match_result(self.entries(), input@),
    {
        let inp = chars_of(input);
        let it = words_of(&inp);
        let ghost its = views(it@);
        let ghost es = self.entries();
        if it.len() == 0 {
            return None;
        }
        let mut best: Option<(usize, usize)> = None;
        let n = self.0.len();
        let mut i: usize = 0;
        while i < n
            invariant
                n == self.0@.len(),
                es == self.entries(),
                its == views(it@),
                i <= n,
                match best {
                    None => forall|j: int| 0 <= j < i ==> !key_matches(#[trigger] es[j].0, its),
                    Some((b, kl)) => {
                        &&& b < i
                        &&& key_matches(es[b as int].0, its)
                        &&& kl == words(es[b as int].0).len()
                        &&& forall|j: int|
                            0 <= j < i && key_matches(#[trigger] es[j].0, its) ==> words(
                                es[j].0,
                            ).len() <= kl
                        &&& forall|j: int|
                            0 <= j < b && key_matches(#[trigger] es[j].0, its) ==> words(
                                es[j].0,
                            ).len() < kl
                    },
                },
            decreases n - i,
        {
            let kv = chars_of(self.0[i].0.as_str());
            let kt = words_of(&kv);
            let klen = kt.len();
            assert(es[i as int].0 == kv@);
            if klen <= it.len() {
                let mut ok = true;
                let mut k: usize = 0;
                while k < klen
                    invariant
                        klen == kt@.len(),
                        klen <= it@.len(),
                        k <= klen,
                        ok == forall|m: int|
                            0 <= m < k ==> eq_ignore_ascii_case(#[trigger] it@[m]@, kt@[m]@),
                    decreases klen - k,
                {
                    let e = eq_ignore_case_vec(&it[k], &kt[k]);
                    ok = ok && e;
                    k = k + 1;
                }
                proof {
                    let kts = views(kt@);
                    assert(kts == words(es[i as int].0));
                    if ok {
                        assert forall|m: int| 0 <= m < kts.len() implies eq_ignore_ascii_case(
                            #[trigger] its[m],
                            kts[m],
                        ) by {
                            assert(eq_ignore_ascii_case(it@[m]@, kt@[m]@));
                        }
                    } else {
                        let m = choose|m: int|
                            0 <= m < klen && !eq_ignore_ascii_case(#[trigger] it@[m]@, kt@[m]@);
                        assert(!eq_ignore_ascii_case(its[m], kts[m]));
                    }
                    assert(ok == key_matches(es[i as int].0, its));
                }
                let better = match best {
                    None => true,
                    Some((_, bl)) => klen > bl,
                };
                if ok && better {
                    best = Some((i, klen));
                }
            } else {
                assert(!key_matches(es[i as int].0, its));
            }
            i = i + 1;
        }
        match best {
            None => {
                assert(!exists|j: int| is_best(es, its, j));
                None
            },
            Some((b, kl)) => {
                proof {
                    assert(is_best(es, its, b as int));
                    let c = choose|j: int| is_best(es, its, j);
                    lemma_best_unique(es, its, b as int, c);
                }
                let vv = chars_of(self.0[b].1.as_str());
                let mut cur = vv;
                let ghost args = its.skip(kl as int);
                let itn = it.len();
                let cnt = itn - kl;
                let mut k: usize = 0;
                assert(args.take(0) =~= Seq::<Seq<char>>::empty());
                while k < cnt
                    invariant
                        itn == it@.len(),
                        cnt == it@.len() - kl,
                        kl <= it@.len(),
                        args == views(it@).skip(kl as int),
                        k <= cnt,
                        cur@ == subst_args(vv@, args.take(k as int)),
                    decreases cnt - k,
                {
                    assert(kl + k < it@.len());
                    let idx = kl + k;
                    let mut ph = String::new();
                    push_char(&mut ph, '$');
                    push_dec(&mut ph, (k + 1) as u64);
                    let phv = chars_of(ph.as_str());
                    assert(phv@ =~= placeholder((k + 1) as nat));
                    assert(args.take(k + 1).drop_last() =~= args.take(k as int));
                    assert(args.take(k + 1).last() == it@[idx as int]@);
                    cur = replace_chars(&cur, &phv, &it[idx]);
                    k = k + 1;
                }
                assert(args.take(cnt as int) =~= args);
                let sub = string_of(&cur);
                parse_builtin(sub.as_str())
            },
        }
    }
}


/// The entries of [`ActionMap::default_map`].
pub open spec fn default_entries() -> Seq<(Seq<char>, Seq<char>)> {
    seq![
        ("open world"@, "ls ."@),
        ("explor"@, "cd $1"@),
        ("go home"@, "cd ~"@),
        ("quit"@, "quit"@),
        ("save"@, "save"@),
        ("read"@, "cat $1"@),
        ("back"@, "cd .."@),
        ("go"@, "cd $1"@),
        ("find"@, "grep $1"@),
        ("farm"@, "farm"@),
        ("breed"@, "breed"@),
        ("rest"@, "rest"@),
        ("status"@, "status"@),
    ]
}

/// Facts about the map denoted by entries with distinct keys.
pub proof fn lemma_map_of(es: Seq<(Seq<char>, Seq<char>)>)
    requires
        keys_unique(es),
    ensures
        forall|i: int|
            0 <= i < es.len() ==> #[trigger] map_of(es).contains_key(es[i].0) && map_of(es)[es[i].0]
                == es[i].1,
        forall|k: Seq<char>|
            #[trigger] map_of(es).contains_key(k) ==> exists|i: int| 0 <= i < es.len() && es[i].0 == k,
    decreases es.len(),
{
    if es.len() > 0 {
        let p = es.drop_last();
        assert(keys_unique(p));
        lemma_map_of(p);
        assert forall|i: int| 0 <= i < es.len() implies #[trigger] map_of(es).contains_key(es[i].0)
            && map_of(es)[es[i].0] == es[i].1 by {
            if i < es.len() - 1 {
                assert(p[i] == es[i]);
                assert(es[i].0 != es[es.len() - 1].0);
                assert(map_of(p).contains_key(p[i].0));
            }
        }
        assert forall|k: Seq<char>| #[trigger] map_of(es).contains_key(k) implies exists|i: int|
            0 <= i < es.len() && es[i].0 == k by {
            if k != es.last().0 {
                assert(map_of(p).contains_key(k));
                let i = choose|i: int| 0 <= i < p.len() && p[i].0 == k;
                assert(es[i] == p[i]);
            } else {
                assert(es[es.len() - 1].0 == k);
            }
        }
    }
}

proof fn lemma_map_of_ext(a: Seq<(Seq<char>, Seq<char>)>, m: Map<Seq<char>, Seq<char>>)
    requires
        keys_unique(a),
        forall|i: int| 0 <= i < a.len() ==> #[trigger] m.contains_key(a[i].0) && m[a[i].0] == a[i].1,
        forall|k: Seq<char>| #[trigger] m.contains_key(k) ==> exists|i: int| 0 <= i < a.len() && a[i].0 == k,
    ensures
        map_of(a) == m,
{
    lemma_map_of(a);
    assert forall|k: Seq<char>| #[trigger] map_of(a).contains_key(k) <==> m.contains_key(k) by {
        if m.contains_key(k) {
            let i = choose|i: int| 0 <= i < a.len() && a[i].0 == k;
            assert(map_of(a).contains_key(a[i].0));
        }
        if map_of(a).contains_key(k) {
            let i = choose|i: int| 0 <= i < a.len() && a[i].0 == k;
            assert(m.contains_key(a[i].0));
        }
    }
    assert forall|k: Seq<char>| #[trigger] map_of(a).contains_key(k) implies map_of(a)[k] == m[k] by {
        let i = choose|i: int| 0 <= i < a.len() && a[i].0 == k;
        assert(map_of(a)[a[i].0] == a[i].1);
    }
    assert(map_of(a) =~= m);
}

/// The text `k: v\n` for each entry, in order.
pub open spec fn yaml_text(es: Seq<(Seq<char>, Seq<char>)>) -> Seq<char>
    decreases es.len(),
{
    if es.len() == 0 {
        Seq::empty()
    } else {
        yaml_text(es.drop_last()) + es.last().0 + ": "@ + es.last().1 + "\n"@
    }
}

/// `l` lists the entries `es` (distinct keys) in increasing key order.
pub open spec fn is_sorted_listing(l: Seq<(Seq<char>, Seq<char>)>, es: Seq<(Seq<char>, Seq<char>)>) -> bool {
    &&& l.len() == es.len()
    &&& sorted_by_key(l)
    &&& forall|e: (Seq<char>, Seq<char>)| es.contains(e) <==> l.contains(e)
}

impl ActionMap {
    /// The map of [`ActionMap::default_map`].
    pub open spec fn default_map_view() -> Map<Seq<char>, Seq<char>> {
        map_of(default_entries())
    }

    /// Return the default built-in action map.
    pub fn default_map() -> (r: ActionMap)
        ensures
            r.entries() == default_entries(),
            r.wf(),
    {
        let mut m: Vec<(String, String)> = Vec::new();
        m.push((String::from_str("open world"), String::from_str("ls .")));
        m.push((String::from_str("explor"), String::from_str("cd $1")));
        m.push((String::from_str("go home"), String::from_str("cd ~")));
        m.push((String::from_str("quit"), String::from_str("quit")));
        m.push((String::from_str("save"), String::from_str("save")));
        m.push((String::from_str("read"), String::from_str("cat $1")));
        m.push((String::from_str("back"), String::from_str("cd ..")));
        m.push((String::from_str("go"), String::from_str("cd $1")));
        m.push((String::from_str("find"), String::from_str("grep $1")));
        m.push((String::from_str("farm"), String::from_str("farm")));
        m.push((String::from_str("breed"), String::from_str("breed")));
        m.push((String::from_str("rest"), String::from_str("rest")));
        m.push((String::from_str("status"), String::from_str("status")));
        let r = ActionMap(m);
        proof {
            reveal_strlit("open world");
            reveal_strlit("explor");
            reveal_strlit("go home");
            reveal_strlit("quit");
            reveal_strlit("save");
            reveal_strlit("read");
            reveal_strlit("back");
            reveal_strlit("go");
            reveal_strlit("find");
            reveal_strlit("farm");
            reveal_strlit("breed");
            reveal_strlit("rest");
            reveal_strlit("status");
            assert(r.entries() =~= default_entries());
            let es = default_entries();
            assert forall|a: int, b: int| 0 <= a < b < es.len() implies es[a].0 != es[b].0 by {
                assert(es[a].0.len() != es[b].0.len() || es[a].0[0] != es[b].0[0] || es[a].0[1]
                    != es[b].0[1] || es[a].0[2] != es[b].0[2]);
            }
        }
        r
    }

    /// Merge another action map into this one (the other map's keys override ours).
    pub fn merge(&mut self, other: &ActionMap)
        requires
            old(self).wf(),
            other.wf(),
        ensures
            final(self).wf(),
            final(self)@ == old(self)@.union_prefer_right(other@),
    {
        let ghost orig = self@;
        let ghost oes = other.entries();
        let n = other.0.len();
        let mut j: usize = 0;
        proof {
            lemma_map_of(self.entries());
            lemma_map_of(oes);
            assert(oes.take(0) =~= Seq::<(Seq<char>, Seq<char>)>::empty());
            assert(orig.union_prefer_right(map_of(oes.take(0))) =~= orig);
        }
        while j < n
            invariant
                n == other.0@.len(),
                oes == other.entries(),
                keys_unique(oes),
                j <= n,
                self.wf(),
                self@ == orig.union_prefer_right(map_of(oes.take(j as int))),
            decreases n - j,
        {
            let k = other.0[j].0.clone();
            let v = other.0[j].1.clone();
            let ghost before = self.entries();
            let m = self.0.len();
            let mut i: usize = 0;
            while i < m && !(self.0[i].0 == k)
                invariant
                    m == self.0@.len(),
                    i <= m,
                    forall|t: int| 0 <= t < i ==> self.entries()[t].0 != k@,
                decreases m - i,
            {
                i = i + 1;
            }
            proof {
                lemma_map_of(before);
                assert(oes.take(j + 1).drop_last() =~= oes.take(j as int));
                assert(oes.take(j + 1).last() == (k@, v@));
            }
            if i < m {
                let kk = self.0[i].0.clone();
                self.0.set(i, (kk, v));
                proof {
                    let after = self.entries();
                    assert(after =~= before.update(i as int, (k@, v@)));
                    assert(keys_unique(after)) by {
                        assert forall|a: int, b: int| 0 <= a < b < after.len() implies after[a].0
                            != after[b].0 by {
                            assert(after[a].0 == before[a].0);
                            assert(after[b].0 == before[b].0);
                        }
                    }
                    lemma_map_of(after);
                    let mm = map_of(before).insert(k@, v@);
                    assert forall|t: int| 0 <= t < after.len() implies #[trigger] mm.contains_key(
                        after[t].0,
                    ) && mm[after[t].0] == after[t].1 by {
                        if t != i {
                            assert(after[t] == before[t]);
                            assert(before[i as int].0 == k@);
                            assert(before[t].0 != before[i as int].0);
                            assert(map_of(before).contains_key(before[t].0));
                        }
                    }
                    assert forall|kq: Seq<char>| #[trigger] mm.contains_key(kq) implies exists|t: int|
                        0 <= t < after.len() && after[t].0 == kq by {
                        if kq == k@ {
                            assert(after[i as int].0 == kq);
                        } else {
                            assert(map_of(before).contains_key(kq));
                            let t = choose|t: int| 0 <= t < before.len() && before[t].0 == kq;
                            assert(after[t].0 == kq);
                        }
                    }
                    lemma_map_of_ext(after, mm);
                }
            } else {
                self.0.push((k, v));
                proof {
                    let after = self.entries();
                    assert(after =~= before.push((k@, v@)));
                    assert(after.drop_last() =~= before);
                }
            }
            proof {
                assert(self@ =~= orig.union_prefer_right(map_of(oes.take(j + 1))));
            }
            j = j + 1;
        }
        proof {
            assert(oes.take(n as int) =~= oes);
        }
    }

    /// Return the `(action_name, builtin_str)` pairs sorted by action name.
    pub fn display_list(&self) -> (r: Vec<(String, String)>)
        requires
            self.wf(),
        ensures
            is_sorted_listing(entries_of(r@), self.entries()),
    {
        let n = self.0.len();
        let mut cv: Vec<(Vec<char>, Vec<char>)> = Vec::new();
        let mut i: usize = 0;
        while i < n
            invariant
                n == self.0@.len(),
                i <= n,
                pair_views(cv@) == self.entries().take(i as int),
            decreases n - i,
        {
            let a = chars_of(self.0[i].0.as_str());
            let b = chars_of(self.0[i].1.as_str());
            let ghost prev = cv@;
            cv.push((a, b));
            assert(pair_views(cv@) =~= pair_views(prev).push((a@, b@)));
            assert(self.entries()[i as int] == (a@, b@));
            assert(pair_views(cv@) =~= self.entries().take(i + 1));
            i = i + 1;
        }
        assert(self.entries().take(n as int) =~= self.entries());
        let sorted = sort_pairs(cv);
        let mut out: Vec<(String, String)> = Vec::new();
        let mut j: usize = 0;
        while j < sorted.len()
            invariant
                j <= sorted@.len(),
                entries_of(out@) == pair_views(sorted@).take(j as int),
            decreases sorted@.len() - j,
        {
            let a = string_of(&sorted[j].0);
            let b = string_of(&sorted[j].1);
            let ghost prev = out@;
            out.push((a, b));
            assert(entries_of(out@) =~= entries_of(prev).push((a@, b@)));
            assert(pair_views(sorted@)[j as int] == (a@, b@));
            assert(entries_of(out@) =~= pair_views(sorted@).take(j + 1));
            j = j + 1;
        }
        assert(pair_views(sorted@).take(sorted@.len() as int) =~= pair_views(sorted@));
        out
    }

    /// Serialize this action map to YAML text, one `key: value` line per
    /// entry in increasing key order.
    pub fn to_yaml(&self) -> (r: Result<String, String>)
        requires
            self.wf(),
        ensures
            r matches Ok(s) && exists|l: Seq<(Seq<char>, Seq<char>)>|
                is_sorted_listing(l, self.entries()) && s@ == yaml_text(l),
    {
        let list = self.display_list();
        let mut out = String::new();
        let mut i: usize = 0;
        let ghost l = entries_of(list@);
        while i < list.len()
            invariant
                l == entries_of(list@),
                i <= list@.len(),
                out@ == yaml_text(l.take(i as int)),
            decreases list@.len() - i,
        {
            out.append(list[i].0.as_str());
            out.append(": ");
            out.append(list[i].1.as_str());
            out.append("\n");
            assert(l.take(i + 1).drop_last() =~= l.take(i as int));
            i = i + 1;
        }
        assert(l.take(list@.len() as int) =~= l);
        Ok(out)
    }
}

} // verus!
