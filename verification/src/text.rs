//! Character-sequence utilities shared by the parsers and renderers.
//!
//! Strings are modelled by their `Seq<char>` view; the spec functions here
//! say what the usual `str` operations (trim, split, find, replace, decimal
//! formatting) mean on those sequences.

use vstd::prelude::*;
use vstd::string::*;

verus! {

/// Unicode `White_Space` property, as used by `char::is_whitespace`.
pub open spec fn is_ws(c: char) -> bool {
    let u = c as u32;
    ||| 0x09 <= u <= 0x0D
    ||| u == 0x20
    ||| u == 0x85
    ||| u == 0xA0
    ||| u == 0x1680
    ||| 0x2000 <= u <= 0x200A
    ||| u == 0x2028
    ||| u == 0x2029
    ||| u == 0x202F
    ||| u == 0x205F
    ||| u == 0x3000
}

/// Whether `c` is a Unicode white-space character.
pub fn is_whitespace(c: char) -> (b: bool)
    ensures
        b == is_ws(c),
{
    let u = c as u32;
    (0x09 <= u && u <= 0x0D) || u == 0x20 || u == 0x85 || u == 0xA0 || u == 0x1680 || (0x2000
        <= u && u <= 0x200A) || u == 0x2028 || u == 0x2029 || u == 0x202F || u == 0x205F || u
        == 0x3000
}

/// `s` with its leading white space removed.
pub open spec fn trim_start(s: Seq<char>) -> Seq<char>
    decreases s.len(),
{
    if s.len() > 0 && is_ws(s[0]) {
        trim_start(s.drop_first())
    } else {
        s
    }
}

/// `s` with its trailing white space removed.
pub open spec fn trim_end(s: Seq<char>) -> Seq<char>
    decreases s.len(),
{
    if s.len() > 0 && is_ws(s.last()) {
        trim_end(s.drop_last())
    } else {
        s
    }
}

/// `s` with white space removed from both ends (`str::trim`).
pub open spec fn trim(s: Seq<char>) -> Seq<char> {
    trim_end(trim_start(s))
}

proof fn lemma_trim_start_shape(s: Seq<char>)
    ensures
        trim_start(s).len() == 0 || !is_ws(trim_start(s)[0]),
    decreases s.len(),
{
    if s.len() > 0 && is_ws(s[0]) {
        lemma_trim_start_shape(s.drop_first());
    }
}

proof fn lemma_trim_end_shape(s: Seq<char>)
    ensures
        trim_end(s).len() <= s.len(),
        trim_end(s) == s.take(trim_end(s).len() as int),
        trim_end(s).len() == 0 || !is_ws(trim_end(s).last()),
    decreases s.len(),
{
    if s.len() > 0 && is_ws(s.last()) {
        lemma_trim_end_shape(s.drop_last());
        assert(s.drop_last().take(trim_end(s).len() as int) =~= s.take(trim_end(s).len() as int));
    } else {
        assert(s.take(s.len() as int) =~= s);
    }
}

/// Trimming twice is trimming once.
pub proof fn law_trim_idempotent(s: Seq<char>)
    ensures
        trim(trim(s)) == trim(s),
{
    let a = trim_start(s);
    let t = trim_end(a);
    lemma_trim_start_shape(s);
    lemma_trim_end_shape(a);
    if t.len() > 0 {
        assert(t[0] == a[0]);
    }
    assert(trim_start(t) == t);
    assert(trim_end(t) == t);
}

/// The characters of a string slice, one by one.
pub fn chars_of(s: &str) -> (v: Vec<char>)
    ensures
        v@ == s@,
{
    let n = s.unicode_len();
    let mut v: Vec<char> = Vec::new();
    let mut i: usize = 0;
    while i < n
        invariant
            n == s@.len(),
            i <= n,
            v@ == s@.take(i as int),
        decreases n - i,
    {
        let c = s.get_char(i);
        v.push(c);
        i = i + 1;
        assert(v@ =~= s@.take(i as int));
    }
    assert(v@ =~= s@);
    v
}

/// Appends one character to a string (`String::push`).
#[verifier::external_body]
pub(crate) fn push_char(s: &mut String, c: char)
    ensures
        final(s)@ == old(s)@.push(c),
{
    s.push(c);
}

/// A string holding exactly the characters `v[from..to]`.
pub fn string_of_range(v: &Vec<char>, from: usize, to: usize) -> (s: String)
    requires
        from <= to <= v@.len(),
    ensures
        s@ == v@.subrange(from as int, to as int),
{
    let mut s = String::new();
    let mut i = from;
    while i < to
        invariant
            from <= i <= to <= v@.len(),
            s@ == v@.subrange(from as int, i as int),
        decreases to - i,
    {
        push_char(&mut s, v[i]);
        i = i + 1;
        assert(s@ =~= v@.subrange(from as int, i as int));
    }
    s
}

/// A string holding exactly the characters of `v`.
pub fn string_of(v: &Vec<char>) -> (s: String)
    ensures
        s@ == v@,
{
    let s = string_of_range(v, 0, v.len());
    assert(v@.subrange(0, v@.len() as int) =~= v@);
    s
}

proof fn lemma_trim_start_skip(s: Seq<char>, i: int)
    requires
        0 <= i < s.len(),
        is_ws(s[i]),
    ensures
        trim_start(s.skip(i)) == trim_start(s.skip(i + 1)),
{
    assert(s.skip(i).drop_first() =~= s.skip(i + 1));
}

proof fn lemma_trim_end_take(s: Seq<char>, j: int)
    requires
        0 < j <= s.len(),
        is_ws(s[j - 1]),
    ensures
        trim_end(s.take(j)) == trim_end(s.take(j - 1)),
{
    assert(s.take(j).drop_last() =~= s.take(j - 1));
}

/// Bounds `(a, b)` such that `s[a..b]` is `s` trimmed of white space.
pub fn trim_bounds(s: &Vec<char>) -> (r: (usize, usize))
    ensures
        r.0 <= r.1 <= s@.len(),
        s@.subrange(r.0 as int, r.1 as int) == trim(s@),
{
    let n = s.len();
    let mut a: usize = 0;
    assert(s@.skip(0) =~= s@);
    while a < n && is_whitespace(s[a])
        invariant
            n == s@.len(),
            a <= n,
            trim_start(s@) == trim_start(s@.skip(a as int)),
        decreases n - a,
    {
        proof {
            lemma_trim_start_skip(s@, a as int);
        }
        a = a + 1;
    }
    let ghost t = s@.skip(a as int);
    assert(trim_start(t) == t);
    assert(trim_start(s@) == t);
    let mut b: usize = n;
    assert(t.take(n - a) =~= t);
    while b > a && is_whitespace(s[b - 1])
        invariant
            n == s@.len(),
            a <= b <= n,
            t == s@.skip(a as int),
            trim_end(t) == trim_end(t.take(b - a)),
        decreases b,
    {
        proof {
            assert(t[b - a - 1] == s@[b - 1]);
            lemma_trim_end_take(t, b - a);
        }
        b = b - 1;
    }
    assert(t.take(b - a) =~= s@.subrange(a as int, b as int));
    (a, b)
}

/// `str::trim` on a character vector.
pub fn trim_vec(s: &Vec<char>) -> (r: Vec<char>)
    ensures
        r@ == trim(s@),
{
    let (a, b) = trim_bounds(s);
    slice_vec(s, a, b)
}

/// A copy of `v[from..to]`.
pub fn slice_vec(v: &Vec<char>, from: usize, to: usize) -> (r: Vec<char>)
    requires
        from <= to <= v@.len(),
    ensures
        r@ == v@.subrange(from as int, to as int),
{
    let mut r: Vec<char> = Vec::new();
    let mut i = from;
    while i < to
        invariant
            from <= i <= to <= v@.len(),
            r@ == v@.subrange(from as int, i as int),
        decreases to - i,
    {
        r.push(v[i]);
        i = i + 1;
        assert(r@ =~= v@.subrange(from as int, i as int));
    }
    r
}


/// Index of the first element of `s` satisfying `p`, or `s.len()` if none does.
pub open spec fn first_where(s: Seq<char>, p: spec_fn(char) -> bool) -> nat
    decreases s.len(),
{
    if s.len() == 0 {
        0
    } else if p(s[0]) {
        0
    } else {
        1 + first_where(s.drop_first(), p)
    }
}

/// The predicate "is white space" as a spec closure.
pub open spec fn ws_pred() -> spec_fn(char) -> bool {
    |c: char| is_ws(c)
}

/// The predicate "equals `c`" as a spec closure.
pub open spec fn eq_pred(c: char) -> spec_fn(char) -> bool {
    |d: char| d == c
}

pub proof fn lemma_first_where(s: Seq<char>, p: spec_fn(char) -> bool)
    ensures
        first_where(s, p) <= s.len(),
        forall|j: int| 0 <= j < first_where(s, p) ==> !p(#[trigger] s[j]),
        first_where(s, p) < s.len() ==> p(s[first_where(s, p) as int]),
    decreases s.len(),
{
    if s.len() > 0 && !p(s[0]) {
        lemma_first_where(s.drop_first(), p);
        assert forall|j: int| 0 <= j < first_where(s, p) implies !p(#[trigger] s[j]) by {
            if j > 0 {
                assert(s[j] == s.drop_first()[j - 1]);
            }
        }
    }
}

/// `first_where` is characterised by the first matching position.
pub proof fn lemma_first_where_at(s: Seq<char>, p: spec_fn(char) -> bool, k: int)
    requires
        0 <= k <= s.len(),
        forall|j: int| 0 <= j < k ==> !p(#[trigger] s[j]),
        k < s.len() ==> p(s[k]),
    ensures
        first_where(s, p) == k,
    decreases s.len(),
{
    if s.len() > 0 && k > 0 {
        assert(!p(s[0]));
        assert forall|j: int| 0 <= j < k - 1 implies !p(#[trigger] s.drop_first()[j]) by {
            assert(s.drop_first()[j] == s[j + 1]);
        }
        lemma_first_where_at(s.drop_first(), p, k - 1);
    }
}

/// Index of the first occurrence of `c` in `v[from..]`, or `v.len()`.
pub fn find_char_from(v: &Vec<char>, c: char, from: usize) -> (r: usize)
    requires
        from <= v@.len(),
    ensures
        r == from + first_where(v@.skip(from as int), eq_pred(c)),
        from <= r <= v@.len(),
{
    let mut i = from;
    while i < v.len() && v[i] != c
        invariant
            from <= i <= v@.len(),
            forall|j: int| from <= j < i ==> v@[j] != c,
        decreases v@.len() - i,
    {
        i = i + 1;
    }
    proof {
        let t = v@.skip(from as int);
        assert forall|j: int| 0 <= j < i - from implies !eq_pred(c)(#[trigger] t[j]) by {
            assert(t[j] == v@[from + j]);
        }
        lemma_first_where_at(t, eq_pred(c), i - from);
    }
    i
}

/// Index of the first white-space character in `v[from..]`, or `v.len()`.
pub fn find_ws_from(v: &Vec<char>, from: usize) -> (r: usize)
    requires
        from <= v@.len(),
    ensures
        r == from + first_where(v@.skip(from as int), ws_pred()),
        from <= r <= v@.len(),
{
    let mut i = from;
    while i < v.len() && !is_whitespace(v[i])
        invariant
            from <= i <= v@.len(),
            forall|j: int| from <= j < i ==> !is_ws(v@[j]),
        decreases v@.len() - i,
    {
        i = i + 1;
    }
    proof {
        let t = v@.skip(from as int);
        assert forall|j: int| 0 <= j < i - from implies !ws_pred()(#[trigger] t[j]) by {
            assert(t[j] == v@[from + j]);
        }
        lemma_first_where_at(t, ws_pred(), i - from);
    }
    i
}

/// `str::split(c)`: the pieces of `s` between occurrences of `c`.
pub open spec fn split_on(s: Seq<char>, c: char) -> Seq<Seq<char>>
    decreases s.len(),
{
    let i = first_where(s, eq_pred(c));
    if i >= s.len() {
        seq![s]
    } else {
        seq![s.take(i as int)] + split_on(s.skip((i + 1) as int), c)
    }
}

/// A separator standing between `x` and `y` splits each side on its own.
pub proof fn lemma_split_on_concat(x: Seq<char>, y: Seq<char>, c: char)
    ensures
        split_on(x + seq![c] + y, c) == split_on(x, c) + split_on(y, c),
    decreases x.len(),
{
    let s = x + seq![c] + y;
    lemma_first_where(x, eq_pred(c));
    let i = first_where(x, eq_pred(c));
    assert forall|j: int| 0 <= j < i implies !eq_pred(c)(#[trigger] s[j]) by {
        assert(s[j] == x[j]);
        assert(!eq_pred(c)(x[j]));
    }
    if i >= x.len() {
        assert(s[x.len() as int] == c);
        lemma_first_where_at(s, eq_pred(c), x.len() as int);
        assert(s.take(x.len() as int) =~= x);
        assert(s.skip(x.len() as int + 1) =~= y);
    } else {
        assert(s[i as int] == x[i as int]);
        lemma_first_where_at(s, eq_pred(c), i as int);
        assert(s.take(i as int) =~= x.take(i as int));
        assert(s.skip(i as int + 1) =~= x.skip(i as int + 1) + seq![c] + y);
        lemma_split_on_concat(x.skip(i as int + 1), y, c);
        assert(split_on(s, c) =~= seq![x.take(i as int)] + (split_on(x.skip(i as int + 1), c) + split_on(y, c)));
        assert(split_on(x, c) =~= seq![x.take(i as int)] + split_on(x.skip(i as int + 1), c));
    }
}

/// No piece of `split_on(s, c)` holds `c`.
pub proof fn lemma_split_on_pieces(s: Seq<char>, c: char)
    ensures
        forall|k: int| 0 <= k < split_on(s, c).len() ==> !(#[trigger] split_on(s, c)[k]).contains(c),
    decreases s.len(),
{
    lemma_first_where(s, eq_pred(c));
    let i = first_where(s, eq_pred(c));
    let head = s.take(i as int);
    assert forall|j: int| 0 <= j < head.len() implies head[j] != c by {
        assert(head[j] == s[j]);
        assert(!eq_pred(c)(s[j]));
    }
    if i < s.len() {
        lemma_split_on_pieces(s.skip(i as int + 1), c);
        let rest = split_on(s.skip(i as int + 1), c);
        assert forall|k: int| 0 <= k < split_on(s, c).len() implies !(#[trigger] split_on(s, c)[k]).contains(c) by {
            if k > 0 {
                assert(split_on(s, c)[k] == rest[k - 1]);
            }
        }
    } else {
        assert(head =~= s);
    }
}

/// A string without `c` splits on `c` into itself alone.
pub proof fn lemma_split_on_whole(s: Seq<char>, c: char)
    requires
        !s.contains(c),
    ensures
        split_on(s, c) == seq![s],
{
    lemma_first_where(s, eq_pred(c));
    if first_where(s, eq_pred(c)) < s.len() {
        assert(s[first_where(s, eq_pred(c)) as int] == c);
    }
}

/// Joining pieces that hold no `c` with `c`, then splitting on `c`, gives
/// the pieces back.
pub proof fn lemma_split_join(ps: Seq<Seq<char>>, c: char)
    requires
        ps.len() > 0,
        forall|k: int| 0 <= k < ps.len() ==> !(#[trigger] ps[k]).contains(c),
    ensures
        split_on(join(ps, seq![c]), c) == ps,
    decreases ps.len(),
{
    let last = ps.last();
    lemma_split_on_whole(last, c);
    if ps.len() == 1 {
        assert(ps =~= seq![last]);
    } else {
        let init = ps.drop_last();
        assert forall|k: int| 0 <= k < init.len() implies !(#[trigger] init[k]).contains(c) by {
            assert(init[k] == ps[k]);
        }
        lemma_split_join(init, c);
        lemma_split_on_concat(join(init, seq![c]), last, c);
        assert(init + seq![last] =~= ps);
    }
}

/// The views of a sequence of strings.
pub open spec fn str_views(v: Seq<String>) -> Seq<Seq<char>> {
    v.map_values(|x: String| x@)
}

/// The deep view of a vector of character vectors.
pub open spec fn views(v: Seq<Vec<char>>) -> Seq<Seq<char>> {
    v.map_values(|x: Vec<char>| x@)
}

/// `str::split(c)` on a character vector.
pub fn split_chars(v: &Vec<char>, c: char) -> (r: Vec<Vec<char>>)
    ensures
        views(r@) == split_on(v@, c),
{
    let mut r: Vec<Vec<char>> = Vec::new();
    let mut start: usize = 0;
    assert(v@.skip(0) =~= v@);
    loop
        invariant_except_break
            start <= v@.len(),
            split_on(v@, c) == views(r@) + split_on(v@.skip(start as int), c),
        ensures
            split_on(v@, c) == views(r@),
        decreases v@.len() - start,
    {
        let i = find_char_from(v, c, start);
        let ghost t = v@.skip(start as int);
        let piece = slice_vec(v, start, i);
        assert(t.take(i - start) =~= piece@);
        let ghost prev = r@;
        if i >= v.len() {
            assert(t =~= piece@);
            r.push(piece);
            assert(views(r@) =~= views(prev) + seq![piece@]);
            break;
        }
        assert(t.skip(i - start + 1) =~= v@.skip(i + 1));
        r.push(piece);
        assert(views(r@) =~= views(prev) + seq![piece@]);
        start = i + 1;
    }
    r
}


/// `str::split_whitespace`: the maximal runs of non-white-space characters.
pub open spec fn words(s: Seq<char>) -> Seq<Seq<char>>
    decreases s.len(),
{
    if s.len() == 0 {
        seq![]
    } else if is_ws(s[0]) {
        words(s.drop_first())
    } else {
        let k = first_where(s, ws_pred());
        proof {
            lemma_first_where(s, ws_pred());
        }
        seq![s.take(k as int)] + words(s.skip(k as int))
    }
}

/// `str::split_whitespace` on a character vector.
pub fn words_of(v: &Vec<char>) -> (r: Vec<Vec<char>>)
    ensures
        views(r@) == words(v@),
{
    let mut r: Vec<Vec<char>> = Vec::new();
    let mut i: usize = 0;
    let n = v.len();
    assert(v@.skip(0) =~= v@);
    while i < n
        invariant
            n == v@.len(),
            i <= n,
            words(v@) == views(r@) + words(v@.skip(i as int)),
        decreases n - i,
    {
        let ghost t = v@.skip(i as int);
        if is_whitespace(v[i]) {
            assert(t.drop_first() =~= v@.skip(i + 1));
            i = i + 1;
        } else {
            let j = find_ws_from(v, i);
            proof {
                lemma_first_where(t, ws_pred());
                assert(j > i);
            }
            let piece = slice_vec(v, i, j);
            assert(t.take(j - i) =~= piece@);
            assert(t.skip(j - i) =~= v@.skip(j as int));
            let ghost prev = r@;
            r.push(piece);
            assert(views(r@) =~= views(prev) + seq![piece@]);
            i = j;
        }
    }
    assert(v@.skip(n as int) =~= Seq::<char>::empty());
    assert(views(r@) + Seq::<Seq<char>>::empty() =~= views(r@));
    r
}

/// `s` starts with `p`.
pub open spec fn has_prefix(s: Seq<char>, p: Seq<char>) -> bool {
    p.len() <= s.len() && s.take(p.len() as int) == p
}

/// `s` ends with `p`.
pub open spec fn has_suffix(s: Seq<char>, p: Seq<char>) -> bool {
    p.len() <= s.len() && s.skip(s.len() - p.len()) == p
}

/// `p` occurs in `s` starting at index `i`.
pub open spec fn occurs_at(s: Seq<char>, p: Seq<char>, i: int) -> bool {
    0 <= i && i + p.len() <= s.len() && s.subrange(i, i + p.len()) == p
}

/// `str::find`: index of the first occurrence of `p` in `s`, or `-1`.
pub open spec fn find_sub(s: Seq<char>, p: Seq<char>) -> int
    decreases s.len(),
{
    if p.len() > s.len() {
        -1
    } else if has_prefix(s, p) {
        0
    } else if s.len() == 0 {
        -1
    } else {
        let r = find_sub(s.drop_first(), p);
        if r < 0 {
            -1
        } else {
            r + 1
        }
    }
}

pub proof fn lemma_find_sub(s: Seq<char>, p: Seq<char>)
    ensures
        find_sub(s, p) >= -1,
        find_sub(s, p) >= 0 ==> occurs_at(s, p, find_sub(s, p)),
        forall|j: int|
            0 <= j && (find_sub(s, p) < 0 || j < find_sub(s, p)) ==> !#[trigger] occurs_at(
                s,
                p,
                j,
            ),
    decreases s.len(),
{
    if p.len() > s.len() {
    } else if has_prefix(s, p) {
        assert(s.subrange(0, p.len() as int) =~= s.take(p.len() as int));
    } else if s.len() == 0 {
        assert(s.take(0) =~= p);
    } else {
        let t = s.drop_first();
        lemma_find_sub(t, p);
        assert(!occurs_at(s, p, 0)) by {
            if occurs_at(s, p, 0) {
                assert(s.subrange(0, p.len() as int) =~= s.take(p.len() as int));
            }
        }
        if find_sub(t, p) >= 0 {
            let r = find_sub(t, p);
            assert(s.subrange(r + 1, r + 1 + p.len()) =~= t.subrange(r, r + p.len()));
        }
        assert forall|j: int|
            0 <= j && (find_sub(s, p) < 0 || j < find_sub(s, p)) implies !#[trigger] occurs_at(
            s,
            p,
            j,
        ) by {
            if j > 0 && occurs_at(s, p, j) {
                assert(s.subrange(j, j + p.len()) =~= t.subrange(j - 1, j - 1 + p.len()));
                assert(occurs_at(t, p, j - 1));
            }
        }
    }
}

pub proof fn lemma_find_sub_at(s: Seq<char>, p: Seq<char>, k: int)
    requires
        occurs_at(s, p, k),
        forall|j: int| 0 <= j < k ==> !#[trigger] occurs_at(s, p, j),
    ensures
        find_sub(s, p) == k,
{
    lemma_find_sub(s, p);
    if find_sub(s, p) < 0 {
        assert(!occurs_at(s, p, k));
    } else if find_sub(s, p) < k {
        assert(!occurs_at(s, p, find_sub(s, p)));
    } else if find_sub(s, p) > k {
        assert(!occurs_at(s, p, k));
    }
}

pub proof fn lemma_find_sub_none(s: Seq<char>, p: Seq<char>)
    requires
        forall|j: int| 0 <= j ==> !#[trigger] occurs_at(s, p, j),
    ensures
        find_sub(s, p) == -1,
{
    lemma_find_sub(s, p);
    if find_sub(s, p) >= 0 {
        assert(occurs_at(s, p, find_sub(s, p)));
    }
}

/// Whether `p` occurs in `v` at index `i`.
pub fn matches_at(v: &Vec<char>, p: &Vec<char>, i: usize) -> (b: bool)
    ensures
        b == occurs_at(v@, p@, i as int),
{
    if i > v.len() || p.len() > v.len() - i {
        return false;
    }
    let mut k: usize = 0;
    let n = v.len();
    while k < p.len()
        invariant
            n == v@.len(),
            i + p@.len() <= n,
            k <= p@.len(),
            forall|m: int| 0 <= m < k ==> v@[i + m] == p@[m],
        decreases p@.len() - k,
    {
        if v[i + k] != p[k] {
            assert(v@.subrange(i as int, i + p@.len())[k as int] != p@[k as int]);
            return false;
        }
        k = k + 1;
    }
    assert(v@.subrange(i as int, i + p@.len()) =~= p@);
    true
}

/// Index of the first occurrence of `p` in `v[from..]` (as an index into `v`).
pub fn find_sub_from(v: &Vec<char>, p: &Vec<char>, from: usize) -> (r: Option<usize>)
    requires
        from <= v@.len(),
    ensures
        match r {
            None => find_sub(v@.skip(from as int), p@) == -1,
            Some(i) => i == from + find_sub(v@.skip(from as int), p@) && from <= i && i + p@.len()
                <= v@.len() && v@.subrange(i as int, i + p@.len()) == p@,
        },
{
    let ghost t = v@.skip(from as int);
    let mut i = from;
    let n = v.len();
    loop
        invariant
            n == v@.len(),
            from <= i <= n,
            t == v@.skip(from as int),
            forall|j: int| 0 <= j < i - from ==> !#[trigger] occurs_at(t, p@, j),
        ensures
            forall|j: int| 0 <= j <= n - from ==> !#[trigger] occurs_at(t, p@, j),
        decreases n - i,
    {
        if matches_at(v, p, i) {
            proof {
                assert(t.subrange(i - from, i - from + p@.len()) =~= v@.subrange(
                    i as int,
                    i + p@.len(),
                ));
                lemma_find_sub_at(t, p@, i - from);
            }
            return Some(i);
        }
        proof {
            if occurs_at(t, p@, i - from) {
                assert(t.subrange(i - from, i - from + p@.len()) =~= v@.subrange(
                    i as int,
                    i + p@.len(),
                ));
            }
        }
        if i == n {
            assert(forall|j: int| 0 <= j <= i - from ==> !#[trigger] occurs_at(t, p@, j));
            break;
        }
        i = i + 1;
    }
    proof {
        assert forall|j: int| 0 <= j implies !#[trigger] occurs_at(t, p@, j) by {
            if j > n - from {
                assert(j + p@.len() > t.len());
            }
        }
        lemma_find_sub_none(t, p@);
    }
    None
}

/// `str::replace(f, t)` for a non-empty pattern `f`.
pub open spec fn replace_all(s: Seq<char>, f: Seq<char>, t: Seq<char>) -> Seq<char>
    decreases s.len(),
{
    let i = find_sub(s, f);
    if f.len() == 0 || i < 0 {
        s
    } else {
        proof {
            lemma_find_sub(s, f);
        }
        s.take(i) + t + replace_all(s.skip(i + f.len()), f, t)
    }
}

/// `str::replace` on character vectors, for a non-empty pattern.
pub fn replace_chars(v: &Vec<char>, f: &Vec<char>, t: &Vec<char>) -> (r: Vec<char>)
    requires
        f@.len() > 0,
    ensures
        r@ == replace_all(v@, f@, t@),
{
    let mut r: Vec<char> = Vec::new();
    let mut start: usize = 0;
    let n = v.len();
    assert(v@.skip(0) =~= v@);
    loop
        invariant_except_break
            n == v@.len(),
            f@.len() > 0,
            start <= v@.len(),
            replace_all(v@, f@, t@) == r@ + replace_all(v@.skip(start as int), f@, t@),
        ensures
            replace_all(v@, f@, t@) == r@,
        decreases v@.len() - start,
    {
        let ghost rest = v@.skip(start as int);
        match find_sub_from(v, f, start) {
            None => {
                let tail = slice_vec(v, start, v.len());
                assert(tail@ =~= rest);
                let ghost prev = r@;
                append_vec(&mut r, &tail);
                break;
            },
            Some(i) => {
                let piece = slice_vec(v, start, i);
                assert(piece@ =~= rest.take(i - start));
                assert(rest.skip(i - start + f@.len()) =~= v@.skip(i + f@.len()));
                let ghost prev = r@;
                append_vec(&mut r, &piece);
                append_vec(&mut r, t);
                assert(r@ =~= prev + rest.take(i - start) + t@);
                start = i + f.len();
            },
        }
    }
    r
}

/// Appends all of `b` to `a`.
pub fn append_vec(a: &mut Vec<char>, b: &Vec<char>)
    ensures
        final(a)@ == old(a)@ + b@,
{
    let mut k: usize = 0;
    let ghost a0 = a@;
    while k < b.len()
        invariant
            k <= b@.len(),
            a@ == a0 + b@.take(k as int),
        decreases b@.len() - k,
    {
        a.push(b[k]);
        k = k + 1;
        assert(a@ =~= a0 + b@.take(k as int));
    }
    assert(b@.take(b@.len() as int) =~= b@);
}


/// The ASCII digit for `d` (`0 <= d < 10`).
pub open spec fn digit_char(d: int) -> char {
    (d + 48) as char
}

/// Decimal representation of a natural number (as `Display` prints it).
pub open spec fn dec_nat(n: nat) -> Seq<char>
    decreases n,
{
    if n < 10 {
        seq![digit_char(n as int)]
    } else {
        dec_nat(n / 10).push(digit_char((n % 10) as int))
    }
}

/// The decimal representation of `n` is a non-empty run of digits whose
/// value is `n`.
pub proof fn lemma_dec_nat_digits(n: nat)
    ensures
        dec_nat(n).len() > 0,
        all_digits(dec_nat(n)),
        digits_value(dec_nat(n)) == n,
    decreases n,
{
    let s = dec_nat(n);
    if n < 10 {
        assert((digit_char(n as int) as int) == n + 48);
        assert(s.drop_last() =~= Seq::<char>::empty());
        assert(digits_value(s) == digits_value(Seq::<char>::empty()) * 10 + ((s.last() as int) - 48) as nat);
    } else {
        lemma_dec_nat_digits(n / 10);
        let d = digit_char((n % 10) as int);
        assert((d as int) == (n % 10) + 48);
        assert(s == dec_nat(n / 10).push(d));
        assert(s.drop_last() =~= dec_nat(n / 10));
        assert((n / 10) * 10 + n % 10 == n);
        assert(s.last() == d);
        assert(digits_value(s) == digits_value(dec_nat(n / 10)) * 10 + ((d as int) - 48) as nat);
        assert forall|i: int| 0 <= i < s.len() implies '0' <= #[trigger] s[i] <= '9' by {
            if i < s.len() - 1 {
                assert(s[i] == dec_nat(n / 10)[i]);
            }
        }
    }
}

/// Decimal representation of an integer (as `Display` prints it).
pub open spec fn dec_int(i: int) -> Seq<char> {
    if i < 0 {
        seq!['-'] + dec_nat((-i) as nat)
    } else {
        dec_nat(i as nat)
    }
}

fn digit(d: u64) -> (c: char)
    requires
        d < 10,
    ensures
        c == digit_char(d as int),
{
    match d {
        0 => '0',
        1 => '1',
        2 => '2',
        3 => '3',
        4 => '4',
        5 => '5',
        6 => '6',
        7 => '7',
        8 => '8',
        _ => '9',
    }
}

/// Appends the decimal representation of `n` to `s`.
pub fn push_dec(s: &mut String, n: u64)
    ensures
        final(s)@ == old(s)@ + dec_nat(n as nat),
    decreases n,
{
    if n >= 10 {
        push_dec(s, n / 10);
    }
    let c = digit(n % 10);
    push_char(s, c);
    assert(s@ =~= old(s)@ + dec_nat(n as nat));
}

/// Appends the decimal representation of `i` to `s`.
pub fn push_int(s: &mut String, i: i64)
    ensures
        final(s)@ == old(s)@ + dec_int(i as int),
{
    if i < 0 {
        push_char(s, '-');
        let m: u64 = if i == i64::MIN {
            9223372036854775808u64
        } else {
            (-i) as u64
        };
        push_dec(s, m);
        assert(s@ =~= old(s)@ + dec_int(i as int));
    } else {
        push_dec(s, i as u64);
    }
}

/// ASCII lower-casing of a single character (`char::to_ascii_lowercase`).
pub open spec fn ascii_lower(c: char) -> char {
    if 'A' <= c <= 'Z' {
        ((c as u32) + 32) as char
    } else {
        c
    }
}

/// `str::eq_ignore_ascii_case`.
pub open spec fn eq_ignore_ascii_case(a: Seq<char>, b: Seq<char>) -> bool {
    a.len() == b.len() && forall|i: int| 0 <= i < a.len() ==> ascii_lower(#[trigger] a[i])
        == ascii_lower(b[i])
}

fn lower_ascii_char(c: char) -> (r: char)
    ensures
        r == ascii_lower(c),
{
    if 'A' <= c && c <= 'Z' {
        (((c as u32) + 32) as u8) as char
    } else {
        c
    }
}

/// `str::eq_ignore_ascii_case` on character vectors.
pub fn eq_ignore_case_vec(a: &Vec<char>, b: &Vec<char>) -> (r: bool)
    ensures
        r == eq_ignore_ascii_case(a@, b@),
{
    if a.len() != b.len() {
        return false;
    }
    let mut i: usize = 0;
    while i < a.len()
        invariant
            a@.len() == b@.len(),
            i <= a@.len(),
            forall|j: int| 0 <= j < i ==> ascii_lower(#[trigger] a@[j]) == ascii_lower(b@[j]),
        decreases a@.len() - i,
    {
        if lower_ascii_char(a[i]) != lower_ascii_char(b[i]) {
            return false;
        }
        i = i + 1;
    }
    true
}

/// Whether two character vectors are equal.
pub fn eq_vec(a: &Vec<char>, b: &Vec<char>) -> (r: bool)
    ensures
        r == (a@ == b@),
{
    if a.len() != b.len() {
        return false;
    }
    let mut i: usize = 0;
    while i < a.len()
        invariant
            a@.len() == b@.len(),
            i <= a@.len(),
            forall|j: int| 0 <= j < i ==> a@[j] == b@[j],
        decreases a@.len() - i,
    {
        if a[i] != b[i] {
            return false;
        }
        i = i + 1;
    }
    assert(a@ =~= b@);
    true
}

/// Whether a string is empty.
pub fn str_is_empty(s: &str) -> (r: bool)
    ensures
        r == (s@.len() == 0),
{
    chars_of(s).len() == 0
}

/// Whether two strings are equal (`str == str`).
pub fn str_eq(a: &str, b: &str) -> (r: bool)
    ensures
        r == (a@ == b@),
{
    let x = chars_of(a);
    let y = chars_of(b);
    eq_vec(&x, &y)
}

/// Full Unicode lower-casing as performed by `str::to_lowercase`.
pub uninterp spec fn unicode_lower(s: Seq<char>) -> Seq<char>;

/// `str::to_lowercase`: the Unicode lower-case mapping of `s`; the mapping
/// itself (Unicode's case tables) is named, not restated.
#[verifier::external_body]
pub(crate) fn to_lowercase(s: &str) -> (r: String)
    ensures
        r@ == unicode_lower(s@),
{
    s.to_lowercase()
}

/// Whether `p` occurs anywhere in `s` (`str::contains`).
pub open spec fn contains_sub(s: Seq<char>, p: Seq<char>) -> bool {
    find_sub(s, p) >= 0
}

/// Whether `p` occurs in `v`.
pub fn contains_vec(v: &Vec<char>, p: &Vec<char>) -> (r: bool)
    ensures
        r == contains_sub(v@, p@),
{
    assert(v@.skip(0) =~= v@);
    find_sub_from(v, p, 0).is_some()
}

/// Whether `v` starts with `p`.
pub fn starts_with_vec(v: &Vec<char>, p: &Vec<char>) -> (r: bool)
    ensures
        r == has_prefix(v@, p@),
{
    let r = matches_at(v, p, 0);
    assert(v@.subrange(0, p@.len() as int) =~= v@.take(p@.len() as int));
    r
}

/// Whether `v` ends with `p`.
pub fn ends_with_vec(v: &Vec<char>, p: &Vec<char>) -> (r: bool)
    ensures
        r == has_suffix(v@, p@),
{
    if p.len() > v.len() {
        return false;
    }
    let r = matches_at(v, p, v.len() - p.len());
    assert(v@.subrange(v@.len() - p@.len(), v@.len() as int) =~= v@.skip(v@.len() - p@.len()));
    r
}


/// Index of the last element of `s` satisfying `p`, or `-1`.
pub open spec fn last_where(s: Seq<char>, p: spec_fn(char) -> bool) -> int
    decreases s.len(),
{
    if s.len() == 0 {
        -1
    } else if p(s.last()) {
        s.len() - 1
    } else {
        last_where(s.drop_last(), p)
    }
}

pub proof fn lemma_last_where(s: Seq<char>, p: spec_fn(char) -> bool)
    ensures
        -1 <= last_where(s, p) < s.len(),
        last_where(s, p) >= 0 ==> p(s[last_where(s, p)]),
        forall|j: int| last_where(s, p) < j < s.len() ==> !p(#[trigger] s[j]),
    decreases s.len(),
{
    if s.len() > 0 && !p(s.last()) {
        lemma_last_where(s.drop_last(), p);
        assert forall|j: int| last_where(s, p) < j < s.len() implies !p(#[trigger] s[j]) by {
            if j < s.len() - 1 {
                assert(s[j] == s.drop_last()[j]);
            }
        }
    }
}

/// Index of the last occurrence of `c` in `v`, if any.
pub fn rfind_char(v: &Vec<char>, c: char) -> (r: Option<usize>)
    ensures
        match r {
            None => last_where(v@, eq_pred(c)) == -1,
            Some(i) => i == last_where(v@, eq_pred(c)) && i < v@.len(),
        },
{
    let mut i = v.len();
    assert(v@.take(v@.len() as int) =~= v@);
    while i > 0
        invariant
            i <= v@.len(),
            last_where(v@, eq_pred(c)) == last_where(v@.take(i as int), eq_pred(c)),
        decreases i,
    {
        let ghost t = v@.take(i as int);
        if v[i - 1] == c {
            return Some(i - 1);
        }
        assert(t.drop_last() =~= v@.take(i - 1));
        i = i - 1;
    }
    None
}


/// Lexicographic order on character sequences (the order of `str`/`String`).
pub open spec fn lex_lt(a: Seq<char>, b: Seq<char>) -> bool
    decreases a.len(),
{
    if a.len() == 0 {
        b.len() > 0
    } else if b.len() == 0 {
        false
    } else if a[0] == b[0] {
        lex_lt(a.drop_first(), b.drop_first())
    } else {
        (a[0] as int) < (b[0] as int)
    }
}

pub proof fn lemma_lex_irrefl(a: Seq<char>)
    ensures
        !lex_lt(a, a),
    decreases a.len(),
{
    if a.len() > 0 {
        lemma_lex_irrefl(a.drop_first());
    }
}

pub proof fn lemma_lex_trans(a: Seq<char>, b: Seq<char>, c: Seq<char>)
    requires
        lex_lt(a, b),
        lex_lt(b, c),
    ensures
        lex_lt(a, c),
    decreases a.len(),
{
    if a.len() > 0 && b.len() > 0 && c.len() > 0 {
        if a[0] == b[0] && b[0] == c[0] {
            lemma_lex_trans(a.drop_first(), b.drop_first(), c.drop_first());
        }
    }
}

pub proof fn lemma_lex_total(a: Seq<char>, b: Seq<char>)
    requires
        a != b,
    ensures
        lex_lt(a, b) || lex_lt(b, a),
    decreases a.len(),
{
    if a.len() > 0 && b.len() > 0 && a[0] == b[0] {
        if a.drop_first() == b.drop_first() {
            assert(a =~= seq![a[0]] + a.drop_first());
            assert(b =~= seq![b[0]] + b.drop_first());
        }
        lemma_lex_total(a.drop_first(), b.drop_first());
    } else if a.len() == 0 && b.len() == 0 {
        assert(a =~= b);
    }

}

pub proof fn lemma_lex_asym(a: Seq<char>, b: Seq<char>)
    requires
        lex_lt(a, b),
    ensures
        !lex_lt(b, a),
{
    if lex_lt(b, a) {
        lemma_lex_trans(a, b, a);
        lemma_lex_irrefl(a);
    }
}

/// `a < b` in the order of `str`.
pub fn lex_less(a: &Vec<char>, b: &Vec<char>) -> (r: bool)
    ensures
        r == lex_lt(a@, b@),
{
    let mut i: usize = 0;
    assert(a@.skip(0) =~= a@);
    assert(b@.skip(0) =~= b@);
    while i < a.len() && i < b.len() && a[i] == b[i]
        invariant
            i <= a@.len(),
            i <= b@.len(),
            lex_lt(a@, b@) == lex_lt(a@.skip(i as int), b@.skip(i as int)),
        decreases a@.len() - i,
    {
        proof {
            let sa = a@.skip(i as int);
            let sb = b@.skip(i as int);
            assert(sa.drop_first() =~= a@.skip(i + 1));
            assert(sb.drop_first() =~= b@.skip(i + 1));
        }
        i = i + 1;
    }
    if i == a.len() {
        i < b.len()
    } else if i == b.len() {
        false
    } else {
        assert(a@.skip(i as int)[0] == a@[i as int]);
        assert(b@.skip(i as int)[0] == b@[i as int]);
        a[i] < b[i]
    }
}

/// The views of a vector of character-vector pairs.
pub open spec fn pair_views(v: Seq<(Vec<char>, Vec<char>)>) -> Seq<(Seq<char>, Seq<char>)> {
    v.map_values(|e: (Vec<char>, Vec<char>)| (e.0@, e.1@))
}

/// Keys strictly increase along `es`.
pub open spec fn sorted_by_key(es: Seq<(Seq<char>, Seq<char>)>) -> bool {
    forall|i: int, j: int| 0 <= i < j < es.len() ==> lex_lt(es[i].0, es[j].0)
}

/// Sort key/value pairs with distinct keys into increasing key order.
pub fn sort_pairs(v: Vec<(Vec<char>, Vec<char>)>) -> (r: Vec<(Vec<char>, Vec<char>)>)
    requires
        forall|i: int, j: int|
            0 <= i < j < v@.len() ==> pair_views(v@)[i].0 != pair_views(v@)[j].0,
    ensures
        r@.len() == v@.len(),
        sorted_by_key(pair_views(r@)),
        forall|e: (Seq<char>, Seq<char>)|
            pair_views(v@).contains(e) <==> pair_views(r@).contains(e),
{
    let ghost orig = pair_views(v@);
    let mut items = v;
    let mut out: Vec<(Vec<char>, Vec<char>)> = Vec::new();
    while items.len() > 0
        invariant
            out@.len() + items@.len() == orig.len(),
            sorted_by_key(pair_views(out@)),
            forall|i: int, j: int|
                0 <= i < out@.len() && 0 <= j < items@.len() ==> lex_lt(
                    #[trigger] pair_views(out@)[i].0,
                    #[trigger] pair_views(items@)[j].0,
                ),
            forall|i: int, j: int|
                0 <= i < j < items@.len() ==> pair_views(items@)[i].0 != pair_views(items@)[j].0,
            forall|e: (Seq<char>, Seq<char>)|
                orig.contains(e) <==> (pair_views(out@).contains(e) || pair_views(
                    items@,
                ).contains(e)),
        decreases items@.len(),
    {
        let ghost iv = pair_views(items@);
        let mut m: usize = 0;
        let mut j: usize = 1;
        while j < items.len()
            invariant
                iv == pair_views(items@),
                items@.len() > 0,
                m < items@.len(),
                1 <= j <= items@.len(),
                m < j,
                forall|k: int| 0 <= k < j && k != m ==> lex_lt(iv[m as int].0, #[trigger] iv[k].0),
                forall|i: int, k: int| 0 <= i < k < items@.len() ==> iv[i].0 != iv[k].0,
            decreases items@.len() - j,
        {
            if lex_less(&items[j].0, &items[m].0) {
                proof {
                    assert forall|k: int| 0 <= k < j + 1 && k != j implies lex_lt(
                        iv[j as int].0,
                        #[trigger] iv[k].0,
                    ) by {
                        if k != m {
                            lemma_lex_trans(iv[j as int].0, iv[m as int].0, iv[k].0);
                        }
                    }
                }
                m = j;
            } else {
                proof {
                    lemma_lex_total(iv[m as int].0, iv[j as int].0);
                }
            }
            j = j + 1;
        }
        let ghost ov = pair_views(out@);
        let x = items.remove(m);
        proof {
            assert(pair_views(items@) =~= iv.remove(m as int));
        }
        out.push(x);
        proof {
            let nov = pair_views(out@);
            let niv = pair_views(items@);
            assert(nov =~= ov.push(iv[m as int]));
            assert forall|i: int, k: int|
                0 <= i < nov.len() && 0 <= k < niv.len() implies lex_lt(
                #[trigger] nov[i].0,
                #[trigger] niv[k].0,
            ) by {
                let kk = if k < m { k } else { k + 1 };
                assert(niv[k] == iv[kk]);
                if i < ov.len() {
                    assert(lex_lt(ov[i].0, iv[kk].0));
                }
            }
            assert forall|i: int, k: int| 0 <= i < k < nov.len() implies lex_lt(
                nov[i].0,
                nov[k].0,
            ) by {
                if k == nov.len() - 1 {
                    assert(lex_lt(ov[i].0, iv[m as int].0));
                }
            }
            assert forall|e: (Seq<char>, Seq<char>)|
                orig.contains(e) <==> (nov.contains(e) || niv.contains(e)) by {
                if iv.contains(e) {
                    let k = choose|k: int| 0 <= k < iv.len() && iv[k] == e;
                    if k == m {
                        assert(nov[nov.len() - 1] == e);
                    } else if k < m {
                        assert(niv[k] == e);
                    } else {
                        assert(niv[k - 1] == e);
                    }
                }
                if ov.contains(e) {
                    let k = choose|k: int| 0 <= k < ov.len() && ov[k] == e;
                    assert(nov[k] == e);
                }
                if nov.contains(e) {
                    let k = choose|k: int| 0 <= k < nov.len() && nov[k] == e;
                    if k < ov.len() {
                        assert(ov[k] == e);
                    } else {
                        assert(iv[m as int] == e);
                    }
                }
                if niv.contains(e) {
                    let k = choose|k: int| 0 <= k < niv.len() && niv[k] == e;
                    if k < m {
                        assert(iv[k] == e);
                    } else {
                        assert(iv[k + 1] == e);
                    }
                }
            }
            assert forall|i: int, k: int| 0 <= i < k < niv.len() implies niv[i].0 != niv[k].0 by {
                let ii = if i < m { i } else { i + 1 };
                let kk = if k < m { k } else { k + 1 };
                assert(niv[i] == iv[ii]);
                assert(niv[k] == iv[kk]);
            }
        }
    }
    out
}


/// `parts.join(sep)`.
pub open spec fn join(parts: Seq<Seq<char>>, sep: Seq<char>) -> Seq<char>
    decreases parts.len(),
{
    if parts.len() == 0 {
        Seq::empty()
    } else if parts.len() == 1 {
        parts[0]
    } else {
        join(parts.drop_last(), sep) + sep + parts.last()
    }
}

/// `parts.join(sep)` on character vectors.
pub fn join_vecs(parts: &Vec<Vec<char>>, sep: &Vec<char>) -> (r: Vec<char>)
    ensures
        r@ == join(views(parts@), sep@),
{
    let mut r: Vec<char> = Vec::new();
    let mut i: usize = 0;
    let ghost ps = views(parts@);
    while i < parts.len()
        invariant
            ps == views(parts@),
            i <= parts@.len(),
            r@ == join(ps.take(i as int), sep@),
        decreases parts@.len() - i,
    {
        if i > 0 {
            append_vec(&mut r, sep);
        }
        append_vec(&mut r, &parts[i]);
        assert(ps.take(i + 1).drop_last() =~= ps.take(i as int));
        assert(ps[i as int] == parts@[i as int]@);
        i = i + 1;
    }
    assert(ps.take(parts@.len() as int) =~= ps);
    r
}

/// The non-empty pieces of `parts`, in order.
pub open spec fn non_empty(parts: Seq<Seq<char>>) -> Seq<Seq<char>>
    decreases parts.len(),
{
    if parts.len() == 0 {
        Seq::empty()
    } else if parts.last().len() == 0 {
        non_empty(parts.drop_last())
    } else {
        non_empty(parts.drop_last()).push(parts.last())
    }
}

/// The non-empty pieces of a vector of pieces.
pub fn non_empty_vecs(parts: Vec<Vec<char>>) -> (r: Vec<Vec<char>>)
    ensures
        views(r@) == non_empty(views(parts@)),
{
    let mut r: Vec<Vec<char>> = Vec::new();
    let mut parts = parts;
    let ghost ps = views(parts@);
    let n = parts.len();
    let mut i: usize = 0;
    let mut rest: Vec<Vec<char>> = Vec::new();
    while i < n
        invariant
            n == parts@.len(),
            ps == views(parts@),
            i <= n,
            views(r@) == non_empty(ps.take(i as int)),
        decreases n - i,
    {
        let p = parts[i].clone();
        assert(p@ == ps[i as int]);
        assert(ps.take(i + 1).drop_last() =~= ps.take(i as int));
        if p.len() > 0 {
            let ghost prev = r@;
            r.push(p);
            assert(views(r@) =~= views(prev).push(ps[i as int]));
        }
        i = i + 1;
    }
    assert(ps.take(n as int) =~= ps);
    r
}


/// `l` without one trailing carriage return.
pub open spec fn strip_cr(l: Seq<char>) -> Seq<char> {
    if l.len() > 0 && l.last() == '\r' {
        l.drop_last()
    } else {
        l
    }
}

/// `str::lines`: the pieces between `\n`s (a final empty piece dropped),
/// each line that ended in `\n` also losing a trailing `\r`.
pub open spec fn lines_spec(s: Seq<char>) -> Seq<Seq<char>> {
    let parts = split_on(s, '\n');
    let body = if parts.len() > 0 && parts.last().len() == 0 {
        parts.drop_last()
    } else {
        parts
    };
    Seq::new(
        body.len(),
        |i: int|
            if i < parts.len() - 1 {
                strip_cr(body[i])
            } else {
                body[i]
            },
    )
}

/// `str::lines` on a character vector.
pub fn lines_of(v: &Vec<char>) -> (r: Vec<Vec<char>>)
    ensures
        views(r@) == lines_spec(v@),
{
    let parts = split_chars(v, '\n');
    let ghost ps = views(parts@);
    let n = parts.len();
    let m = if n > 0 && parts[n - 1].len() == 0 {
        n - 1
    } else {
        n
    };
    let mut r: Vec<Vec<char>> = Vec::new();
    let mut i: usize = 0;
    while i < m
        invariant
            ps == views(parts@),
            ps == split_on(v@, '\n'),
            n == parts@.len(),
            m == if n > 0 && ps[n - 1].len() == 0 { n - 1 } else { n as int },
            m <= n,
            i <= m,
            views(r@) == lines_spec(v@).take(i as int),
            lines_spec(v@).len() == m,
        decreases m - i,
    {
        let p = &parts[i];
        let l = if i + 1 < n && p.len() > 0 && p[p.len() - 1] == '\r' {
            slice_vec(p, 0, p.len() - 1)
        } else {
            slice_vec(p, 0, p.len())
        };
        proof {
            assert(ps[i as int] == p@);
            if i + 1 < n && p@.len() > 0 && p@.last() == '\r' {
                assert(l@ =~= p@.drop_last());
            } else {
                assert(l@ =~= p@);
            }
            let body = if ps.len() > 0 && ps.last().len() == 0 {
                ps.drop_last()
            } else {
                ps
            };
            assert(body[i as int] == ps[i as int]);
            assert(l@ == lines_spec(v@)[i as int]);
        }
        let ghost prev = r@;
        r.push(l);
        assert(views(r@) =~= views(prev).push(l@));
        assert(views(r@) =~= lines_spec(v@).take(i + 1));
        i = i + 1;
    }
    assert(lines_spec(v@).take(m as int) =~= lines_spec(v@));
    r
}


/// No element of `s` is greater than a later one.
pub open spec fn seq_sorted(s: Seq<Seq<char>>) -> bool {
    forall|i: int, j: int| 0 <= i < j < s.len() ==> !lex_lt(s[j], s[i])
}

/// Sort strings into the order of `str` (the multiset of strings is kept).
pub fn sort_strings(v: &Vec<String>) -> (r: Vec<String>)
    ensures
        str_views(r@).to_multiset() == str_views(v@).to_multiset(),
        seq_sorted(str_views(r@)),
{
    broadcast use vstd::seq_lib::to_multiset_build, vstd::seq_lib::to_multiset_insert;

    let mut out: Vec<String> = Vec::new();
    let mut i: usize = 0;
    assert(str_views(v@.take(0)) =~= Seq::<Seq<char>>::empty());
    assert(str_views(out@) =~= Seq::<Seq<char>>::empty());
    while i < v.len()
        invariant
            i <= v@.len(),
            str_views(out@).to_multiset() == str_views(v@.take(i as int)).to_multiset(),
            seq_sorted(str_views(out@)),
        decreases v@.len() - i,
    {
        let x = v[i].clone();
        let xv = chars_of(x.as_str());
        let mut p: usize = 0;
        let mut found = false;
        while p < out.len() && !found
            invariant
                p <= out@.len(),
                xv@ == x@,
                found ==> p < out@.len() && lex_lt(x@, out@[p as int]@),
                forall|a: int| 0 <= a < p ==> !lex_lt(x@, out@[a]@),
            decreases out@.len() - p + if found {
                0int
            } else {
                1int
            },
        {
            let ov = chars_of(out[p].as_str());
            if lex_less(&xv, &ov) {
                found = true;
            } else {
                p = p + 1;
            }
        }
        let ghost prev = str_views(out@);
        proof {
            assert forall|a: int| p <= a < prev.len() implies lex_lt(x@, prev[a]) by {
                if a > p {
                    assert(!lex_lt(prev[a], prev[p as int]));
                    if prev[p as int] != prev[a] {
                        lemma_lex_total(prev[p as int], prev[a]);
                        lemma_lex_trans(x@, prev[p as int], prev[a]);
                    }
                }
            }
        }
        out.insert(p, x);
        proof {
            let ns = str_views(out@);
            assert(ns =~= prev.insert(p as int, x@));
            assert forall|a: int, b: int| 0 <= a < b < ns.len() implies !lex_lt(ns[b], ns[a]) by {
                if a < p && b < p {
                    assert(ns[a] == prev[a] && ns[b] == prev[b]);
                } else if a < p && b == p {
                    assert(ns[a] == prev[a]);
                } else if a < p {
                    assert(ns[a] == prev[a] && ns[b] == prev[b - 1]);
                } else if a == p {
                    assert(ns[b] == prev[b - 1]);
                    lemma_lex_asym(x@, prev[b - 1]);
                } else {
                    assert(ns[a] == prev[a - 1] && ns[b] == prev[b - 1]);
                }
            }
            assert(str_views(v@.take(i + 1)) =~= str_views(v@.take(i as int)).push(x@));
            vstd::seq_lib::to_multiset_insert(prev, p as int, x@);
            vstd::seq_lib::to_multiset_build(str_views(v@.take(i as int)), x@);
        }
        i = i + 1;
    }
    assert(v@.take(v@.len() as int) =~= v@);
    out
}

/// The value of a string of decimal digits.
pub open spec fn digits_value(s: Seq<char>) -> nat
    decreases s.len(),
{
    if s.len() == 0 {
        0
    } else {
        digits_value(s.drop_last()) * 10 + ((s.last() as int) - 48) as nat
    }
}

/// Every character of `s` is an ASCII digit.
pub open spec fn all_digits(s: Seq<char>) -> bool {
    forall|i: int| 0 <= i < s.len() ==> '0' <= #[trigger] s[i] <= '9'
}

/// What `str::parse::<usize>` accepts: an optional `+`, then one or more
/// ASCII digits whose value fits in `usize`; that value.
pub open spec fn parse_usize_spec(s: Seq<char>) -> Option<usize> {
    let d = if s.len() > 0 && s[0] == '+' {
        s.drop_first()
    } else {
        s
    };
    if d.len() > 0 && all_digits(d) && digits_value(d) <= usize::MAX {
        Some(digits_value(d) as usize)
    } else {
        None
    }
}

/// The value of a run of digits is at least the value of any start of it.
proof fn lemma_digits_value_prefix(d: Seq<char>, k: int)
    requires
        all_digits(d),
        0 <= k <= d.len(),
    ensures
        digits_value(d.take(k)) <= digits_value(d),
    decreases d.len(),
{
    if k < d.len() {
        let init = d.drop_last();
        assert forall|i: int| 0 <= i < init.len() implies '0' <= #[trigger] init[i] <= '9' by {
            assert(init[i] == d[i]);
        }
        lemma_digits_value_prefix(init, k);
        assert(init.take(k) =~= d.take(k));
        assert('0' <= d[d.len() - 1] <= '9');
        assert(digits_value(d) == digits_value(init) * 10 + ((d.last() as int) - 48) as nat);
    } else {
        assert(d.take(k) =~= d);
    }
}

/// `str::parse::<usize>` with the error as `None`: an optional `+`, then
/// one or more ASCII digits whose value fits in `usize`.
pub(crate) fn parse_usize(s: &str) -> (r: Option<usize>)
    ensures
        r == parse_usize_spec(s@),
{
    let v = chars_of(s);
    let start: usize = if v.len() > 0 && v[0] == '+' { 1 } else { 0 };
    let ghost d = if s@.len() > 0 && s@[0] == '+' { s@.drop_first() } else { s@ };
    assert(d =~= v@.skip(start as int));
    if start >= v.len() {
        return None;
    }
    let mut acc: usize = 0;
    let mut i: usize = start;
    assert(d.take(0) =~= Seq::<char>::empty());
    while i < v.len()
        invariant
            start <= i <= v@.len(),
            d == v@.skip(start as int),
            d.len() > 0,
            all_digits(d.take(i - start)),
            acc == digits_value(d.take(i - start)),
            parse_usize_spec(s@) == (if all_digits(d) && digits_value(d) <= usize::MAX {
                Some(digits_value(d) as usize)
            } else {
                None::<usize>
            }),
        decreases v@.len() - i,
    {
        let c = v[i];
        let ghost k = (i - start) as int;
        assert(d[k] == c);
        if !('0' <= c && c <= '9') {
            assert(!all_digits(d));
            return None;
        }
        let dig = ((c as u32) - 48) as usize;
        let ghost next = d.take(k + 1);
        assert(next.drop_last() =~= d.take(k));
        assert(next.last() == c);
        assert(digits_value(next) == acc * 10 + dig);
        if acc > (usize::MAX - dig) / 10 {
            proof {
                assert(acc * 10 + dig > usize::MAX) by (nonlinear_arith)
                    requires
                        acc > (usize::MAX - dig) / 10,
                        dig <= 9,
                ;
                if all_digits(d) {
                    lemma_digits_value_prefix(d, k + 1);
                }
            }
            return None;
        }
        assert(acc * 10 + dig <= usize::MAX) by (nonlinear_arith)
            requires
                acc <= (usize::MAX - dig) / 10,
                dig <= 9,
        ;
        acc = acc * 10 + dig;
        assert forall|j: int| 0 <= j < next.len() implies '0' <= #[trigger] next[j] <= '9' by {
            if j < k {
                assert(next[j] == d.take(k)[j]);
            }
        }
        i = i + 1;
    }
    assert(d.take(d.len() as int) =~= d);
    Some(acc)
}

} // verus!
