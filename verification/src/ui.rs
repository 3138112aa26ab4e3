//! Terminal interaction: the decisions behind the menus and the input line.
//! Printing and reading belong to the program.

use vstd::prelude::*;
use vstd::string::*;
use crate::text::{chars_of, parse_usize, parse_usize_spec, string_of, trim, trim_vec};

verus! {

/// The option picked by a menu answer: the 1-based number typed (spaces
/// around it ignored) if it names one of `count` options, as a 0-based
/// index.
pub open spec fn menu_pick(line: Seq<char>, count: nat) -> Option<usize> {
    match parse_usize_spec(trim(line)) {
        Some(n) => if 1 <= n <= count {
            Some((n - 1) as usize)
        } else {
            None
        },
        None => None,
    }
}

/// What a menu of `count` options makes of an answer: the chosen index,
/// or `None` for an invalid answer (the menu then asks again).
pub fn menu_choice(line: &str, count: usize) -> (r: Option<usize>)
    ensures
        r == menu_pick(line@, count as nat),
{
    let v = chars_of(line);
    let t = string_of(&trim_vec(&v));
    match parse_usize(t.as_str()) {
        Some(n) => if n >= 1 && n <= count {
            Some(n - 1)
        } else {
            None
        },
        None => None,
    }
}

/// `s` without its trailing `c` characters.
pub open spec fn strip_end(s: Seq<char>, c: char) -> Seq<char>
    decreases s.len(),
{
    if s.len() > 0 && s.last() == c {
        strip_end(s.drop_last(), c)
    } else {
        s
    }
}

fn strip_end_vec(v: &Vec<char>, c: char) -> (r: usize)
    ensures
        r <= v@.len(),
        v@.take(r as int) == strip_end(v@, c),
{
    let mut n = v.len();
    assert(v@.take(n as int) =~= v@);
    while n > 0 && v[n - 1] == c
        invariant
            n <= v@.len(),
            strip_end(v@.take(n as int), c) == strip_end(v@, c),
        decreases n,
    {
        assert(v@.take(n as int).drop_last() =~= v@.take(n - 1));
        n = n - 1;
    }
    proof {
        if n > 0 {
            assert(v@.take(n as int).last() == v@[n - 1]);
        }
    }
    n
}

/// The content of a line read from the terminal: without its trailing
/// `\n` characters, then without its trailing `\r` characters.
pub fn line_content(raw: &str) -> (r: String)
    ensures
        r@ == strip_end(strip_end(raw@, '\n'), '\r'),
{
    let v = chars_of(raw);
    let a = strip_end_vec(&v, '\n');
    let w = crate::text::slice_vec(&v, 0, a);
    assert(w@ =~= v@.take(a as int));
    let b = strip_end_vec(&w, '\r');
    let x = crate::text::slice_vec(&w, 0, b);
    assert(x@ =~= w@.take(b as int));
    string_of(&x)
}

} // verus!
