//! UI template system.
//!
//! A UI template controls how the player status bar is rendered.  Its
//! content is a list of lines:
//! - `---` is a horizontal separator (50 `─` characters);
//! - `${{ expr }}` renders an expression's value;
//! - `$RRGGBB{{ expr }}` renders it with a 24-bit foreground colour;
//! - `[ content ]` renders the line centred in the terminal width;
//! - `| col1 |-col2 |` is a table row: a cell starting with `-` is
//!   right-aligned, one ending with `-` left-aligned, others centred.

use vstd::prelude::*;
use vstd::string::*;
use crate::player::Player;
use crate::text::{
    chars_of, dec_int, dec_nat, eq_pred, eq_vec, find_char_from, find_sub,
    find_sub_from, first_where, has_prefix, has_suffix, lemma_find_sub, lemma_first_where,
    lines_of, lines_spec, push_char, push_dec, push_int, slice_vec, split_chars, split_on,
    string_of, trim, trim_vec, views, is_ws, trim_end, trim_start,
};
use unicode_width::UnicodeWidthChar;

verus! {

/// Terminal output width used for padding and separators.
pub const LINE_WIDTH: usize = 50;

/// The YAML source of the default UI template written to
/// `world/config/ui.yaml` on first launch.
pub const DEFAULT_UI_TEMPLATE: &'static str = r#"# UI 模板配置文件
# 修改此文件可自定义游戏界面。修改后自动生效。
#
# scope   - 生效路径前缀（"/" 表示所有区域）
# exclude - 不渲染此模板的路径列表（支持 * 通配符）
# env     - 变量绑定：短名称 → $player.<字段> 或 $CURRENT_AREA.<字段>
# include - 引入其他 UI 模板（同目录下的 .yaml 文件名，不含扩展名）
# content - 模板内容（支持下列语法）：
#   ---                  分割线
#   ${{ $var }}          渲染变量
#   $RRGGBB{{ $var }}    渲染变量并着色（十六进制颜色）
#   [ ${{ $var }} ]      居中显示整行
#   | col1 |-col2 |      表格行（-前缀右对齐，-后缀左对齐，否则居中）

scope: /
exclude: []
env:
  name: $player.name
  level: $player.level
  ch: $player.hp
  mh: $player.max_hp
  atk: $player.attack
  def: $player.defense
  exp: $player.exp
  next: $player.exp_to_next
  gold: $player.gold
content: |
  ---
  | ${{ $name }}  Lv.${{ $level }} |-❤️ $00ff00{{ $ch }}/${{ $mh }} |-⚔️${{ $atk }} 🛡️${{ $def }} |
  ---
  | 经验：${{ $exp }}/${{ $next }} |-$ffcc00{{ $gold }}g 💰 |
  ---
  [ ${{ $CURRENT_AREA.name }} ]
  ---
"#;

/// A parsed UI template.
#[derive(Clone, Debug)]
pub struct UiTemplate {
    /// Path scope: `"/"` matches every area (the default).
    pub scope: String,
    /// Glob-style path patterns to exclude from rendering.
    pub exclude: Vec<String>,
    /// Short variable name → `$player.<field>` / `$CURRENT_AREA.<field>` binding.
    pub env: Vec<(String, String)>,
    /// Names of other UI templates whose rendered output is substituted by name.
    pub include_names: Vec<String>,
    /// Multi-line template content.
    pub content: String,
}

/// Runtime data supplied when rendering a [`UiTemplate`].
pub struct UiContext<'a> {
    pub player: &'a Player,
    /// Name of the area the player is currently in.
    pub current_area: &'a str,
    /// Pre-rendered content of included templates, keyed by the name under which they are pulled in.
    pub includes: Vec<(String, String)>,
}

/// The scope a template gets when it names none.
pub fn default_scope() -> (r: String)
    ensures
        r@ == "/"@,
{
    String::from_str("/")
}

/// Key/value pairs as character sequences.
pub open spec fn kv_views(v: Seq<(String, String)>) -> Seq<(Seq<char>, Seq<char>)> {
    v.map_values(|e: (String, String)| (e.0@, e.1@))
}

/// The value of the first entry with key `k`.
pub open spec fn lookup(es: Seq<(Seq<char>, Seq<char>)>, k: Seq<char>) -> Option<Seq<char>>
    decreases es.len(),
{
    if es.len() == 0 {
        None
    } else if es[0].0 == k {
        Some(es[0].1)
    } else {
        lookup(es.drop_first(), k)
    }
}

/// Look up `k` among the pairs of `v`.
pub fn lookup_in<'a>(v: &'a Vec<(String, String)>, k: &Vec<char>) -> (r: Option<&'a String>)
    ensures
        match r {
            Some(s) => lookup(kv_views(v@), k@) == Some(s@),
            None => lookup(kv_views(v@), k@).is_none(),
        },
{
    let mut i: usize = 0;
    let ghost es = kv_views(v@);
    assert(es.skip(0) =~= es);
    while i < v.len()
        invariant
            es == kv_views(v@),
            i <= v@.len(),
            lookup(es, k@) == lookup(es.skip(i as int), k@),
        decreases v@.len() - i,
    {
        let key = chars_of(v[i].0.as_str());
        assert(es.skip(i as int)[0] == es[i as int]);
        if eq_vec(&key, k) {
            return Some(&v[i].1);
        }
        assert(es.skip(i as int).drop_first() =~= es.skip(i + 1));
        i = i + 1;
    }
    None
}

/// The rendering context as plain values.
pub struct CtxModel {
    pub player: Player,
    pub area: Seq<char>,
    pub includes: Seq<(Seq<char>, Seq<char>)>,
}

impl<'a> UiContext<'a> {
    /// The context as plain values.
    pub open spec fn model(&self) -> CtxModel {
        CtxModel { player: *self.player, area: self.current_area@, includes: kv_views(self.includes@) }
    }
}

/// `[?b]`, the text of an unknown binding.
pub open spec fn unknown(b: Seq<char>) -> Seq<char> {
    "[?"@ + b + "]"@
}

/// The value of a player field named `f` (after `$player.`), or `None`.
pub open spec fn player_field(p: Player, f: Seq<char>) -> Option<Seq<char>> {
    if f == "name"@ {
        Some(p.name@)
    } else if f == "level"@ {
        Some(dec_nat(p.level as nat))
    } else if f == "hp"@ || f == "currentHealth"@ || f == "current_health"@ {
        Some(dec_int(p.hp as int))
    } else if f == "max_hp"@ || f == "maxHp"@ || f == "health"@ {
        Some(dec_int(p.max_hp as int))
    } else if f == "attack"@ {
        Some(dec_int(p.attack as int))
    } else if f == "defense"@ {
        Some(dec_int(p.defense as int))
    } else if f == "exp"@ {
        Some(dec_nat(p.exp as nat))
    } else if f == "expToNext"@ || f == "exp_to_next"@ {
        Some(dec_nat(p.exp_to_next as nat))
    } else if f == "gold"@ {
        Some(dec_nat(p.gold as nat))
    } else if f == "currentMana"@ || f == "current_mana"@ || f == "mana"@ || f == "maxMana"@ || f
        == "max_mana"@ {
        Some("—"@)
    } else {
        None
    }
}

/// A `$player.` binding whose field name has no white space at its end
/// renders the player field of that name.
proof fn lemma_player_binding(f: Seq<char>, ctx: CtxModel)
    requires
        f.len() > 0,
        !is_ws(f.last()),
    ensures
        binding_spec("$player."@ + f, ctx) == match player_field(ctx.player, f) {
            Some(v) => v,
            None => unknown("$player."@ + f),
        },
{
    reveal_strlit("$player.");
    let b = "$player."@ + f;
    assert(b[0] == '$');
    assert(!is_ws(b[0]));
    assert(trim_start(b) == b);
    assert(b.last() == f.last());
    assert(trim_end(b) == b);
    assert(trim(b) == b);
    assert(b.take(8) =~= "$player."@);
    assert(b.skip(8) =~= f);
}

/// Each `$player.<field>` binding renders that field of the player: the
/// name as it is, the numbers in decimal.
pub proof fn law_player_bindings(ctx: CtxModel)
    ensures
        binding_spec("$player.name"@, ctx) == ctx.player.name@,
        binding_spec("$player.level"@, ctx) == dec_nat(ctx.player.level as nat),
        binding_spec("$player.hp"@, ctx) == dec_int(ctx.player.hp as int),
        binding_spec("$player.max_hp"@, ctx) == dec_int(ctx.player.max_hp as int),
        binding_spec("$player.attack"@, ctx) == dec_int(ctx.player.attack as int),
        binding_spec("$player.defense"@, ctx) == dec_int(ctx.player.defense as int),
        binding_spec("$player.exp"@, ctx) == dec_nat(ctx.player.exp as nat),
        binding_spec("$player.exp_to_next"@, ctx) == dec_nat(ctx.player.exp_to_next as nat),
        binding_spec("$player.gold"@, ctx) == dec_nat(ctx.player.gold as nat),
{
    reveal_strlit("$player.");
    reveal_strlit("name");
    reveal_strlit("level");
    reveal_strlit("hp");
    reveal_strlit("currentHealth");
    reveal_strlit("current_health");
    reveal_strlit("max_hp");
    reveal_strlit("maxHp");
    reveal_strlit("health");
    reveal_strlit("attack");
    reveal_strlit("defense");
    reveal_strlit("exp");
    reveal_strlit("expToNext");
    reveal_strlit("exp_to_next");
    reveal_strlit("gold");
    reveal_strlit("$player.name");
    reveal_strlit("$player.level");
    reveal_strlit("$player.hp");
    reveal_strlit("$player.max_hp");
    reveal_strlit("$player.attack");
    reveal_strlit("$player.defense");
    reveal_strlit("$player.exp");
    reveal_strlit("$player.exp_to_next");
    reveal_strlit("$player.gold");
    assert("$player.name"@ =~= "$player."@ + "name"@);
    assert("$player.level"@ =~= "$player."@ + "level"@);
    assert("$player.hp"@ =~= "$player."@ + "hp"@);
    assert("$player.max_hp"@ =~= "$player."@ + "max_hp"@);
    assert("$player.attack"@ =~= "$player."@ + "attack"@);
    assert("$player.defense"@ =~= "$player."@ + "defense"@);
    assert("$player.exp"@ =~= "$player."@ + "exp"@);
    assert("$player.exp_to_next"@ =~= "$player."@ + "exp_to_next"@);
    assert("$player.gold"@ =~= "$player."@ + "gold"@);
    lemma_player_binding("name"@, ctx);
    lemma_player_binding("level"@, ctx);
    lemma_player_binding("hp"@, ctx);
    lemma_player_binding("max_hp"@, ctx);
    lemma_player_binding("attack"@, ctx);
    lemma_player_binding("defense"@, ctx);
    lemma_player_binding("exp"@, ctx);
    lemma_player_binding("exp_to_next"@, ctx);
    lemma_player_binding("gold"@, ctx);
}

/// What [`resolve_binding`] returns.
pub open spec fn binding_spec(binding: Seq<char>, ctx: CtxModel) -> Seq<char> {
    let b = trim(binding);
    if has_prefix(b, "$player."@) {
        match player_field(ctx.player, b.skip("$player."@.len() as int)) {
            Some(v) => v,
            None => unknown(b),
        }
    } else if has_prefix(b, "$CURRENT_AREA."@) {
        if b.skip("$CURRENT_AREA."@.len() as int) == "name"@ {
            ctx.area
        } else {
            unknown(b)
        }
    } else {
        unknown(b)
    }
}

fn is_lit(v: &Vec<char>, lit: &str) -> (r: bool)
    ensures
        r == (v@ == lit@),
{
    let l = chars_of(lit);
    eq_vec(v, &l)
}

fn unknown_of(b: &Vec<char>) -> (r: String)
    ensures
        r@ == unknown(b@),
{
    let mut s = String::from_str("[?");
    let bs = string_of(b);
    s.append(bs.as_str());
    s.append("]");
    s
}

fn dec_string(n: u64) -> (r: String)
    ensures
        r@ == dec_nat(n as nat),
{
    let mut s = String::new();
    push_dec(&mut s, n);
    s
}

fn int_string(n: i64) -> (r: String)
    ensures
        r@ == dec_int(n as int),
{
    let mut s = String::new();
    push_int(&mut s, n);
    s
}

fn player_field_of(p: &Player, f: &Vec<char>) -> (r: Option<String>)
    ensures
        match r {
            Some(s) => player_field(*p, f@) == Some(s@),
            None => player_field(*p, f@).is_none(),
        },
{
    if is_lit(f, "name") {
        Some(p.name.clone())
    } else if is_lit(f, "level") {
        Some(dec_string(p.level as u64))
    } else if is_lit(f, "hp") || is_lit(f, "currentHealth") || is_lit(f, "current_health") {
        Some(int_string(p.hp as i64))
    } else if is_lit(f, "max_hp") || is_lit(f, "maxHp") || is_lit(f, "health") {
        Some(int_string(p.max_hp as i64))
    } else if is_lit(f, "attack") {
        Some(int_string(p.attack as i64))
    } else if is_lit(f, "defense") {
        Some(int_string(p.defense as i64))
    } else if is_lit(f, "exp") {
        Some(dec_string(p.exp as u64))
    } else if is_lit(f, "expToNext") || is_lit(f, "exp_to_next") {
        Some(dec_string(p.exp_to_next as u64))
    } else if is_lit(f, "gold") {
        Some(dec_string(p.gold as u64))
    } else if is_lit(f, "currentMana") || is_lit(f, "current_mana") || is_lit(f, "mana") || is_lit(
        f,
        "maxMana",
    ) || is_lit(f, "max_mana") {
        Some(String::from_str("—"))
    } else {
        None
    }
}

fn binding_of(bv: &Vec<char>, ctx: &UiContext) -> (r: String)
    ensures
        r@ == binding_spec(bv@, ctx.model()),
{
    let b = trim_vec(bv);
    let pp = chars_of("$player.");
    let ap = chars_of("$CURRENT_AREA.");
    if crate::text::starts_with_vec(&b, &pp) {
        let f = slice_vec(&b, pp.len(), b.len());
        assert(f@ =~= b@.skip("$player."@.len() as int));
        match player_field_of(ctx.player, &f) {
            Some(v) => v,
            None => unknown_of(&b),
        }
    } else if crate::text::starts_with_vec(&b, &ap) {
        let f = slice_vec(&b, ap.len(), b.len());
        assert(f@ =~= b@.skip("$CURRENT_AREA."@.len() as int));
        if is_lit(&f, "name") {
            String::from_str(ctx.current_area)
        } else {
            unknown_of(&b)
        }
    } else {
        unknown_of(&b)
    }
}

/// Resolve a `$player.<field>` or `$CURRENT_AREA.<field>` binding; anything
/// else renders as `[?binding]`.
pub fn resolve_binding(binding: &str, ctx: &UiContext) -> (r: String)
    ensures
        r@ == binding_spec(binding@, ctx.model()),
{
    let bv = chars_of(binding);
    binding_of(&bv, ctx)
}

/// What [`resolve_expr`] returns.
pub open spec fn expr_spec(expr: Seq<char>, env: Seq<(Seq<char>, Seq<char>)>, ctx: CtxModel) -> Seq<char> {
    let e = trim(expr);
    if has_prefix(e, "$"@) {
        match lookup(env, e.skip(1)) {
            Some(b) => binding_spec(b, ctx),
            None => binding_spec(e, ctx),
        }
    } else {
        match lookup(ctx.includes, e) {
            Some(x) => x,
            None => e,
        }
    }
}

fn expr_of(ev: &Vec<char>, env: &Vec<(String, String)>, ctx: &UiContext) -> (r: String)
    ensures
        r@ == expr_spec(ev@, kv_views(env@), ctx.model()),
{
    let e = trim_vec(ev);
    let dollar = chars_of("$");
    if crate::text::starts_with_vec(&e, &dollar) {
        proof {
            reveal_strlit("$");
        }
        let var = slice_vec(&e, 1, e.len());
        assert(var@ =~= e@.skip(1));
        match lookup_in(env, &var) {
            Some(b) => {
                let bv = chars_of(b.as_str());
                binding_of(&bv, ctx)
            },
            None => binding_of(&e, ctx),
        }
    } else {
        match lookup_in(&ctx.includes, &e) {
            Some(x) => x.clone(),
            None => string_of(&e),
        }
    }
}

/// Resolve an expression found inside `${{ … }}`: `$var` looks up `var` in
/// `env` and resolves that binding (or resolves `$var` itself as a binding
/// if `var` is not bound); a name of an included template gives its
/// rendered text; anything else is taken literally.
pub fn resolve_expr(expr: &str, env: &Vec<(String, String)>, ctx: &UiContext) -> (r: String)
    ensures
        r@ == expr_spec(expr@, kv_views(env@), ctx.model()),
{
    let ev = chars_of(expr);
    expr_of(&ev, env, ctx)
}

/// What [`ansi_color`] returns.
pub open spec fn ansi_spec(text: Seq<char>, r: u8, g: u8, b: u8) -> Seq<char> {
    "\x1b[38;2;"@ + dec_nat(r as nat) + ";"@ + dec_nat(g as nat) + ";"@ + dec_nat(b as nat) + "m"@
        + text + "\x1b[0m"@
}

/// Wrap `text` in 24-bit ANSI foreground colour escape codes.
pub fn ansi_color(text: &str, r: u8, g: u8, b: u8) -> (s: String)
    ensures
        s@ == ansi_spec(text@, r, g, b),
{
    let mut s = String::from_str("\x1b[38;2;");
    push_dec(&mut s, r as u64);
    s.append(";");
    push_dec(&mut s, g as u64);
    s.append(";");
    push_dec(&mut s, b as u64);
    s.append("m");
    s.append(text);
    s.append("\x1b[0m");
    s
}

/// `n` spaces.
pub open spec fn spaces(n: nat) -> Seq<char> {
    Seq::new(n, |i: int| ' ')
}

fn push_spaces(s: &mut String, n: usize)
    ensures
        final(s)@ == old(s)@ + spaces(n as nat),
{
    let mut i: usize = 0;
    while i < n
        invariant
            i <= n,
            s@ == old(s)@ + spaces(i as nat),
        decreases n - i,
    {
        push_char(s, ' ');
        i = i + 1;
        assert(s@ =~= old(s)@ + spaces(i as nat));
    }
}

/// `s` padded on the right with spaces to `width` columns, given that it
/// occupies `visible` columns.
pub fn pad_right(s: &str, visible: usize, width: usize) -> (r: String)
    ensures
        r@ == if visible >= width {
            s@
        } else {
            s@ + spaces((width - visible) as nat)
        },
{
    let mut r = String::from_str(s);
    if visible >= width {
        return r;
    }
    push_spaces(&mut r, width - visible);
    r
}

/// `s` padded on the left with spaces to `width` columns.
pub fn pad_left(s: &str, visible: usize, width: usize) -> (r: String)
    ensures
        r@ == if visible >= width {
            s@
        } else {
            spaces((width - visible) as nat) + s@
        },
{
    if visible >= width {
        return String::from_str(s);
    }
    let mut r = String::new();
    push_spaces(&mut r, width - visible);
    r.append(s);
    r
}

/// `s` centred in `width` columns (an odd leftover space goes right).
pub fn pad_center(s: &str, visible: usize, width: usize) -> (r: String)
    ensures
        r@ == if visible >= width {
            s@
        } else {
            spaces(((width - visible) / 2) as nat) + s@ + spaces(
                ((width - visible) - (width - visible) / 2) as nat,
            )
        },
{
    if visible >= width {
        return String::from_str(s);
    }
    let total = width - visible;
    let left = total / 2;
    let right = total - left;
    let mut r = String::new();
    push_spaces(&mut r, left);
    r.append(s);
    push_spaces(&mut r, right);
    r
}


/// Column width from the UAX #11 tables of `unicode-width`, for characters
/// from U+00A0 on.
pub uninterp spec fn uax11_width(c: char) -> usize;

/// `UnicodeWidthChar::width`: printable ASCII is one column wide, control
/// characters have no width, and the rest is looked up in the UAX #11 tables.
pub open spec fn char_width_spec(c: char) -> Option<usize> {
    let u = c as u32;
    if u < 0x20 {
        None
    } else if u < 0x7F {
        Some(1)
    } else if u < 0xA0 {
        None
    } else {
        Some(uax11_width(c))
    }
}

/// `UnicodeWidthChar::width` of `unicode-width`: `None` for control
/// characters (below U+0020 and U+007F..U+009F), 1 for printable ASCII,
/// otherwise the width from its tables (at most 3).  The table lookup
/// itself is named, not restated.
#[verifier::external_body]
fn char_width(c: char) -> (r: Option<usize>)
    ensures
        (c as u32) < 0x20 ==> r.is_none(),
        0x20 <= (c as u32) < 0x7F ==> r == Some(1usize),
        0x7F <= (c as u32) < 0xA0 ==> r.is_none(),
        (c as u32) >= 0xA0 ==> r == Some(uax11_width(c)),
        r matches Some(w) ==> w <= 3,
{
    UnicodeWidthChar::width(c)
}

/// Symbols one column wide by UAX #11 that terminals draw two wide when
/// followed by U+FE0F.
pub open spec fn emoji_candidate(u: u32) -> bool {
    ||| 0x2600 <= u <= 0x27BF
    ||| u == 0x00A9
    ||| u == 0x00AE
    ||| u == 0x203C
    ||| u == 0x2049
    ||| u == 0x2122
    ||| u == 0x2139
    ||| 0x2194 <= u <= 0x2199
    ||| 0x21A9 <= u <= 0x21AA
    ||| 0x231A <= u <= 0x231B
    ||| u == 0x2328
    ||| u == 0x23CF
    ||| 0x23E9 <= u <= 0x23FA
    ||| u == 0x24C2
    ||| 0x25AA <= u <= 0x25AB
    ||| u == 0x25B6
    ||| u == 0x25C0
    ||| 0x25FB <= u <= 0x25FE
    ||| 0x2934 <= u <= 0x2935
    ||| 0x2B05 <= u <= 0x2B07
    ||| 0x2B1B <= u <= 0x2B1C
    ||| u == 0x2B50
    ||| u == 0x2B55
    ||| u == 0x3030
    ||| u == 0x303D
    ||| u == 0x3297
    ||| u == 0x3299
}

fn is_emoji_candidate(u: u32) -> (r: bool)
    ensures
        r == emoji_candidate(u),
{
    (0x2600 <= u && u <= 0x27BF) || u == 0x00A9 || u == 0x00AE || u == 0x203C || u == 0x2049 || u
        == 0x2122 || u == 0x2139 || (0x2194 <= u && u <= 0x2199) || (0x21A9 <= u && u <= 0x21AA)
        || (0x231A <= u && u <= 0x231B) || u == 0x2328 || u == 0x23CF || (0x23E9 <= u && u
        <= 0x23FA) || u == 0x24C2 || (0x25AA <= u && u <= 0x25AB) || u == 0x25B6 || u == 0x25C0
        || (0x25FB <= u && u <= 0x25FE) || (0x2934 <= u && u <= 0x2935) || (0x2B05 <= u && u
        <= 0x2B07) || (0x2B1B <= u && u <= 0x2B1C) || u == 0x2B50 || u == 0x2B55 || u == 0x3030
        || u == 0x303D || u == 0x3297 || u == 0x3299
}

/// ASCII letter.
pub open spec fn is_ascii_alpha(c: char) -> bool {
    ('a' <= c <= 'z') || ('A' <= c <= 'Z')
}

/// The scan state after the characters of `s`: width so far, inside an
/// escape sequence, last character a one-column emoji candidate.
pub open spec fn width_state(s: Seq<char>) -> (int, bool, bool)
    decreases s.len(),
{
    if s.len() == 0 {
        (0, false, false)
    } else {
        let st = width_state(s.drop_last());
        let c = s.last();
        if st.1 {
            (st.0, !is_ascii_alpha(c), st.2)
        } else if c == '\x1b' {
            (st.0, true, false)
        } else if c == '\u{FE0F}' {
            (if st.2 {
                st.0 + 1
            } else {
                st.0
            }, false, false)
        } else {
            let w: int = match char_width_spec(c) {
                Some(x) => x as int,
                None => 0,
            };
            (st.0 + w, false, w == 1 && emoji_candidate(c as u32))
        }
    }
}

/// The visible terminal width of `s`: escape sequences take no room, and a
/// one-column emoji candidate followed by U+FE0F takes two.
pub open spec fn visible_width_spec(s: Seq<char>) -> int {
    width_state(s).0
}

fn width_of(v: &Vec<char>) -> (r: usize)
    requires
        3 * v@.len() <= usize::MAX,
    ensures
        r == visible_width_spec(v@),
{
    let mut width: usize = 0;
    let mut in_escape = false;
    let mut last_emoji = false;
    let mut i: usize = 0;
    while i < v.len()
        invariant
            3 * v@.len() <= usize::MAX,
            i <= v@.len(),
            width_state(v@.take(i as int)) == (width as int, in_escape, last_emoji),
            width <= 3 * i,
        decreases v@.len() - i,
    {
        let c = v[i];
        assert(v@.take(i + 1).drop_last() =~= v@.take(i as int));
        if in_escape {
            if ('a' <= c && c <= 'z') || ('A' <= c && c <= 'Z') {
                in_escape = false;
            }
        } else if c == '\x1b' {
            in_escape = true;
            last_emoji = false;
        } else if c == '\u{FE0F}' {
            if last_emoji {
                width = width + 1;
            }
            last_emoji = false;
        } else {
            let w = match char_width(c) {
                Some(x) => x,
                None => 0,
            };
            last_emoji = w == 1 && is_emoji_candidate(c as u32);
            width = width + w;
        }
        i = i + 1;
    }
    assert(v@.take(v@.len() as int) =~= v@);
    width
}

/// The visible terminal width of `s`, ignoring ANSI escape sequences and
/// widening symbol-plus-U+FE0F emoji to two columns.
pub fn visible_width(s: &str) -> (r: usize)
    requires
        3 * s@.len() <= usize::MAX,
    ensures
        r == visible_width_spec(s@),
{
    let v = chars_of(s);
    width_of(&v)
}


/// Hexadecimal digit.
pub open spec fn is_hex(c: char) -> bool {
    ('0' <= c <= '9') || ('a' <= c <= 'f') || ('A' <= c <= 'F')
}

/// The value of a hexadecimal digit.
pub open spec fn hex_val(c: char) -> int {
    if '0' <= c <= '9' {
        c as int - '0' as int
    } else if 'a' <= c <= 'f' {
        c as int - 'a' as int + 10
    } else {
        c as int - 'A' as int + 10
    }
}

/// `r` starts with `$RRGGBB{{`.
pub open spec fn color_open(r: Seq<char>) -> bool {
    r.len() >= 9 && is_hex(r[1]) && is_hex(r[2]) && is_hex(r[3]) && is_hex(r[4]) && is_hex(r[5])
        && is_hex(r[6]) && r[7] == '{' && r[8] == '{'
}

/// The byte whose value two hexadecimal digits spell.
pub open spec fn hex_byte(a: char, b: char) -> u8 {
    (hex_val(a) * 16 + hex_val(b)) as u8
}

/// What [`render_expressions`] makes of `rest`.
pub open spec fn render_spec(rest: Seq<char>, env: Seq<(Seq<char>, Seq<char>)>, ctx: CtxModel) -> Seq<char>
    decreases rest.len(),
{
    if rest.len() == 0 {
        Seq::empty()
    } else {
        let pos = first_where(rest, eq_pred('$'));
        proof {
            lemma_first_where(rest, eq_pred('$'));
        }
        if pos >= rest.len() {
            rest
        } else {
            let r = rest.skip(pos as int);
            let pre = rest.take(pos as int);
            let ca = r.skip(9);
            let pa = r.skip(3);
            if color_open(r) && find_sub(ca, "}}"@) >= 0 {
                let close = find_sub(ca, "}}"@);
                proof {
                    lemma_find_sub(ca, "}}"@);
                    reveal_strlit("}}");
                }
                pre + ansi_spec(
                    expr_spec(ca.take(close), env, ctx),
                    hex_byte(r[1], r[2]),
                    hex_byte(r[3], r[4]),
                    hex_byte(r[5], r[6]),
                ) + render_spec(ca.skip(close + 2), env, ctx)
            } else if has_prefix(r, "${{"@) && find_sub(pa, "}}"@) >= 0 {
                let close = find_sub(pa, "}}"@);
                proof {
                    lemma_find_sub(pa, "}}"@);
                    reveal_strlit("}}");
                    reveal_strlit("${{");
                }
                pre + expr_spec(pa.take(close), env, ctx) + render_spec(pa.skip(close + 2), env, ctx)
            } else {
                pre + seq!['$'] + render_spec(r.skip(1), env, ctx)
            }
        }
    }
}

fn hex_digit_val(c: char) -> (r: u8)
    requires
        is_hex(c),
    ensures
        r == hex_val(c),
{
    if '0' <= c && c <= '9' {
        ((c as u32) - ('0' as u32)) as u8
    } else if 'a' <= c && c <= 'f' {
        ((c as u32) - ('a' as u32) + 10) as u8
    } else {
        ((c as u32) - ('A' as u32) + 10) as u8
    }
}

fn is_hex_char(c: char) -> (r: bool)
    ensures
        r == is_hex(c),
{
    ('0' <= c && c <= '9') || ('a' <= c && c <= 'f') || ('A' <= c && c <= 'F')
}

/// One step of the scan: the text produced from `text[st..]` up to the
/// point `next` where the scan resumes.
fn render_step(text: &Vec<char>, st: usize, env: &Vec<(String, String)>, ctx: &UiContext) -> (r: (String, usize))
    requires
        st < text@.len(),
    ensures
        st < r.1 <= text@.len(),
        render_spec(text@.skip(st as int), kv_views(env@), ctx.model()) == r.0@ + render_spec(
            text@.skip(r.1 as int),
            kv_views(env@),
            ctx.model(),
        ),
{
    let ghost es = kv_views(env@);
    let ghost cm = ctx.model();
    let n = text.len();
    let ghost rest = text@.skip(st as int);
    let close_pat = chars_of("}}");
    proof {
        reveal_strlit("}}");
        reveal_strlit("${{");
        lemma_first_where(rest, eq_pred('$'));
    }
    let pos = find_char_from(text, '$', st);
    if pos >= n {
        let tail = slice_vec(text, st, n);
        assert(tail@ =~= rest);
        assert(text@.skip(n as int) =~= Seq::<char>::empty());
        assert(tail@ + Seq::<char>::empty() =~= tail@);
        return (string_of(&tail), n);
    }
    let pre = slice_vec(text, st, pos);
    assert(pre@ =~= rest.take(pos - st));
    let mut out = string_of(&pre);
    let ghost r = rest.skip(pos - st);
    assert(r =~= text@.skip(pos as int));
    assert(r[0] == '$');
    let is_color = n - pos >= 9 && is_hex_char(text[pos + 1]) && is_hex_char(text[pos + 2])
        && is_hex_char(text[pos + 3]) && is_hex_char(text[pos + 4]) && is_hex_char(text[pos + 5])
        && is_hex_char(text[pos + 6]) && text[pos + 7] == '{' && text[pos + 8] == '{';
    assert(is_color == color_open(r));
    if is_color {
        assert(r.skip(9) =~= text@.skip(pos + 9));
        match find_sub_from(text, &close_pat, pos + 9) {
            Some(close) => {
                let e = slice_vec(text, pos + 9, close);
                let ghost ca = r.skip(9);
                assert(e@ =~= ca.take(close - (pos + 9)));
                let value = expr_of(&e, env, ctx);
                let rb = hex_digit_val(text[pos + 1]) * 16 + hex_digit_val(text[pos + 2]);
                let gb = hex_digit_val(text[pos + 3]) * 16 + hex_digit_val(text[pos + 4]);
                let bb = hex_digit_val(text[pos + 5]) * 16 + hex_digit_val(text[pos + 6]);
                let colored = ansi_color(value.as_str(), rb, gb, bb);
                out.append(colored.as_str());
                assert(ca.skip(close - (pos + 9) + 2) =~= text@.skip(close + 2));
                return (out, close + 2);
            },
            None => {},
        }
    }
    let is_plain = n - pos >= 3 && text[pos + 1] == '{' && text[pos + 2] == '{';
    proof {
        if is_plain {
            assert(r.take(3) =~= "${{"@);
        } else if has_prefix(r, "${{"@) {
            assert(r.take(3)[1] == '{');
            assert(r.take(3)[2] == '{');
        }
    }
    if is_plain {
        assert(r.skip(3) =~= text@.skip(pos + 3));
        match find_sub_from(text, &close_pat, pos + 3) {
            Some(close) => {
                let e = slice_vec(text, pos + 3, close);
                let ghost pa = r.skip(3);
                assert(e@ =~= pa.take(close - (pos + 3)));
                let value = expr_of(&e, env, ctx);
                out.append(value.as_str());
                assert(pa.skip(close - (pos + 3) + 2) =~= text@.skip(close + 2));
                return (out, close + 2);
            },
            None => {},
        }
    }
    push_char(&mut out, '$');
    assert(r.skip(1) =~= text@.skip(pos + 1));
    (out, pos + 1)
}

fn render_vec(text: &Vec<char>, env: &Vec<(String, String)>, ctx: &UiContext) -> (r: String)
    ensures
        r@ == render_spec(text@, kv_views(env@), ctx.model()),
{
    let ghost es = kv_views(env@);
    let ghost cm = ctx.model();
    let n = text.len();
    let mut out = String::new();
    let mut st: usize = 0;
    assert(text@.skip(0) =~= text@);
    while st < n
        invariant
            n == text@.len(),
            st <= n,
            es == kv_views(env@),
            cm == ctx.model(),
            render_spec(text@, es, cm) == out@ + render_spec(text@.skip(st as int), es, cm),
        decreases n - st,
    {
        let (piece, next) = render_step(text, st, env, ctx);
        out.append(piece.as_str());
        st = next;
    }
    assert(text@.skip(n as int) =~= Seq::<char>::empty());
    assert(out@ + Seq::<char>::empty() =~= out@);
    out
}

/// Expand every `${{ expr }}` and `$RRGGBB{{ expr }}` in `text`; any other
/// `$` is kept as it is.
pub fn render_expressions(text: &str, env: &Vec<(String, String)>, ctx: &UiContext) -> (r: String)
    ensures
        r@ == render_spec(text@, kv_views(env@), ctx.model()),
{
    let v = chars_of(text);
    render_vec(&v, env, ctx)
}


/// The cells of a table row: the pieces between `|`, without an empty
/// first and an empty last piece (the outer delimiters).
pub open spec fn row_cells(line: Seq<char>) -> Seq<Seq<char>> {
    let raw = split_on(line, '|');
    let v1 = if raw.len() > 0 && trim(raw[0]).len() == 0 {
        raw.drop_first()
    } else {
        raw
    };
    if v1.len() > 0 && trim(v1.last()).len() == 0 {
        v1.drop_last()
    } else {
        v1
    }
}

/// Width of cell `i` of `n`: an equal share, the last cell taking the rest.
pub open spec fn cell_width(n: nat, i: int) -> int {
    let cw = 50int / (n as int);
    if i == n - 1 {
        if cw * i <= 50 {
            50 - cw * i
        } else {
            0
        }
    } else {
        cw
    }
}

/// Alignment of a cell: 0 right (leading `-`), 1 left (trailing `-`), 2 centred.
pub open spec fn cell_align(cell: Seq<char>) -> int {
    if has_prefix(cell, "-"@) {
        0
    } else if has_suffix(cell, "-"@) {
        1
    } else {
        2
    }
}

/// The text of a cell without its alignment marker.
pub open spec fn cell_content(cell: Seq<char>) -> Seq<char> {
    if cell_align(cell) == 0 {
        cell.skip(1)
    } else if cell_align(cell) == 1 {
        cell.drop_last()
    } else {
        cell
    }
}

/// Padding of `s` (occupying `vw` columns) to `w` columns with alignment `k`.
pub open spec fn pad_spec(k: int, s: Seq<char>, vw: int, w: int) -> Seq<char> {
    if vw >= w {
        s
    } else if k == 1 {
        s + spaces((w - vw) as nat)
    } else if k == 0 {
        spaces((w - vw) as nat) + s
    } else {
        spaces(((w - vw) / 2) as nat) + s + spaces(((w - vw) - (w - vw) / 2) as nat)
    }
}

/// The rendering of one cell in `w` columns.
pub open spec fn cell_out(cell: Seq<char>, w: int, env: Seq<(Seq<char>, Seq<char>)>, ctx: CtxModel) -> Seq<char> {
    let rendered = render_spec(trim(cell_content(cell)), env, ctx);
    pad_spec(cell_align(cell), rendered, visible_width_spec(rendered), w)
}

/// The renderings of the first `k` cells of a row of `n` cells, concatenated.
pub open spec fn cells_out(cells: Seq<Seq<char>>, n: nat, k: int, env: Seq<(Seq<char>, Seq<char>)>, ctx: CtxModel) -> Seq<char>
    decreases k,
{
    if k <= 0 {
        Seq::empty()
    } else {
        cells_out(cells, n, k - 1, env, ctx) + cell_out(cells[k - 1], cell_width(n, k - 1), env, ctx)
    }
}

/// What [`render_table_row`] returns.
pub open spec fn row_spec(line: Seq<char>, env: Seq<(Seq<char>, Seq<char>)>, ctx: CtxModel) -> Seq<char> {
    let cells = row_cells(line);
    cells_out(cells, cells.len(), cells.len() as int, env, ctx)
}

/// The rendered `text` is short enough for its width to be counted in a
/// `usize`.
pub open spec fn text_ok(text: Seq<char>, env: Seq<(Seq<char>, Seq<char>)>, ctx: CtxModel) -> bool {
    3 * render_spec(text, env, ctx).len() <= usize::MAX
}

/// Every cell of the row can be rendered.
pub open spec fn row_ok(line: Seq<char>, env: Seq<(Seq<char>, Seq<char>)>, ctx: CtxModel) -> bool {
    forall|i: int| 0 <= i < row_cells(line).len() ==> text_ok(trim(cell_content(#[trigger] row_cells(line)[i])), env, ctx)
}

fn cells_of(line: &Vec<char>) -> (r: Vec<Vec<char>>)
    ensures
        views(r@) == row_cells(line@),
{
    let mut raw = split_chars(line, '|');
    let ghost rv = views(raw@);
    if raw.len() > 0 && trim_vec(&raw[0]).len() == 0 {
        let ghost before = raw@;
        raw.remove(0);
        assert(views(raw@) =~= views(before).drop_first());
    }
    let ghost v1 = views(raw@);
    let k = raw.len();
    if k > 0 && trim_vec(&raw[k - 1]).len() == 0 {
        let ghost before = raw@;
        raw.pop();
        assert(views(raw@) =~= views(before).drop_last());
    }
    raw
}

fn render_cell(cell: &Vec<char>, width: usize, env: &Vec<(String, String)>, ctx: &UiContext) -> (r: String)
    requires
        text_ok(trim(cell_content(cell@)), kv_views(env@), ctx.model()),
    ensures
        r@ == cell_out(cell@, width as int, kv_views(env@), ctx.model()),
{
    let dash = chars_of("-");
    proof {
        reveal_strlit("-");
    }
    let align: u8;
    let content: Vec<char>;
    if crate::text::starts_with_vec(cell, &dash) {
        align = 0;
        content = slice_vec(cell, 1, cell.len());
        assert(content@ =~= cell@.skip(1));
    } else if crate::text::ends_with_vec(cell, &dash) {
        align = 1;
        content = slice_vec(cell, 0, cell.len() - 1);
        assert(content@ =~= cell@.drop_last());
    } else {
        align = 2;
        content = slice_vec(cell, 0, cell.len());
        assert(content@ =~= cell@);
    }
    let t = trim_vec(&content);
    let rendered = render_vec(&t, env, ctx);
    let vw = visible_width(rendered.as_str());
    if align == 1 {
        pad_right(rendered.as_str(), vw, width)
    } else if align == 0 {
        pad_left(rendered.as_str(), vw, width)
    } else {
        pad_center(rendered.as_str(), vw, width)
    }
}

fn row_of(line: &Vec<char>, env: &Vec<(String, String)>, ctx: &UiContext) -> (r: String)
    requires
        row_ok(line@, kv_views(env@), ctx.model()),
    ensures
        r@ == row_spec(line@, kv_views(env@), ctx.model()),
{
    let cells = cells_of(line);
    let ghost cv = views(cells@);
    let n = cells.len();
    let mut out = String::new();
    if n == 0 {
        return out;
    }
    let col_width = LINE_WIDTH / n;
    let mut i: usize = 0;
    while i < n
        invariant
            n == cells@.len(),
            n > 0,
            cv == views(cells@),
            cv == row_cells(line@),
            col_width == 50int / (n as int),
            row_ok(line@, kv_views(env@), ctx.model()),
            i <= n,
            out@ == cells_out(cv, n as nat, i as int, kv_views(env@), ctx.model()),
        decreases n - i,
    {
        assert(col_width * i <= 50) by (nonlinear_arith)
            requires
                col_width == 50int / (n as int),
                i < n,
                n > 0,
        ;
        let width = if i == n - 1 {
            LINE_WIDTH - col_width * i
        } else {
            col_width
        };
        assert(cv[i as int] == cells@[i as int]@);
        assert(text_ok(trim(cell_content(row_cells(line@)[i as int])), kv_views(env@), ctx.model()));
        let piece = render_cell(&cells[i], width, env, ctx);
        out.append(piece.as_str());
        i = i + 1;
    }
    out
}

/// Render a table row such as `| col1 |-col2 |-col3 |`: the 50 columns are
/// shared equally among the cells, the last cell absorbing the remainder;
/// each cell is aligned by its `-` marker.
pub fn render_table_row(line: &str, env: &Vec<(String, String)>, ctx: &UiContext) -> (r: String)
    requires
        row_ok(line@, kv_views(env@), ctx.model()),
    ensures
        r@ == row_spec(line@, kv_views(env@), ctx.model()),
{
    let v = chars_of(line);
    row_of(&v, env, ctx)
}


/// The separator line: 50 `─` characters.
pub open spec fn separator() -> Seq<char> {
    Seq::new(50, |i: int| '─')
}

/// Line `t` is a centred line `[ … ]`.
pub open spec fn is_centred(t: Seq<char>) -> bool {
    has_prefix(t, "["@) && has_suffix(t, "]"@)
}

/// The inside of a centred line.
pub open spec fn centred_inner(t: Seq<char>) -> Seq<char> {
    trim(t.subrange(1, t.len() - 1))
}

/// The output of one trimmed template line.
pub open spec fn line_out(t: Seq<char>, env: Seq<(Seq<char>, Seq<char>)>, ctx: CtxModel) -> Seq<char> {
    if t.len() == 0 {
        Seq::empty()
    } else if t == "---"@ {
        separator() + "\n"@
    } else if is_centred(t) {
        let rd = render_spec(centred_inner(t), env, ctx);
        pad_spec(2, rd, visible_width_spec(rd), 50) + "\n"@
    } else if has_prefix(t, "|"@) {
        row_spec(t, env, ctx) + "\n"@
    } else {
        render_spec(t, env, ctx) + "\n"@
    }
}

/// One trimmed template line can be rendered.
pub open spec fn line_ok(t: Seq<char>, env: Seq<(Seq<char>, Seq<char>)>, ctx: CtxModel) -> bool {
    if t.len() == 0 || t == "---"@ {
        true
    } else if is_centred(t) {
        text_ok(centred_inner(t), env, ctx)
    } else if has_prefix(t, "|"@) {
        row_ok(t, env, ctx)
    } else {
        true
    }
}

/// The output of the first `k` lines.
pub open spec fn lines_out(ls: Seq<Seq<char>>, k: int, env: Seq<(Seq<char>, Seq<char>)>, ctx: CtxModel) -> Seq<char>
    decreases k,
{
    if k <= 0 {
        Seq::empty()
    } else {
        lines_out(ls, k - 1, env, ctx) + line_out(trim(ls[k - 1]), env, ctx)
    }
}

/// What [`render_template`] returns.
pub open spec fn template_out(t: UiTemplate, ctx: CtxModel) -> Seq<char> {
    let ls = lines_spec(t.content@);
    lines_out(ls, ls.len() as int, kv_views(t.env@), ctx)
}

/// Every line of the template can be rendered.
pub open spec fn template_ok(t: UiTemplate, ctx: CtxModel) -> bool {
    forall|i: int|
        0 <= i < lines_spec(t.content@).len() ==> line_ok(
            trim(#[trigger] lines_spec(t.content@)[i]),
            kv_views(t.env@),
            ctx,
        )
}

fn render_line(t: &Vec<char>, env: &Vec<(String, String)>, ctx: &UiContext) -> (r: String)
    requires
        line_ok(t@, kv_views(env@), ctx.model()),
    ensures
        r@ == line_out(t@, kv_views(env@), ctx.model()),
{
    proof {
        reveal_strlit("[");
        reveal_strlit("]");
        reveal_strlit("|");
    }
    if t.len() == 0 {
        return String::new();
    }
    let mut out = String::new();
    let lb = chars_of("[");
    let rb = chars_of("]");
    let bar = chars_of("|");
    let dashes = chars_of("---");
    if eq_vec(t, &dashes) {
        let mut i: usize = 0;
        while i < LINE_WIDTH
            invariant
                i <= 50,
                out@ == Seq::new(i as nat, |j: int| '─'),
            decreases 50 - i,
        {
            push_char(&mut out, '─');
            i = i + 1;
            assert(out@ =~= Seq::new(i as nat, |j: int| '─'));
        }
        out.append("\n");
        return out;
    }
    if crate::text::starts_with_vec(t, &lb) && crate::text::ends_with_vec(t, &rb) {
        proof {
            if t@.len() < 2 {
                assert(t@.take(1)[0] == t@[0]);
                assert(t@.skip(t@.len() - 1)[0] == t@[0]);
            }
        }
        let inner = slice_vec(t, 1, t.len() - 1);
        let ti = trim_vec(&inner);
        let rendered = render_vec(&ti, env, ctx);
        let vw = visible_width(rendered.as_str());
        let mut c = pad_center(rendered.as_str(), vw, LINE_WIDTH);
        c.append("\n");
        return c;
    }
    if crate::text::starts_with_vec(t, &bar) {
        let mut row = row_of(t, env, ctx);
        row.append("\n");
        return row;
    }
    let mut r = render_vec(t, env, ctx);
    r.append("\n");
    r
}

/// Render the whole template: each non-blank line, trimmed, as a
/// separator, a centred line, a table row, or text with expressions.
pub fn render_template(template: &UiTemplate, ctx: &UiContext) -> (r: String)
    requires
        template_ok(*template, ctx.model()),
    ensures
        r@ == template_out(*template, ctx.model()),
{
    let cv = chars_of(template.content.as_str());
    let ls = lines_of(&cv);
    let ghost lv = views(ls@);
    let mut out = String::new();
    let mut i: usize = 0;
    while i < ls.len()
        invariant
            lv == views(ls@),
            lv == lines_spec(template.content@),
            template_ok(*template, ctx.model()),
            i <= ls@.len(),
            out@ == lines_out(lv, i as int, kv_views(template.env@), ctx.model()),
        decreases ls@.len() - i,
    {
        let t = trim_vec(&ls[i]);
        assert(lv[i as int] == ls@[i as int]@);
        assert(line_ok(trim(lines_spec(template.content@)[i as int]), kv_views(template.env@), ctx.model()));
        let piece = render_line(&t, &template.env, ctx);
        out.append(piece.as_str());
        i = i + 1;
    }
    out
}

/// `s` without its trailing `c` characters (`str::trim_end_matches`).
pub open spec fn trim_end_char(s: Seq<char>, c: char) -> Seq<char>
    decreases s.len(),
{
    if s.len() > 0 && s.last() == c {
        trim_end_char(s.drop_last(), c)
    } else {
        s
    }
}

fn trim_end_char_vec(v: &Vec<char>, c: char) -> (r: Vec<char>)
    ensures
        r@ == trim_end_char(v@, c),
{
    let mut k = v.len();
    assert(v@.take(k as int) =~= v@);
    while k > 0 && v[k - 1] == c
        invariant
            k <= v@.len(),
            trim_end_char(v@, c) == trim_end_char(v@.take(k as int), c),
        decreases k,
    {
        assert(v@.take(k as int).drop_last() =~= v@.take(k - 1));
        k = k - 1;
    }
    slice_vec(v, 0, k)
}

/// Whether `rem` is matched by the literal pieces `parts` (the pieces of a
/// pattern between `*`s), `i` being the index of the first of them: the
/// first piece must be a prefix; each later non-empty piece must occur
/// further on, with no `/` in the characters a `*` skips; a final `*`
/// takes the rest, which must hold no `/`.
pub open spec fn glob_rest(parts: Seq<Seq<char>>, rem: Seq<char>, i: nat) -> bool
    decreases parts.len(),
{
    if parts.len() == 0 {
        true
    } else {
        let p = parts[0];
        if p.len() == 0 {
            if parts.len() == 1 && i > 0 {
                !rem.contains('/')
            } else {
                glob_rest(parts.drop_first(), rem, i + 1)
            }
        } else if i == 0 {
            has_prefix(rem, p) && glob_rest(parts.drop_first(), rem.skip(p.len() as int), 1)
        } else {
            let f = find_sub(rem, p);
            f >= 0 && !rem.take(f).contains('/') && glob_rest(
                parts.drop_first(),
                rem.skip(f + p.len()),
                i + 1,
            )
        }
    }
}

/// What [`glob_matches`] returns.
pub open spec fn glob_spec(pattern: Seq<char>, path: Seq<char>) -> bool {
    glob_rest(split_on(pattern, '*'), path, 0)
}

fn no_slash(v: &Vec<char>, to: usize) -> (r: bool)
    requires
        to <= v@.len(),
    ensures
        r == !v@.take(to as int).contains('/'),
{
    let mut i: usize = 0;
    while i < to
        invariant
            i <= to <= v@.len(),
            forall|j: int| 0 <= j < i ==> v@[j] != '/',
        decreases to - i,
    {
        if v[i] == '/' {
            assert(v@.take(to as int)[i as int] == '/');
            return false;
        }
        i = i + 1;
    }
    assert forall|j: int| 0 <= j < to implies v@.take(to as int)[j] != '/' by {}
    true
}

/// Minimal glob matching: `*` matches any run of characters within one
/// path segment (it does not cross `/`).
pub fn glob_matches(pattern: &str, path: &str) -> (r: bool)
    ensures
        r == glob_spec(pattern@, path@),
{
    let pv = chars_of(pattern);
    let parts = split_chars(&pv, '*');
    let ghost ps = views(parts@);
    let mut rem = chars_of(path);
    let mut i: usize = 0;
    let n = parts.len();
    assert(ps.skip(0) =~= ps);
    while i < n
        invariant
            n == parts@.len(),
            ps == views(parts@),
            ps == split_on(pattern@, '*'),
            i <= n,
            glob_spec(pattern@, path@) == glob_rest(ps.skip(i as int), rem@, i as nat),
        decreases n - i,
    {
        let ghost sk = ps.skip(i as int);
        assert(sk[0] == parts@[i as int]@);
        assert(sk.drop_first() =~= ps.skip(i + 1));
        let part = &parts[i];
        if part.len() == 0 {
            if i + 1 == n && i > 0 {
                assert(rem@.take(rem@.len() as int) =~= rem@);
                return no_slash(&rem, rem.len());
            }
            i = i + 1;
            continue;
        }
        if i == 0 {
            if !crate::text::starts_with_vec(&rem, part) {
                return false;
            }
            rem = slice_vec(&rem, part.len(), rem.len());
        } else {
            assert(rem@.skip(0) =~= rem@);
            match find_sub_from(&rem, part, 0) {
                None => {
                    return false;
                },
                Some(pos) => {
                    if !no_slash(&rem, pos) {
                        return false;
                    }
                    let rl = rem.len();
                    assert(pos + part@.len() <= rl);
                    let cut = pos + part.len();
                    rem = slice_vec(&rem, cut, rl);
                },
            }
        }
        i = i + 1;
    }
    true
}

/// Whether `template` should be rendered for `path`: the path (without
/// trailing `/`) must start with the scope (without trailing `/`) unless
/// that is empty, and no `exclude` pattern may match the path.
pub open spec fn scope_spec(t: UiTemplate, path: Seq<char>) -> bool {
    let scope = trim_end_char(t.scope@, '/');
    let in_scope = scope.len() == 0 || scope == "/"@ || has_prefix(trim_end_char(path, '/'), scope);
    in_scope && forall|i: int| 0 <= i < t.exclude@.len() ==> !glob_spec(#[trigger] t.exclude@[i]@, path)
}

/// Return `true` when `template` should be rendered for `path`.
pub fn scope_matches(template: &UiTemplate, path: &str) -> (r: bool)
    ensures
        r == scope_spec(*template, path@),
{
    let sv = chars_of(template.scope.as_str());
    let scope = trim_end_char_vec(&sv, '/');
    let slash = chars_of("/");
    if scope.len() > 0 && !eq_vec(&scope, &slash) {
        let pv = chars_of(path);
        let pn = trim_end_char_vec(&pv, '/');
        if !crate::text::starts_with_vec(&pn, &scope) {
            return false;
        }
    }
    let mut i: usize = 0;
    while i < template.exclude.len()
        invariant
            i <= template.exclude@.len(),
            forall|j: int| 0 <= j < i ==> !glob_spec(#[trigger] template.exclude@[j]@, path@),
        decreases template.exclude@.len() - i,
    {
        if glob_matches(template.exclude[i].as_str(), path) {
            return false;
        }
        i = i + 1;
    }
    true
}

} // verus!
