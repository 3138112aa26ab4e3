//! Entity templates: `*.template.json` files whose `schema` describes how
//! to generate a concrete entity file (named by `output`) in the template's
//! own directory.

use vstd::prelude::*;
use crate::rng::{random_i64_in, random_ratio, random_usize_in};
use crate::text::{
    append_vec, chars_of, ends_with_vec, eq_vec, has_prefix, has_suffix, lemma_split_on_pieces, slice_vec,
    split_chars, split_on, starts_with_vec, str_views, string_of, string_of_range, views,
};
use crate::vfs::plain_component;

verus! {

/// Named format hints that guide the generation of meaningful strings.
#[derive(Clone, Debug)]
pub enum StringFormat {
    /// Chinese personal name (surname + given-name character).
    Name,
    /// Enemy / monster name drawn from a pre-defined list.
    EnemyName,
    /// Area / location name.
    AreaName,
    /// Short area description sentence.
    Description,
    /// Crop / plant name.
    CropName,
    /// Domestic animal name.
    AnimalName,
    /// Generic single word.
    Word,
}

/// No string of `s` is empty.
pub open spec fn all_non_empty(s: Seq<Seq<char>>) -> bool {
    forall|i: int| 0 <= i < s.len() ==> #[trigger] s[i].len() > 0
}

/// The views of a list of string slices.
pub open spec fn strs_view(v: Seq<&'static str>) -> Seq<Seq<char>> {
    v.map_values(|s: &'static str| s@)
}

/// Surnames of generated personal names.
pub open spec fn surnames() -> Seq<Seq<char>> {
    seq!["李"@, "王"@, "张"@, "刘"@, "陈"@, "杨"@, "赵"@, "黄"@, "周"@, "吴"@, "徐"@, "孙"@, "胡"@, "朱"@, "高"@, "林"@, "何"@, "郭"@, "马"@, "罗"@]
}

fn surnames_list() -> (r: Vec<&'static str>)
    ensures
        strs_view(r@) == surnames(),
        all_non_empty(strs_view(r@)),
{
    let mut v: Vec<&'static str> = Vec::new();
    v.push("李");
    v.push("王");
    v.push("张");
    v.push("刘");
    v.push("陈");
    v.push("杨");
    v.push("赵");
    v.push("黄");
    v.push("周");
    v.push("吴");
    v.push("徐");
    v.push("孙");
    v.push("胡");
    v.push("朱");
    v.push("高");
    v.push("林");
    v.push("何");
    v.push("郭");
    v.push("马");
    v.push("罗");
    assert(strs_view(v@) =~= surnames());
    proof {
        reveal_strlit("李");
        reveal_strlit("王");
        reveal_strlit("张");
        reveal_strlit("刘");
        reveal_strlit("陈");
        reveal_strlit("杨");
        reveal_strlit("赵");
        reveal_strlit("黄");
        reveal_strlit("周");
        reveal_strlit("吴");
        reveal_strlit("徐");
        reveal_strlit("孙");
        reveal_strlit("胡");
        reveal_strlit("朱");
        reveal_strlit("高");
        reveal_strlit("林");
        reveal_strlit("何");
        reveal_strlit("郭");
        reveal_strlit("马");
        reveal_strlit("罗");
    }
    v
}

/// Given-name characters of generated personal names.
pub open spec fn given_chars() -> Seq<Seq<char>> {
    seq!["伟"@, "芳"@, "娜"@, "敏"@, "静"@, "丽"@, "强"@, "磊"@, "洋"@, "艳"@, "勇"@, "军"@, "杰"@, "涛"@, "明"@, "超"@, "霞"@, "平"@, "刚"@, "华"@, "辉"@, "玲"@, "金"@, "蕾"@, "峰"@, "婷"@, "鑫"@, "宇"@, "浩"@, "龙"@]
}

fn given_chars_list() -> (r: Vec<&'static str>)
    ensures
        strs_view(r@) == given_chars(),
        all_non_empty(strs_view(r@)),
{
    let mut v: Vec<&'static str> = Vec::new();
    v.push("伟");
    v.push("芳");
    v.push("娜");
    v.push("敏");
    v.push("静");
    v.push("丽");
    v.push("强");
    v.push("磊");
    v.push("洋");
    v.push("艳");
    v.push("勇");
    v.push("军");
    v.push("杰");
    v.push("涛");
    v.push("明");
    v.push("超");
    v.push("霞");
    v.push("平");
    v.push("刚");
    v.push("华");
    v.push("辉");
    v.push("玲");
    v.push("金");
    v.push("蕾");
    v.push("峰");
    v.push("婷");
    v.push("鑫");
    v.push("宇");
    v.push("浩");
    v.push("龙");
    assert(strs_view(v@) =~= given_chars());
    proof {
        reveal_strlit("伟");
        reveal_strlit("芳");
        reveal_strlit("娜");
        reveal_strlit("敏");
        reveal_strlit("静");
        reveal_strlit("丽");
        reveal_strlit("强");
        reveal_strlit("磊");
        reveal_strlit("洋");
        reveal_strlit("艳");
        reveal_strlit("勇");
        reveal_strlit("军");
        reveal_strlit("杰");
        reveal_strlit("涛");
        reveal_strlit("明");
        reveal_strlit("超");
        reveal_strlit("霞");
        reveal_strlit("平");
        reveal_strlit("刚");
        reveal_strlit("华");
        reveal_strlit("辉");
        reveal_strlit("玲");
        reveal_strlit("金");
        reveal_strlit("蕾");
        reveal_strlit("峰");
        reveal_strlit("婷");
        reveal_strlit("鑫");
        reveal_strlit("宇");
        reveal_strlit("浩");
        reveal_strlit("龙");
    }
    v
}

/// Enemy / monster names.
pub open spec fn enemy_names() -> Seq<Seq<char>> {
    seq!["哥布林"@, "狼人"@, "强盗头目"@, "石像鬼"@, "黑暗法师"@, "骷髅战士"@, "食人魔"@, "巨蜘蛛"@, "蝙蝠王"@, "暗影杀手"@, "炎魔"@, "冰龙"@, "毒蛇精"@, "沙漠蝎王"@, "古树精"@]
}

fn enemy_names_list() -> (r: Vec<&'static str>)
    ensures
        strs_view(r@) == enemy_names(),
        all_non_empty(strs_view(r@)),
{
    let mut v: Vec<&'static str> = Vec::new();
    v.push("哥布林");
    v.push("狼人");
    v.push("强盗头目");
    v.push("石像鬼");
    v.push("黑暗法师");
    v.push("骷髅战士");
    v.push("食人魔");
    v.push("巨蜘蛛");
    v.push("蝙蝠王");
    v.push("暗影杀手");
    v.push("炎魔");
    v.push("冰龙");
    v.push("毒蛇精");
    v.push("沙漠蝎王");
    v.push("古树精");
    assert(strs_view(v@) =~= enemy_names());
    proof {
        reveal_strlit("哥布林");
        reveal_strlit("狼人");
        reveal_strlit("强盗头目");
        reveal_strlit("石像鬼");
        reveal_strlit("黑暗法师");
        reveal_strlit("骷髅战士");
        reveal_strlit("食人魔");
        reveal_strlit("巨蜘蛛");
        reveal_strlit("蝙蝠王");
        reveal_strlit("暗影杀手");
        reveal_strlit("炎魔");
        reveal_strlit("冰龙");
        reveal_strlit("毒蛇精");
        reveal_strlit("沙漠蝎王");
        reveal_strlit("古树精");
    }
    v
}

/// Area / location names.
pub open spec fn area_names() -> Seq<Seq<char>> {
    seq!["幽暗森林"@, "魔法峡谷"@, "碎骨荒原"@, "冰封雪山"@, "熔岩洞窟"@, "幽灵废墟"@, "迷雾沼泽"@, "雷鸣高地"@, "深海神庙"@, "星落平原"@]
}

fn area_names_list() -> (r: Vec<&'static str>)
    ensures
        strs_view(r@) == area_names(),
        all_non_empty(strs_view(r@)),
{
    let mut v: Vec<&'static str> = Vec::new();
    v.push("幽暗森林");
    v.push("魔法峡谷");
    v.push("碎骨荒原");
    v.push("冰封雪山");
    v.push("熔岩洞窟");
    v.push("幽灵废墟");
    v.push("迷雾沼泽");
    v.push("雷鸣高地");
    v.push("深海神庙");
    v.push("星落平原");
    assert(strs_view(v@) =~= area_names());
    proof {
        reveal_strlit("幽暗森林");
        reveal_strlit("魔法峡谷");
        reveal_strlit("碎骨荒原");
        reveal_strlit("冰封雪山");
        reveal_strlit("熔岩洞窟");
        reveal_strlit("幽灵废墟");
        reveal_strlit("迷雾沼泽");
        reveal_strlit("雷鸣高地");
        reveal_strlit("深海神庙");
        reveal_strlit("星落平原");
    }
    v
}

/// Short area description sentences.
pub open spec fn area_descriptions() -> Seq<Seq<char>> {
    seq!["充满神秘气息的古老地带。"@, "危机四伏，只有强者才能生存。"@, "传说中曾有英雄在此留下足迹。"@, "空气中弥漫着淡淡的魔法能量。"@, "荒无人烟，却隐藏着无数宝藏。"@]
}

fn area_descriptions_list() -> (r: Vec<&'static str>)
    ensures
        strs_view(r@) == area_descriptions(),
        all_non_empty(strs_view(r@)),
{
    let mut v: Vec<&'static str> = Vec::new();
    v.push("充满神秘气息的古老地带。");
    v.push("危机四伏，只有强者才能生存。");
    v.push("传说中曾有英雄在此留下足迹。");
    v.push("空气中弥漫着淡淡的魔法能量。");
    v.push("荒无人烟，却隐藏着无数宝藏。");
    assert(strs_view(v@) =~= area_descriptions());
    proof {
        reveal_strlit("充满神秘气息的古老地带。");
        reveal_strlit("危机四伏，只有强者才能生存。");
        reveal_strlit("传说中曾有英雄在此留下足迹。");
        reveal_strlit("空气中弥漫着淡淡的魔法能量。");
        reveal_strlit("荒无人烟，却隐藏着无数宝藏。");
    }
    v
}

/// Crop / plant names.
pub open spec fn crop_names() -> Seq<Seq<char>> {
    seq!["小麦"@, "土豆"@, "胡萝卜"@, "南瓜"@, "番茄"@, "草莓"@, "玉米"@, "西瓜"@, "甘蔗"@, "甜菜"@]
}

fn crop_names_list() -> (r: Vec<&'static str>)
    ensures
        strs_view(r@) == crop_names(),
        all_non_empty(strs_view(r@)),
{
    let mut v: Vec<&'static str> = Vec::new();
    v.push("小麦");
    v.push("土豆");
    v.push("胡萝卜");
    v.push("南瓜");
    v.push("番茄");
    v.push("草莓");
    v.push("玉米");
    v.push("西瓜");
    v.push("甘蔗");
    v.push("甜菜");
    assert(strs_view(v@) =~= crop_names());
    proof {
        reveal_strlit("小麦");
        reveal_strlit("土豆");
        reveal_strlit("胡萝卜");
        reveal_strlit("南瓜");
        reveal_strlit("番茄");
        reveal_strlit("草莓");
        reveal_strlit("玉米");
        reveal_strlit("西瓜");
        reveal_strlit("甘蔗");
        reveal_strlit("甜菜");
    }
    v
}

/// Domestic animal names.
pub open spec fn animal_names() -> Seq<Seq<char>> {
    seq!["鸡"@, "牛"@, "羊"@, "猪"@, "兔"@, "马"@, "鸭"@, "鹅"@, "驴"@, "骆驼"@]
}

fn animal_names_list() -> (r: Vec<&'static str>)
    ensures
        strs_view(r@) == animal_names(),
        all_non_empty(strs_view(r@)),
{
    let mut v: Vec<&'static str> = Vec::new();
    v.push("鸡");
    v.push("牛");
    v.push("羊");
    v.push("猪");
    v.push("兔");
    v.push("马");
    v.push("鸭");
    v.push("鹅");
    v.push("驴");
    v.push("骆驼");
    assert(strs_view(v@) =~= animal_names());
    proof {
        reveal_strlit("鸡");
        reveal_strlit("牛");
        reveal_strlit("羊");
        reveal_strlit("猪");
        reveal_strlit("兔");
        reveal_strlit("马");
        reveal_strlit("鸭");
        reveal_strlit("鹅");
        reveal_strlit("驴");
        reveal_strlit("骆驼");
    }
    v
}

/// Generic single words.
pub open spec fn words() -> Seq<Seq<char>> {
    seq!["勇气"@, "智慧"@, "力量"@, "速度"@, "敏捷"@, "耐力"@, "魔力"@, "神秘"@, "古老"@, "传奇"@]
}

fn words_list() -> (r: Vec<&'static str>)
    ensures
        strs_view(r@) == words(),
        all_non_empty(strs_view(r@)),
{
    let mut v: Vec<&'static str> = Vec::new();
    v.push("勇气");
    v.push("智慧");
    v.push("力量");
    v.push("速度");
    v.push("敏捷");
    v.push("耐力");
    v.push("魔力");
    v.push("神秘");
    v.push("古老");
    v.push("传奇");
    assert(strs_view(v@) =~= words());
    proof {
        reveal_strlit("勇气");
        reveal_strlit("智慧");
        reveal_strlit("力量");
        reveal_strlit("速度");
        reveal_strlit("敏捷");
        reveal_strlit("耐力");
        reveal_strlit("魔力");
        reveal_strlit("神秘");
        reveal_strlit("古老");
        reveal_strlit("传奇");
    }
    v
}

/// The word list that a string format other than `Name` draws from
/// (`Word` when there is no format).
pub open spec fn format_words(format: Option<StringFormat>) -> Seq<Seq<char>> {
    match format {
        Some(StringFormat::EnemyName) => enemy_names(),
        Some(StringFormat::AreaName) => area_names(),
        Some(StringFormat::Description) => area_descriptions(),
        Some(StringFormat::CropName) => crop_names(),
        Some(StringFormat::AnimalName) => animal_names(),
        _ => words(),
    }
}

/// `s` is a surname followed by a given-name character.
pub open spec fn is_generated_name(s: Seq<char>) -> bool {
    exists|i: int, j: int|
        0 <= i < surnames().len() && 0 <= j < given_chars().len() && s == #[trigger] surnames()[i] + #[trigger] given_chars()[j]
}

/// `s` is a string that `format` may produce before any length cut.
pub open spec fn format_candidate(format: Option<StringFormat>, s: Seq<char>) -> bool {
    match format {
        Some(StringFormat::Name) => is_generated_name(s),
        _ => format_words(format).contains(s),
    }
}

/// The strings of `bs`, one after another.
pub open spec fn concat_all(bs: Seq<Seq<char>>) -> Seq<char>
    decreases bs.len(),
{
    if bs.len() == 0 {
        Seq::empty()
    } else {
        concat_all(bs.drop_last()) + bs.last()
    }
}

/// `s` is the start of strings that `format` produces, written one after
/// another.
pub open spec fn made_of_candidates(format: Option<StringFormat>, s: Seq<char>) -> bool {
    exists|bs: Seq<Seq<char>>|
        (forall|i: int| 0 <= i < bs.len() ==> format_candidate(format, #[trigger] bs[i])) && s.len() <= concat_all(
            bs,
        ).len() && s == #[trigger] concat_all(bs).take(s.len() as int)
}

/// `s` is a value that a string field with `length`, `format` and `value`
/// may take: the fixed value when there is one; otherwise a string of the
/// format, and, when a length range `[min, max]` is given, a string of
/// between `min` and `max` characters (`min` alone when the range is given
/// backwards) made of strings of the format written one after another.
pub open spec fn string_fits(length: Option<[usize; 2]>, format: Option<StringFormat>, value: Option<String>, s: Seq<char>) -> bool {
    match value {
        Some(v) => s == v@,
        None => match length {
            None => format_candidate(format, s),
            Some(l) => l[0] <= s.len() <= range_top(l[0] as int, l[1] as int) && made_of_candidates(format, s),
        },
    }
}

/// The word that the pick `p` names in `format`: for `Name`, the `p.0`-th
/// surname followed by the `p.1`-th given-name character; otherwise the
/// `p.0`-th word of the format's list.  `None` when an index is past the
/// end of its list.
pub open spec fn pick_word(format: Option<StringFormat>, p: (usize, usize)) -> Option<Seq<char>> {
    match format {
        Some(StringFormat::Name) => if p.0 < surnames().len() && p.1 < given_chars().len() {
            Some(surnames()[p.0 as int] + given_chars()[p.1 as int])
        } else {
            None
        },
        _ => if p.0 < format_words(format).len() {
            Some(format_words(format)[p.0 as int])
        } else {
            None
        },
    }
}

/// At least one pick, and every pick names a word of `format`.
pub open spec fn picks_valid(format: Option<StringFormat>, picks: Seq<(usize, usize)>) -> bool {
    &&& picks.len() > 0
    &&& forall|k: int| 0 <= k < picks.len() ==> (#[trigger] pick_word(format, picks[k])) is Some
}

/// The words that `picks` name in `format`, in order.
pub open spec fn picked_words(format: Option<StringFormat>, picks: Seq<(usize, usize)>) -> Seq<Seq<char>> {
    picks.map_values(|p: (usize, usize)| pick_word(format, p)->0)
}

/// The list of words that a format other than `Name` picks from.
fn format_list(format: &Option<StringFormat>) -> (r: Vec<&'static str>)
    ensures
        strs_view(r@) == format_words(*format),
        all_non_empty(strs_view(r@)),
{
    match format {
        Some(StringFormat::EnemyName) => enemy_names_list(),
        Some(StringFormat::AreaName) => area_names_list(),
        Some(StringFormat::Description) => area_descriptions_list(),
        Some(StringFormat::CropName) => crop_names_list(),
        Some(StringFormat::AnimalName) => animal_names_list(),
        _ => words_list(),
    }
}

/// The word that the pick `p` names in `format`.
fn word_for(format: &Option<StringFormat>, p: (usize, usize)) -> (r: String)
    requires
        pick_word(*format, p) is Some,
    ensures
        r@ == pick_word(*format, p)->0,
        r@.len() > 0,
{
    match format {
        Some(StringFormat::Name) => {
            let sur = surnames_list();
            let giv = given_chars_list();
            assert(sur@.len() == strs_view(sur@).len());
            assert(giv@.len() == strs_view(giv@).len());
            assert(strs_view(sur@)[p.0 as int] == sur@[p.0 as int]@);
            assert(strs_view(giv@)[p.1 as int] == giv@[p.1 as int]@);
            let mut cs = chars_of(sur[p.0]);
            append_vec(&mut cs, &chars_of(giv[p.1]));
            string_of(&cs)
        },
        _ => {
            let list = format_list(format);
            assert(list@.len() == strs_view(list@).len());
            assert(strs_view(list@)[p.0 as int] == list@[p.0 as int]@);
            list[p.0].to_string()
        },
    }
}

/// A uniformly random pick of a word of `format`.
fn random_pick(format: &Option<StringFormat>) -> (r: (usize, usize))
    ensures
        pick_word(*format, r) is Some,
{
    match format {
        Some(StringFormat::Name) => {
            let sur = surnames_list();
            let giv = given_chars_list();
            assert(sur@.len() == strs_view(sur@).len());
            assert(giv@.len() == strs_view(giv@).len());
            (random_usize_in(0, sur.len() - 1), random_usize_in(0, giv.len() - 1))
        },
        _ => {
            let list = format_list(format);
            assert(list@.len() == strs_view(list@).len());
            (random_usize_in(0, list.len() - 1), 0)
        },
    }
}

/// The words that `picks` name in `format`, written one after another.
fn concat_picks(format: &Option<StringFormat>, picks: &Vec<(usize, usize)>) -> (r: Vec<char>)
    requires
        forall|k: int| 0 <= k < picks@.len() ==> (#[trigger] pick_word(*format, picks@[k])) is Some,
    ensures
        r@ == concat_all(picked_words(*format, picks@)),
{
    let mut out: Vec<char> = Vec::new();
    let mut i: usize = 0;
    assert(picked_words(*format, picks@.take(0)) =~= Seq::<Seq<char>>::empty());
    while i < picks.len()
        invariant
            i <= picks@.len(),
            forall|k: int| 0 <= k < picks@.len() ==> (#[trigger] pick_word(*format, picks@[k])) is Some,
            out@ == concat_all(picked_words(*format, picks@.take(i as int))),
        decreases picks@.len() - i,
    {
        assert(pick_word(*format, picks@[i as int]) is Some);
        let w = word_for(format, picks[i]);
        append_vec(&mut out, &chars_of(w.as_str()));
        assert(picked_words(*format, picks@.take(i + 1)).drop_last() =~= picked_words(*format, picks@.take(i as int)));
        assert(picked_words(*format, picks@.take(i + 1)).last() == w@);
        i = i + 1;
    }
    assert(picks@.take(picks@.len() as int) =~= picks@);
    out
}

/// Schema that describes how to generate a single JSON field value.
#[derive(Debug)]
pub enum FieldSchema {
    /// A UTF-8 string field: an optional character-length range `[min, max]`,
    /// an optional named format, and an optional fixed value that skips
    /// random generation.
    String { length: Option<[usize; 2]>, format: Option<StringFormat>, value: Option<String> },
    /// A 64-bit signed integer field: an optional inclusive range
    /// `[min, max]` and an optional fixed value.
    Integer { range: Option<[i64; 2]>, value: Option<i64> },
    /// A 64-bit floating-point field.  Its inclusive range `[min, max]` and
    /// fixed value are held as IEEE-754 bit patterns (`f64::to_bits`): the
    /// library carries them unread, and the float itself is drawn when the
    /// value is written out.
    Float { range: Option<[u64; 2]>, value: Option<u64> },
    /// A boolean field: a fixed value, or a fair coin when absent.
    Boolean { value: Option<bool> },
    /// A JSON array field: an inclusive element-count range `[min, max]`
    /// and item schemas, cycled when fewer schemas than generated items.
    Array { length: [usize; 2], items: Vec<FieldSchema> },
    /// A nested JSON object field: field schemas keyed by field name.
    Object { fields: Vec<(String, FieldSchema)> },
}

/// Parsed contents of a `*.template.json` file.
#[derive(Debug)]
pub struct EntityTemplate {
    /// Logical entity type label (informational, e.g. `"player"`, `"enemy"`).
    pub entity: String,
    /// Output filename relative to the template file's own directory.
    pub output: String,
    /// Top-level field schemas keyed by field name.
    pub schema: Vec<(String, FieldSchema)>,
}

/// A generated JSON value.
#[derive(Debug)]
pub enum GenValue {
    Str(String),
    Int(i64),
    Bool(bool),
    /// A float field, still to be drawn from its schema's range or fixed
    /// value (bit patterns, as in [`FieldSchema::Float`]).
    Float { range: Option<[u64; 2]>, value: Option<u64> },
    Array(Vec<GenValue>),
    Object(Vec<(String, GenValue)>),
}

/// The upper end of an inclusive range `[lo, hi]`, raised to `lo` when the
/// range is given backwards.
pub open spec fn range_top(lo: int, hi: int) -> int {
    if hi < lo { lo } else { hi }
}

/// `n` is a value that an integer field with `range` and `value` may take.
pub open spec fn int_fits(range: Option<[i64; 2]>, value: Option<i64>, n: i64) -> bool {
    match value {
        Some(v) => n == v,
        None => match range {
            Some(r) => r[0] <= n <= range_top(r[0] as int, r[1] as int),
            None => n == 0,
        },
    }
}

/// `v` is a value that `schema` may generate.
pub open spec fn fits(schema: FieldSchema, v: GenValue) -> bool
    decreases schema,
{
    match schema {
        FieldSchema::String { length, format, value } => match v {
            GenValue::Str(s) => string_fits(length, format, value, s@),
            _ => false,
        },
        FieldSchema::Integer { range, value } => match v {
            GenValue::Int(n) => int_fits(range, value, n),
            _ => false,
        },
        FieldSchema::Float { range, value } => v == GenValue::Float { range, value },
        FieldSchema::Boolean { value } => match v {
            GenValue::Bool(b) => value matches Some(x) ==> b == x,
            _ => false,
        },
        FieldSchema::Array { length, items } => match v {
            GenValue::Array(vals) => if items@.len() == 0 {
                vals@.len() == 0
            } else {
                &&& length[0] <= vals@.len() <= range_top(length[0] as int, length[1] as int)
                &&& forall|i: int| 0 <= i < vals@.len() ==> fits(items@[i % (items@.len() as int)], #[trigger] vals@[i])
            },
            _ => false,
        },
        FieldSchema::Object { fields } => match v {
            GenValue::Object(entries) => {
                &&& entries@.len() == fields@.len()
                &&& forall|i: int| 0 <= i < fields@.len() ==> (#[trigger] entries@[i]).0@ == fields@[i].0@ && fits(fields@[i].1, entries@[i].1)
            },
            _ => false,
        },
    }
}

/// The random draws that generating a value consumes, in the schema's
/// shape.
#[derive(Debug)]
pub enum Draws {
    /// A string: the picked words (see [`pick_word`]) and the drawn length.
    Str { picks: Vec<(usize, usize)>, target: usize },
    /// A drawn integer.
    Int(i64),
    /// A drawn boolean.
    Bool(bool),
    /// The draws of each item of an array, as many as the drawn count.
    Items(Vec<Draws>),
    /// The draws of each field of an object, in order.
    Fields(Vec<Draws>),
    /// Nothing drawn: a fixed value, a float field, or an array without
    /// item schemas.
    Nothing,
}

/// `d` are draws that `schema` can use: picks that name words, and a
/// length, an integer and a count within their ranges (a backwards range
/// standing for its lower end), with enough words picked to reach the
/// length.
pub open spec fn draws_fit(schema: FieldSchema, d: Draws) -> bool
    decreases schema,
{
    match schema {
        FieldSchema::String { length, format, value } => value is Some || match d {
            Draws::Str { picks, target } => picks_valid(format, picks@) && match length {
                None => true,
                Some(l) => l[0] <= target <= range_top(l[0] as int, l[1] as int) && target <= concat_all(
                    picked_words(format, picks@),
                ).len(),
            },
            _ => false,
        },
        FieldSchema::Integer { range, value } => value is Some || match range {
            Some(r) => d matches Draws::Int(n) && r[0] <= n <= range_top(r[0] as int, r[1] as int),
            None => true,
        },
        FieldSchema::Float { .. } => true,
        FieldSchema::Boolean { value } => value is Some || d is Bool,
        FieldSchema::Array { length, items } => items@.len() == 0 || match d {
            Draws::Items(ds) => {
                &&& length[0] <= ds@.len() <= range_top(length[0] as int, length[1] as int)
                &&& forall|k: int|
                    0 <= k < ds@.len() ==> draws_fit(items@[k % (items@.len() as int)], #[trigger] ds@[k])
            },
            _ => false,
        },
        FieldSchema::Object { fields } => match d {
            Draws::Fields(ds) => {
                &&& ds@.len() == fields@.len()
                &&& forall|k: int| 0 <= k < ds@.len() ==> draws_fit(fields@[k].1, #[trigger] ds@[k])
            },
            _ => false,
        },
    }
}

/// `v` is the value that `schema` gives with the draws `d`: a fixed value
/// as it is; a string of the first picked word, or, with a length range,
/// the picked words written one after another and cut to the drawn length;
/// the drawn integer (0 without a range or fixed value), the drawn boolean;
/// a float field still to be drawn; an array of one item per item draw,
/// cycling the item schemas; an object of one entry per field, in order.
pub open spec fn from_draws(schema: FieldSchema, d: Draws, v: GenValue) -> bool
    decreases schema,
{
    match schema {
        FieldSchema::String { length, format, value } => match v {
            GenValue::Str(t) => match value {
                Some(x) => t@ == x@,
                None => match d {
                    Draws::Str { picks, target } => match length {
                        None => t@ == picked_words(format, picks@)[0],
                        Some(l) => t@ == concat_all(picked_words(format, picks@)).take(target as int),
                    },
                    _ => false,
                },
            },
            _ => false,
        },
        FieldSchema::Integer { range, value } => match v {
            GenValue::Int(n) => match value {
                Some(x) => n == x,
                None => match range {
                    Some(r) => d == Draws::Int(n),
                    None => n == 0,
                },
            },
            _ => false,
        },
        FieldSchema::Float { range, value } => v == GenValue::Float { range, value },
        FieldSchema::Boolean { value } => match v {
            GenValue::Bool(b) => match value {
                Some(x) => b == x,
                None => d == Draws::Bool(b),
            },
            _ => false,
        },
        FieldSchema::Array { length, items } => match v {
            GenValue::Array(vals) => if items@.len() == 0 {
                vals@.len() == 0
            } else {
                match d {
                    Draws::Items(ds) => {
                        &&& vals@.len() == ds@.len()
                        &&& forall|k: int|
                            0 <= k < ds@.len() ==> from_draws(
                                items@[k % (items@.len() as int)],
                                ds@[k],
                                #[trigger] vals@[k],
                            )
                    },
                    _ => false,
                }
            },
            _ => false,
        },
        FieldSchema::Object { fields } => match v {
            GenValue::Object(entries) => match d {
                Draws::Fields(ds) => {
                    &&& entries@.len() == fields@.len()
                    &&& ds@.len() == fields@.len()
                    &&& forall|k: int|
                        0 <= k < fields@.len() ==> (#[trigger] entries@[k]).0@ == fields@[k].0@ && from_draws(
                            fields@[k].1,
                            ds@[k],
                            entries@[k].1,
                        )
                },
                _ => false,
            },
            _ => false,
        },
    }
}

/// The value that `schema` gives with the draws `draws`.
pub fn value_from_draws(schema: &FieldSchema, draws: &Draws) -> (r: GenValue)
    requires
        draws_fit(*schema, *draws),
    ensures
        from_draws(*schema, *draws, r),
    decreases schema,
{
    match schema {
        FieldSchema::String { length, format, value } => {
            match value {
                Some(v) => GenValue::Str(v.clone()),
                None => match draws {
                    Draws::Str { picks, target } => {
                        let all = concat_picks(format, picks);
                        match length {
                            None => {
                                let w = word_for(format, picks[0]);
                                assert(picked_words(*format, picks@)[0] == pick_word(*format, picks@[0])->0);
                                GenValue::Str(w)
                            },
                            Some(l) => {
                                let cut = string_of_range(&all, 0, *target);
                                assert(cut@ =~= concat_all(picked_words(*format, picks@)).take(*target as int));
                                GenValue::Str(cut)
                            },
                        }
                    },
                    _ => GenValue::Str(String::new()),
                },
            }
        },
        FieldSchema::Integer { range, value } => {
            match value {
                Some(v) => GenValue::Int(*v),
                None => match range {
                    Some(r) => match draws {
                        Draws::Int(n) => GenValue::Int(*n),
                        _ => GenValue::Int(0),
                    },
                    None => GenValue::Int(0),
                },
            }
        },
        FieldSchema::Float { range, value } => GenValue::Float { range: *range, value: *value },
        FieldSchema::Boolean { value } => match value {
            Some(b) => GenValue::Bool(*b),
            None => match draws {
                Draws::Bool(b) => GenValue::Bool(*b),
                _ => GenValue::Bool(false),
            },
        },
        FieldSchema::Array { length, items } => {
            let n = items.len();
            if n == 0 {
                return GenValue::Array(Vec::new());
            }
            match draws {
                Draws::Items(ds) => {
                    let mut vals: Vec<GenValue> = Vec::new();
                    let mut i: usize = 0;
                    while i < ds.len()
                        invariant
                            *schema == (FieldSchema::Array { length: *length, items: *items }),
                            *draws == Draws::Items(*ds),
                            draws_fit(*schema, *draws),
                            n == items@.len(),
                            n > 0,
                            i <= ds@.len(),
                            vals@.len() == i,
                            forall|k: int| 0 <= k < i ==> from_draws(items@[k % n as int], ds@[k], #[trigger] vals@[k]),
                        decreases ds@.len() - i,
                    {
                        proof {
                            let k = (i % n) as int;
                            assert(decreases_to!(*schema => (*schema)->items));
                            assert(decreases_to!(*items => items@));
                            assert(decreases_to!(items@ => items@[k]));
                        }
                        assert(draws_fit(items@[(i % n) as int], ds@[i as int]));
                        let v = value_from_draws(&items[i % n], &ds[i]);
                        vals.push(v);
                        i = i + 1;
                    }
                    GenValue::Array(vals)
                },
                _ => GenValue::Array(Vec::new()),
            }
        },
        FieldSchema::Object { fields } => match draws {
            Draws::Fields(ds) => GenValue::Object(object_from_draws(fields, ds)),
            _ => GenValue::Object(Vec::new()),
        },
    }
}

/// The entries that the field schemas `fields` give with the draws `ds`,
/// one per field, under the field's name, in order.
pub fn object_from_draws(fields: &Vec<(String, FieldSchema)>, ds: &Vec<Draws>) -> (r: Vec<(String, GenValue)>)
    requires
        ds@.len() == fields@.len(),
        forall|k: int| 0 <= k < ds@.len() ==> draws_fit(fields@[k].1, #[trigger] ds@[k]),
    ensures
        r@.len() == fields@.len(),
        forall|k: int|
            0 <= k < fields@.len() ==> (#[trigger] r@[k]).0@ == fields@[k].0@ && from_draws(fields@[k].1, ds@[k], r@[k].1),
    decreases fields,
{
    let mut out: Vec<(String, GenValue)> = Vec::new();
    let mut i: usize = 0;
    while i < fields.len()
        invariant
            ds@.len() == fields@.len(),
            forall|k: int| 0 <= k < ds@.len() ==> draws_fit(fields@[k].1, #[trigger] ds@[k]),
            i <= fields@.len(),
            out@.len() == i,
            forall|k: int|
                0 <= k < i ==> (#[trigger] out@[k]).0@ == fields@[k].0@ && from_draws(fields@[k].1, ds@[k], out@[k].1),
        decreases fields@.len() - i,
    {
        assert(draws_fit(fields@[i as int].1, ds@[i as int]));
        let key = fields[i].0.clone();
        let v = value_from_draws(&fields[i].1, &ds[i]);
        out.push((key, v));
        i = i + 1;
    }
    out
}

/// Draw the picks and length of a string field of `format` with the
/// length range `length`: one word, and more while the words picked so far
/// are shorter than the drawn length.
fn draw_string(length: &Option<[usize; 2]>, format: &Option<StringFormat>) -> (d: Draws)
    ensures
        d matches Draws::Str { picks, target } && picks_valid(*format, picks@) && match *length {
            None => true,
            Some(l) => l[0] <= target <= range_top(l[0] as int, l[1] as int) && target <= concat_all(
                picked_words(*format, picks@),
            ).len(),
        },
{
    let mut picks: Vec<(usize, usize)> = Vec::new();
    let p = random_pick(format);
    picks.push(p);
    let target = match length {
        None => 0,
        Some(l) => {
            let lo = l[0];
            let hi = if l[1] < lo { lo } else { l[1] };
            random_usize_in(lo, hi)
        },
    };
    let mut total = word_for(format, p).unicode_len();
    assert(picked_words(*format, picks@) =~= seq![pick_word(*format, p)->0]);
    assert(seq![pick_word(*format, p)->0].drop_last() =~= Seq::<Seq<char>>::empty());
    assert(concat_all(Seq::<Seq<char>>::empty()) =~= Seq::<char>::empty());
    assert(concat_all(picked_words(*format, picks@)) =~= pick_word(*format, p)->0);
    while total < target
        invariant
            picks_valid(*format, picks@),
            total <= concat_all(picked_words(*format, picks@)).len(),
            total == concat_all(picked_words(*format, picks@)).len() || total == usize::MAX,
        decreases if total < target { target - total } else { 0 },
    {
        let q = random_pick(format);
        let w = word_for(format, q);
        let ghost before = picks@;
        picks.push(q);
        assert(picked_words(*format, picks@).drop_last() =~= picked_words(*format, before));
        assert(picked_words(*format, picks@).last() == w@);
        assert forall|k: int| 0 <= k < picks@.len() implies (#[trigger] pick_word(*format, picks@[k])) is Some by {
            if k < before.len() {
                assert(picks@[k] == before[k]);
            }
        }
        total = total.saturating_add(w.unicode_len());
    }
    Draws::Str { picks, target }
}

/// Draw everything that generating a value from `schema` uses.
pub fn draw_for(schema: &FieldSchema) -> (d: Draws)
    ensures
        draws_fit(*schema, d),
    decreases schema,
{
    match schema {
        FieldSchema::String { length, format, value } => match value {
            Some(_) => Draws::Nothing,
            None => draw_string(length, format),
        },
        FieldSchema::Integer { range, value } => match (value, range) {
            (None, Some(r)) => {
                let lo = r[0];
                let hi = if r[1] < lo { lo } else { r[1] };
                Draws::Int(random_i64_in(lo, hi))
            },
            _ => Draws::Nothing,
        },
        FieldSchema::Float { .. } => Draws::Nothing,
        FieldSchema::Boolean { value } => match value {
            Some(_) => Draws::Nothing,
            None => Draws::Bool(random_ratio(1, 2)),
        },
        FieldSchema::Array { length, items } => {
            let n = items.len();
            if n == 0 {
                return Draws::Nothing;
            }
            let lo = length[0];
            let hi = if length[1] < lo { lo } else { length[1] };
            let count = random_usize_in(lo, hi);
            let mut ds: Vec<Draws> = Vec::new();
            let mut i: usize = 0;
            while i < count
                invariant
                    *schema == (FieldSchema::Array { length: *length, items: *items }),
                    n == items@.len(),
                    n > 0,
                    i <= count,
                    ds@.len() == i,
                    forall|k: int| 0 <= k < i ==> draws_fit(items@[k % n as int], #[trigger] ds@[k]),
                decreases count - i,
            {
                proof {
                    let k = (i % n) as int;
                    assert(decreases_to!(*schema => (*schema)->items));
                    assert(decreases_to!(*items => items@));
                    assert(decreases_to!(items@ => items@[k]));
                }
                let d = draw_for(&items[i % n]);
                ds.push(d);
                i = i + 1;
            }
            Draws::Items(ds)
        },
        FieldSchema::Object { fields } => Draws::Fields(draw_fields(fields)),
    }
}

/// Draw everything that generating the fields `fields` uses, field by
/// field.
pub fn draw_fields(fields: &Vec<(String, FieldSchema)>) -> (ds: Vec<Draws>)
    ensures
        ds@.len() == fields@.len(),
        forall|k: int| 0 <= k < ds@.len() ==> draws_fit(fields@[k].1, #[trigger] ds@[k]),
    decreases fields,
{
    let mut ds: Vec<Draws> = Vec::new();
    let mut i: usize = 0;
    while i < fields.len()
        invariant
            i <= fields@.len(),
            ds@.len() == i,
            forall|k: int| 0 <= k < i ==> draws_fit(fields@[k].1, #[trigger] ds@[k]),
        decreases fields@.len() - i,
    {
        let d = draw_for(&fields[i].1);
        ds.push(d);
        i = i + 1;
    }
    ds
}

/// The words of fitting picks are words of the format, and non-empty.
proof fn lemma_picked_words(format: Option<StringFormat>, picks: Seq<(usize, usize)>)
    requires
        picks_valid(format, picks),
    ensures
        forall|k: int| 0 <= k < picks.len() ==> format_candidate(format, #[trigger] picked_words(format, picks)[k]),
{
    assert forall|k: int| 0 <= k < picks.len() implies format_candidate(format, #[trigger] picked_words(format, picks)[k]) by {
        let p = picks[k];
        assert(pick_word(format, picks[k]) is Some);
        let w = picked_words(format, picks)[k];
        if format == Some(StringFormat::Name) {
            assert(w == surnames()[p.0 as int] + given_chars()[p.1 as int]);
        } else {
            assert(format_words(format)[p.0 as int] == w);
        }
    }
}

/// The value that fitting draws give satisfies the schema.
pub proof fn lemma_from_draws_fits(schema: FieldSchema, d: Draws, v: GenValue)
    requires
        draws_fit(schema, d),
        from_draws(schema, d, v),
    ensures
        fits(schema, v),
    decreases schema,
{
    match schema {
        FieldSchema::String { length, format, value } => {
            if value is None {
                let picks = d->picks;
                let target = d->target;
                lemma_picked_words(format, picks@);
                let ws = picked_words(format, picks@);
                let t = v->Str_0@;
                match length {
                    None => {
                        assert(format_candidate(format, ws[0]));
                    },
                    Some(l) => {
                        assert(concat_all(ws).take(t.len() as int) =~= t);
                        assert(made_of_candidates(format, t));
                    },
                }
            }
        },
        FieldSchema::Array { length, items } => {
            if items@.len() > 0 {
                let ds = d->Items_0;
                let vals = v->Array_0;
                let n = items@.len() as int;
                assert forall|k: int| 0 <= k < vals@.len() implies fits(items@[k % n], #[trigger] vals@[k]) by {
                    assert(decreases_to!(schema => schema->items));
                    assert(decreases_to!(schema->items => items@));
                    assert(decreases_to!(items@ => items@[k % n]));
                    assert(draws_fit(items@[k % n], ds@[k]));
                    assert(from_draws(items@[k % n], ds@[k], vals@[k]));
                    lemma_from_draws_fits(items@[k % n], ds@[k], vals@[k]);
                }
            }
        },
        FieldSchema::Object { fields } => {
            let ds = d->Fields_0;
            let es = v->Object_0;
            assert forall|k: int| 0 <= k < fields@.len() implies (#[trigger] es@[k]).0@ == fields@[k].0@ && fits(
                fields@[k].1,
                es@[k].1,
            ) by {
                assert(decreases_to!(schema => schema->fields));
                assert(decreases_to!(schema->fields => fields@));
                assert(decreases_to!(fields@ => fields@[k]));
                assert(decreases_to!(fields@[k] => fields@[k].1));
                assert(draws_fit(fields@[k].1, ds@[k]));
                lemma_from_draws_fits(fields@[k].1, ds@[k], es@[k].1);
            }
        },
        _ => {},
    }
}

/// Generate a random value that satisfies `schema`: draw what the schema
/// needs, then build the value from the draws.
pub fn generate_value(schema: &FieldSchema) -> (r: GenValue)
    ensures
        fits(*schema, r),
        exists|d: Draws| draws_fit(*schema, d) && #[trigger] from_draws(*schema, d, r),
{
    let d = draw_for(schema);
    let r = value_from_draws(schema, &d);
    proof {
        lemma_from_draws_fits(*schema, d, r);
    }
    r
}

/// `es` are the entries that the field schemas `fields` give with the
/// fitting draws `ds`: one per field, under its name, in order.
pub open spec fn fields_from_draws(fields: Seq<(String, FieldSchema)>, ds: Seq<Draws>, es: Seq<(String, GenValue)>) -> bool {
    &&& ds.len() == fields.len()
    &&& es.len() == fields.len()
    &&& forall|i: int|
        0 <= i < fields.len() ==> draws_fit(fields[i].1, #[trigger] ds[i]) && es[i].0@ == fields[i].0@ && from_draws(
            fields[i].1,
            ds[i],
            es[i].1,
        )
}

/// Generate a full entity object from a top-level schema: one entry per
/// field, under the field's name, in the schema's order.
pub fn generate_object(schema: &Vec<(String, FieldSchema)>) -> (r: Vec<(String, GenValue)>)
    ensures
        r@.len() == schema@.len(),
        forall|i: int| 0 <= i < schema@.len() ==> (#[trigger] r@[i]).0@ == schema@[i].0@ && fits(schema@[i].1, r@[i].1),
        exists|ds: Seq<Draws>| #[trigger] fields_from_draws(schema@, ds, r@),
{
    let ds = draw_fields(schema);
    let r = object_from_draws(schema, &ds);
    proof {
        assert forall|i: int| 0 <= i < schema@.len() implies (#[trigger] r@[i]).0@ == schema@[i].0@ && fits(
            schema@[i].1,
            r@[i].1,
        ) by {
            assert(draws_fit(schema@[i].1, ds@[i]));
            lemma_from_draws_fits(schema@[i].1, ds@[i], r@[i].1);
        }
        assert(fields_from_draws(schema@, ds@, r@));
    }
    r
}

/// The components that a template's `output` adds below the template's
/// directory, reading empty components and `.` as nothing and `..` as a
/// step back up; `None` when a `..` would step above the directory.
pub open spec fn output_parts(parts: Seq<Seq<char>>) -> Option<Seq<Seq<char>>>
    decreases parts.len(),
{
    if parts.len() == 0 {
        Some(Seq::empty())
    } else {
        match output_parts(parts.drop_last()) {
            None => None,
            Some(acc) => {
                let q = parts.last();
                if q.len() == 0 || q == "."@ {
                    Some(acc)
                } else if q == ".."@ {
                    if acc.len() > 0 {
                        Some(acc.drop_last())
                    } else {
                        None
                    }
                } else {
                    Some(acc.push(q))
                }
            },
        }
    }
}

/// The path (as components) of the file that a template in the directory
/// `dir` writes for its `output`: inside `dir`, or `None` when `output` is
/// absolute, steps out of `dir` with `..`, or names no file below `dir`.
pub open spec fn output_path_spec(dir: Seq<Seq<char>>, output: Seq<char>) -> Option<Seq<Seq<char>>> {
    if has_prefix(output, "/"@) {
        None
    } else {
        match output_parts(split_on(output, '/')) {
            Some(rs) => if rs.len() > 0 {
                Some(dir + rs)
            } else {
                None
            },
            None => None,
        }
    }
}

/// The views of an optional list of strings.
pub open spec fn opt_str_views(r: Option<Vec<String>>) -> Option<Seq<Seq<char>>> {
    match r {
        Some(p) => Some(str_views(p@)),
        None => None,
    }
}

proof fn lemma_output_parts_none(parts: Seq<Seq<char>>, j: int)
    requires
        0 <= j <= parts.len(),
        output_parts(parts.take(j)) is None,
    ensures
        output_parts(parts) is None,
    decreases parts.len() - j,
{
    if j < parts.len() {
        assert(parts.take(j + 1).drop_last() =~= parts.take(j));
        lemma_output_parts_none(parts, j + 1);
    } else {
        assert(parts.take(j) =~= parts);
    }
}

proof fn lemma_output_parts_plain(parts: Seq<Seq<char>>)
    requires
        forall|k: int| 0 <= k < parts.len() ==> !(#[trigger] parts[k]).contains('/'),
    ensures
        output_parts(parts) matches Some(rs) ==> forall|k: int| 0 <= k < rs.len() ==> plain_component(#[trigger] rs[k]),
    decreases parts.len(),
{
    if parts.len() > 0 {
        let init = parts.drop_last();
        assert forall|k: int| 0 <= k < init.len() implies !(#[trigger] init[k]).contains('/') by {
            assert(init[k] == parts[k]);
        }
        lemma_output_parts_plain(init);
        assert(!parts[parts.len() - 1].contains('/'));
        if let Some(acc) = output_parts(init) {
            let q = parts.last();
            if q.len() == 0 || q == "."@ {
            } else if q == ".."@ {
                if acc.len() > 0 {
                    assert forall|k: int| 0 <= k < acc.drop_last().len() implies plain_component(#[trigger] acc.drop_last()[k]) by {
                        assert(acc.drop_last()[k] == acc[k]);
                    }
                }
            } else {
                assert forall|k: int| 0 <= k < acc.push(q).len() implies plain_component(#[trigger] acc.push(q)[k]) by {
                    if k < acc.len() {
                        assert(acc.push(q)[k] == acc[k]);
                    }
                }
            }
        }
    }
}

/// Where a template in the directory with components `template_dir` writes
/// its `output`: `template_dir` followed by the components of `output`,
/// with empty components and `.` dropped and `..` stepping back up.
/// Templates never write outside their own directory tree: the result is
/// `None` when `output` is absolute, when a `..` would leave
/// `template_dir`, or when nothing is left below `template_dir`.
pub fn template_output_path(template_dir: &Vec<String>, output: &str) -> (r: Option<Vec<String>>)
    ensures
        opt_str_views(r) == output_path_spec(str_views(template_dir@), output@),
        r matches Some(p) ==> {
            &&& str_views(p@).take(template_dir@.len() as int) == str_views(template_dir@)
            &&& p@.len() > template_dir@.len()
            &&& forall|i: int| template_dir@.len() <= i < p@.len() ==> plain_component(#[trigger] p@[i]@)
        },
{
    let v = chars_of(output);
    let slash = chars_of("/");
    if starts_with_vec(&v, &slash) {
        return None;
    }
    let parts = split_chars(&v, '/');
    let ghost ps = views(parts@);
    let dot = chars_of(".");
    let dotdot = chars_of("..");
    let mut acc: Vec<Vec<char>> = Vec::new();
    let mut i: usize = 0;
    assert(ps.take(0) =~= Seq::<Seq<char>>::empty());
    while i < parts.len()
        invariant
            ps == views(parts@),
            ps == split_on(v@, '/'),
            v@ == output@,
            !has_prefix(output@, "/"@),
            i <= parts@.len(),
            output_parts(ps.take(i as int)) == Some(views(acc@)),
            dot@ == "."@,
            dotdot@ == ".."@,
        decreases parts@.len() - i,
    {
        let q = &parts[i];
        assert(ps.take(i + 1).drop_last() =~= ps.take(i as int));
        assert(ps.take(i + 1).last() == q@);
        if q.len() == 0 || eq_vec(q, &dot) {
        } else if eq_vec(q, &dotdot) {
            if acc.len() > 0 {
                let ghost before = views(acc@);
                acc.pop();
                assert(views(acc@) =~= before.drop_last());
            } else {
                proof {
                    assert(q@ != "."@);
                    assert(q@ == ".."@);
                    assert(views(acc@) =~= Seq::<Seq<char>>::empty());
                    assert(output_parts(ps.take(i + 1)) is None);
                    lemma_output_parts_none(ps, i + 1);
                }
                return None;
            }
        } else {
            let ghost before = views(acc@);
            acc.push(slice_vec(q, 0, q.len()));
            assert(q@.subrange(0, q@.len() as int) =~= q@);
            assert(views(acc@) =~= before.push(q@));
        }
        i = i + 1;
    }
    assert(ps.take(parts@.len() as int) =~= ps);
    if acc.len() == 0 {
        return None;
    }
    let mut out: Vec<String> = Vec::new();
    let mut k: usize = 0;
    while k < template_dir.len()
        invariant
            k <= template_dir@.len(),
            str_views(out@) == str_views(template_dir@).take(k as int),
        decreases template_dir@.len() - k,
    {
        let ghost before = str_views(out@);
        out.push(template_dir[k].clone());
        assert(str_views(out@) =~= before.push(template_dir@[k as int]@));
        assert(str_views(template_dir@).take(k + 1) =~= str_views(template_dir@).take(k as int).push(template_dir@[k as int]@));
        k = k + 1;
    }
    assert(str_views(template_dir@).take(template_dir@.len() as int) =~= str_views(template_dir@));
    let mut j: usize = 0;
    while j < acc.len()
        invariant
            j <= acc@.len(),
            str_views(out@) == str_views(template_dir@) + views(acc@).take(j as int),
        decreases acc@.len() - j,
    {
        let ghost before = str_views(out@);
        out.push(string_of(&acc[j]));
        assert(str_views(out@) =~= before.push(acc@[j as int]@));
        assert(views(acc@).take(j + 1) =~= views(acc@).take(j as int).push(acc@[j as int]@));
        j = j + 1;
    }
    assert(views(acc@).take(acc@.len() as int) =~= views(acc@));
    proof {
        lemma_split_on_pieces(v@, '/');
        lemma_output_parts_plain(ps);
        let d = str_views(template_dir@);
        let rs = views(acc@);
        assert(str_views(out@) == d + rs);
        assert((d + rs).take(d.len() as int) =~= d);
        assert forall|ii: int| template_dir@.len() <= ii < out@.len() implies plain_component(#[trigger] out@[ii]@) by {
            assert(out@[ii]@ == str_views(out@)[ii]);
            assert(str_views(out@)[ii] == rs[ii - d.len()]);
        }
    }
    Some(out)
}

/// Returns `true` when `filename` follows the `*.template.json` convention.
pub fn is_template_filename(filename: &str) -> (r: bool)
    ensures
        r == has_suffix(filename@, ".template.json"@),
{
    let v = chars_of(filename);
    let suf = chars_of(".template.json");
    ends_with_vec(&v, &suf)
}

/// The file names of the built-in templates, in order.
pub open spec fn builtin_names() -> Seq<Seq<char>> {
    seq!["player.template.json"@, "enemy.template.json"@, "area.template.json"@, "crop.template.json"@, "animal.template.json"@]
}

/// The built-in `player.template.json`.
pub const PLAYER_TEMPLATE: &'static str = r#"{
  "entity": "player",
  "output": "player_generated.json",
  "schema": {
    "name":        { "type": "string",  "format": "name" },
    "hp":          { "type": "integer", "value": 100 },
    "max_hp":      { "type": "integer", "value": 100 },
    "attack":      { "type": "integer", "range": [8, 15] },
    "defense":     { "type": "integer", "range": [3, 8] },
    "level":       { "type": "integer", "value": 1 },
    "exp":         { "type": "integer", "value": 0 },
    "exp_to_next": { "type": "integer", "value": 100 },
    "gold":        { "type": "integer", "range": [20, 80] }
  }
}"#;

/// The built-in `enemy.template.json`.
pub const ENEMY_TEMPLATE: &'static str = r#"{
  "entity": "enemy",
  "output": "enemy_generated.json",
  "schema": {
    "name":        { "type": "string",  "format": "enemy_name" },
    "hp":          { "type": "integer", "range": [20, 80] },
    "max_hp":      { "type": "integer", "range": [20, 80] },
    "attack":      { "type": "integer", "range": [5, 20] },
    "defense":     { "type": "integer", "range": [1, 8] },
    "exp_reward":  { "type": "integer", "range": [10, 40] },
    "gold_reward": { "type": "integer", "range": [3, 15] },
    "skills":      { "type": "array", "length": [0, 5],
                     "items": [{ "type": "string" }] }
  }
}"#;

/// The built-in `area.template.json`.
pub const AREA_TEMPLATE: &'static str = r#"{
  "entity": "area",
  "output": "area_generated.json",
  "schema": {
    "name":            { "type": "string",  "format": "area_name" },
    "description":     { "type": "string",  "format": "description" },
    "level_req":       { "type": "integer", "range": [1, 12] },
    "enemy_level":     { "type": "integer", "range": [1, 12] },
    "explore_cost_hp": { "type": "integer", "range": [0, 15] }
  }
}"#;

/// The built-in `crop.template.json`.
pub const CROP_TEMPLATE: &'static str = r#"{
  "entity": "crop",
  "output": "crop_generated.json",
  "schema": {
    "status":         { "type": "string",  "value": "occupied" },
    "crop_name":      { "type": "string",  "format": "crop_name" },
    "grow_time_secs": { "type": "integer", "range": [30, 120] },
    "yield_gold":     { "type": "integer", "range": [10, 50] },
    "planted_at_secs":{ "type": "integer", "value": 0 }
  }
}"#;

/// The built-in `animal.template.json`.
pub const ANIMAL_TEMPLATE: &'static str = r#"{
  "entity": "animal",
  "output": "animal_generated.json",
  "schema": {
    "name":                 { "type": "string",  "format": "animal_name" },
    "breed_time_secs":      { "type": "integer", "range": [60, 360] },
    "yield_gold":           { "type": "integer", "range": [10, 60] },
    "breeding":             { "type": "boolean", "value": false },
    "breed_started_at_secs":{ "type": "integer", "value": 0 }
  }
}"#;

/// The template file for every built-in entity type (`player`, `enemy`,
/// `area`, `crop`, `animal`), as `(file name, JSON text)` pairs.
pub fn builtin_templates() -> (r: Vec<(&'static str, &'static str)>)
    ensures
        r@.map_values(|p: (&'static str, &'static str)| p.0@) == builtin_names(),
        r@.map_values(|p: (&'static str, &'static str)| p.1@) == seq![PLAYER_TEMPLATE@, ENEMY_TEMPLATE@, AREA_TEMPLATE@, CROP_TEMPLATE@, ANIMAL_TEMPLATE@],
{
    let mut v: Vec<(&'static str, &'static str)> = Vec::new();
    v.push(("player.template.json", PLAYER_TEMPLATE));
    v.push(("enemy.template.json", ENEMY_TEMPLATE));
    v.push(("area.template.json", AREA_TEMPLATE));
    v.push(("crop.template.json", CROP_TEMPLATE));
    v.push(("animal.template.json", ANIMAL_TEMPLATE));
    assert(v@.map_values(|p: (&'static str, &'static str)| p.0@) =~= builtin_names());
    assert(v@.map_values(|p: (&'static str, &'static str)| p.1@) =~= seq![PLAYER_TEMPLATE@, ENEMY_TEMPLATE@, AREA_TEMPLATE@, CROP_TEMPLATE@, ANIMAL_TEMPLATE@]);
    v
}

} // verus!
