use clg::template::{
    draw_fields, draw_for, generate_object, generate_value, object_from_draws, template_output_path, value_from_draws,
    Draws, FieldSchema, GenValue, StringFormat,
};

const ENEMY_NAMES: [&str; 15] = [
    "哥布林", "狼人", "强盗头目", "石像鬼", "黑暗法师", "骷髅战士", "食人魔", "巨蜘蛛", "蝙蝠王", "暗影杀手",
    "炎魔", "冰龙", "毒蛇精", "沙漠蝎王", "古树精",
];
const SURNAMES: [&str; 20] = [
    "李", "王", "张", "刘", "陈", "杨", "赵", "黄", "周", "吴", "徐", "孙", "胡", "朱", "高", "林", "何", "郭",
    "马", "罗",
];
const AREA_NAMES: [&str; 10] = [
    "幽暗森林", "魔法峡谷", "碎骨荒原", "冰封雪山", "熔岩洞窟", "幽灵废墟", "迷雾沼泽", "雷鸣高地", "深海神庙",
    "星落平原",
];
const CROP_NAMES: [&str; 10] = ["小麦", "土豆", "胡萝卜", "南瓜", "番茄", "草莓", "玉米", "西瓜", "甘蔗", "甜菜"];
const WORDS: [&str; 10] = ["勇气", "智慧", "力量", "速度", "敏捷", "耐力", "魔力", "神秘", "古老", "传奇"];

fn int_schema(range: Option<[i64; 2]>, value: Option<i64>) -> FieldSchema {
    FieldSchema::Integer { range, value }
}

fn string(length: Option<[usize; 2]>, format: Option<StringFormat>, value: Option<&str>) -> FieldSchema {
    FieldSchema::String { length, format, value: value.map(|s| s.to_string()) }
}

fn as_int(v: &GenValue) -> i64 {
    match v {
        GenValue::Int(n) => *n,
        other => panic!("not an integer: {:?}", other),
    }
}

fn as_str(v: &GenValue) -> String {
    match v {
        GenValue::Str(s) => s.clone(),
        other => panic!("not a string: {:?}", other),
    }
}

#[test]
fn integer_fields() {
    assert_eq!(as_int(&generate_value(&int_schema(None, Some(7)))), 7);
    assert_eq!(as_int(&generate_value(&int_schema(Some([1, 9]), Some(-3)))), -3);
    assert_eq!(as_int(&generate_value(&int_schema(Some([4, 4]), None))), 4);
    // a backwards range draws from its lower end alone
    assert_eq!(as_int(&generate_value(&int_schema(Some([5, 2]), None))), 5);
    assert_eq!(as_int(&generate_value(&int_schema(None, None))), 0);
    let mut seen = std::collections::BTreeSet::new();
    for _ in 0..50 {
        let n = as_int(&generate_value(&int_schema(Some([20, 80]), None)));
        assert!((20..=80).contains(&n));
        seen.insert(n);
    }
    // fifty draws from sixty-one values are not all the same
    assert!(seen.len() > 1);
}

#[test]
fn string_fields() {
    assert_eq!(as_str(&generate_value(&string(None, Some(StringFormat::Name), Some("occupied")))), "occupied");
    for _ in 0..30 {
        let e = as_str(&generate_value(&string(None, Some(StringFormat::EnemyName), None)));
        assert!(ENEMY_NAMES.contains(&e.as_str()));
        let w = as_str(&generate_value(&string(None, None, None)));
        assert!(WORDS.contains(&w.as_str()));
        let name = as_str(&generate_value(&string(None, Some(StringFormat::Name), None)));
        assert_eq!(name.chars().count(), 2);
        let first: String = name.chars().take(1).collect();
        assert!(SURNAMES.contains(&first.as_str()));
    }
}

#[test]
fn string_lengths_stay_in_range() {
    for _ in 0..30 {
        let a = as_str(&generate_value(&string(Some([1, 1]), Some(StringFormat::AreaName), None)));
        assert_eq!(a.chars().count(), 1);
        assert!(AREA_NAMES.iter().any(|n| n.starts_with(a.as_str())));
        // words shorter than the range are joined until the length is reached
        let w = as_str(&generate_value(&string(Some([5, 8]), Some(StringFormat::Word), None)));
        let n = w.chars().count();
        assert!((5..=8).contains(&n), "{} has {} characters", w, n);
        let first: String = w.chars().take(2).collect();
        assert!(WORDS.contains(&first.as_str()));
        let c = as_str(&generate_value(&string(Some([10, 12]), Some(StringFormat::CropName), None)));
        assert!((10..=12).contains(&c.chars().count()));
        let z = as_str(&generate_value(&string(Some([0, 0]), Some(StringFormat::Word), None)));
        assert_eq!(z, "");
        // a backwards range gives its lower end
        let b = as_str(&generate_value(&string(Some([3, 1]), Some(StringFormat::Word), None)));
        assert_eq!(b.chars().count(), 3);
    }
}

#[test]
fn boolean_and_float_fields() {
    assert!(matches!(generate_value(&FieldSchema::Boolean { value: Some(false) }), GenValue::Bool(false)));
    assert!(matches!(generate_value(&FieldSchema::Boolean { value: None }), GenValue::Bool(_)));
    let bits = 2.5_f64.to_bits();
    match generate_value(&FieldSchema::Float { range: None, value: Some(bits) }) {
        GenValue::Float { range: None, value: Some(b) } => assert_eq!(f64::from_bits(b), 2.5),
        other => panic!("unexpected {:?}", other),
    }
}

#[test]
fn array_fields_cycle_their_items() {
    let empty = FieldSchema::Array { length: [2, 4], items: vec![] };
    assert!(matches!(generate_value(&empty), GenValue::Array(v) if v.is_empty()));
    let arr = FieldSchema::Array {
        length: [3, 3],
        items: vec![int_schema(None, Some(1)), FieldSchema::Boolean { value: Some(true) }],
    };
    match generate_value(&arr) {
        GenValue::Array(v) => {
            assert_eq!(v.len(), 3);
            assert_eq!(as_int(&v[0]), 1);
            assert!(matches!(v[1], GenValue::Bool(true)));
            assert_eq!(as_int(&v[2]), 1);
        }
        other => panic!("unexpected {:?}", other),
    }
    for _ in 0..20 {
        let skills = FieldSchema::Array { length: [0, 5], items: vec![string(None, None, None)] };
        match generate_value(&skills) {
            GenValue::Array(v) => {
                assert!(v.len() <= 5);
                assert!(v.iter().all(|s| WORDS.contains(&as_str(s).as_str())));
            }
            other => panic!("unexpected {:?}", other),
        }
    }
}

#[test]
fn objects_keep_field_names_in_order() {
    let schema = vec![
        ("hp".to_string(), int_schema(None, Some(100))),
        ("attack".to_string(), int_schema(Some([8, 15]), None)),
        (
            "inner".to_string(),
            FieldSchema::Object { fields: vec![("status".to_string(), string(None, None, Some("occupied")))] },
        ),
    ];
    let obj = generate_object(&schema);
    assert_eq!(obj.len(), 3);
    assert_eq!(obj[0].0, "hp");
    assert_eq!(as_int(&obj[0].1), 100);
    assert_eq!(obj[1].0, "attack");
    assert!((8..=15).contains(&as_int(&obj[1].1)));
    match &obj[2].1 {
        GenValue::Object(inner) => {
            assert_eq!(inner.len(), 1);
            assert_eq!(inner[0].0, "status");
            assert_eq!(as_str(&inner[0].1), "occupied");
        }
        other => panic!("unexpected {:?}", other),
    }
}

#[test]
fn template_outputs_stay_in_their_directory() {
    let dir = vec!["world".to_string(), "森林".to_string()];
    let out = |o: &str| template_output_path(&dir, o);
    let p = |v: &[&str]| Some(v.iter().map(|s| s.to_string()).collect::<Vec<String>>());
    assert_eq!(out("enemy.json"), p(&["world", "森林", "enemy.json"]));
    assert_eq!(out("sub/./x.json"), p(&["world", "森林", "sub", "x.json"]));
    assert_eq!(out("sub/../x.json"), p(&["world", "森林", "x.json"]));
    assert_eq!(out("a//b/"), p(&["world", "森林", "a", "b"]));
    assert_eq!(out("../x.json"), None);
    assert_eq!(out("sub/../../x.json"), None);
    assert_eq!(out("/etc/x.json"), None);
    assert_eq!(out(""), None);
    assert_eq!(out("."), None);
    assert_eq!(out("a/.."), None);
}

#[test]
fn values_follow_their_draws() {
    assert_eq!(as_int(&value_from_draws(&int_schema(Some([1, 9]), None), &Draws::Int(7))), 7);
    assert_eq!(as_int(&value_from_draws(&int_schema(Some([1, 9]), Some(4)), &Draws::Nothing)), 4);
    // the first three words, written one after another and cut to five characters
    let word = string(Some([5, 8]), Some(StringFormat::Word), None);
    let d = Draws::Str { picks: vec![(0, 0), (1, 0), (2, 0)], target: 5 };
    assert_eq!(as_str(&value_from_draws(&word, &d)), "勇气智慧力");
    let name = string(None, Some(StringFormat::Name), None);
    let d = Draws::Str { picks: vec![(0, 0)], target: 0 };
    assert_eq!(as_str(&value_from_draws(&name, &d)), "李伟");
    let arr = FieldSchema::Array { length: [2, 2], items: vec![int_schema(Some([0, 9]), None)] };
    match value_from_draws(&arr, &Draws::Items(vec![Draws::Int(3), Draws::Int(4)])) {
        GenValue::Array(v) => assert_eq!((as_int(&v[0]), as_int(&v[1])), (3, 4)),
        other => panic!("unexpected {:?}", other),
    }
    assert!(matches!(value_from_draws(&FieldSchema::Boolean { value: None }, &Draws::Bool(true)), GenValue::Bool(true)));
    let fields = vec![("hp".to_string(), int_schema(Some([1, 100]), None)), ("tag".to_string(), string(None, None, Some("x")))];
    let obj = object_from_draws(&fields, &vec![Draws::Int(55), Draws::Nothing]);
    assert_eq!((obj[0].0.as_str(), as_int(&obj[0].1)), ("hp", 55));
    assert_eq!((obj[1].0.as_str(), as_str(&obj[1].1).as_str()), ("tag", "x"));
    // drawing, then building, stays within the schema
    let d = draw_for(&word);
    let n = as_str(&value_from_draws(&word, &d)).chars().count();
    assert!((5..=8).contains(&n));
    let ds = draw_fields(&fields);
    assert_eq!(ds.len(), 2);
}
