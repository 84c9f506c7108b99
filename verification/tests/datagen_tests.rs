use rwcore::datagen::{
    generator_from_data_type, Column, DataType, DatagenProperties, DatagenSplit,
    DatagenSplitReader, FieldGenerator, SplitImpl, StructType,
};
use rwcore::datagen_options::FieldOptions;
use rwcore::strings::{parse_u64, push_i32, push_u64};

fn options(pairs: &[(&str, &str)]) -> FieldOptions {
    let mut o = FieldOptions::new();
    for (k, v) in pairs {
        o.insert(k.to_string(), v.to_string());
    }
    o
}

fn generator_options() -> FieldOptions {
    options(&[
        ("fields.random_int.min", "1"),
        ("fields.random_int.max", "1000"),
        ("fields.random_int.seed", "12345"),
        ("fields.random_float.min", "1"),
        ("fields.random_float.max", "1000"),
        ("fields.random_float.seed", "12345"),
        ("fields.sequence_int.kind", "sequence"),
        ("fields.sequence_int.start", "1"),
        ("fields.sequence_int.end", "1000"),
        ("fields.struct.random_int.min", "1001"),
        ("fields.struct.random_int.max", "2000"),
        ("fields.struct.random_int.seed", "12345"),
    ])
}

fn generator_columns() -> Vec<Column> {
    vec![
        Column { name: "random_int".to_string(), data_type: DataType::Int32 },
        Column { name: "random_float".to_string(), data_type: DataType::Float32 },
        Column { name: "sequence_int".to_string(), data_type: DataType::Int32 },
        Column {
            name: "struct".to_string(),
            data_type: DataType::Struct(StructType {
                fields: vec![DataType::Int32],
                field_names: vec!["random_int".to_string()],
            }),
        },
    ]
}

fn some(s: &str) -> Option<String> {
    Some(s.to_string())
}

#[test]
fn options_map_get_and_replace() {
    let mut o = options(&[("a", "1"), ("b", "2")]);
    assert_eq!(o.get("a"), Some(&"1".to_string()));
    assert_eq!(o.get("c"), None);
    o.insert("a".to_string(), "3".to_string());
    assert_eq!(o.get("a"), Some(&"3".to_string()));
    assert_eq!(o.get("b"), Some(&"2".to_string()));
}

#[test]
fn parse_u64_like_std() {
    for s in ["0", "12345", "+7", "007", "18446744073709551615", "", "+", "-1", "1a", " 1", "18446744073709551616", "99999999999999999999x"] {
        assert_eq!(parse_u64(s), s.parse::<u64>().ok(), "{}", s);
    }
}

#[test]
fn decimal_text_of_integers() {
    let mut s = String::new();
    push_u64(&mut s, 0);
    push_u64(&mut s, 1234567890);
    assert_eq!(s, "01234567890");
    let mut t = String::new();
    push_i32(&mut t, i32::MIN);
    push_i32(&mut t, 5);
    assert_eq!(t, format!("{}{}", i32::MIN, 5));
}

#[test]
fn split_ids() {
    let d = DatagenSplit { split_index: 3, split_num: 8, start_offset: None };
    assert_eq!(d.id(), "8-3");
    assert_eq!(SplitImpl::Datagen(d).id(), "8-3");
    assert_eq!(SplitImpl::Other("kafka-0".to_string()).id(), "kafka-0");
    let z = DatagenSplit::default();
    assert_eq!((z.split_index, z.split_num, z.start_offset), (0, 0, None));
}

#[test]
fn plans_for_the_generator_test_columns() {
    let opts = generator_options();
    let cols = generator_columns();
    let plans: Vec<FieldGenerator> = cols
        .iter()
        .map(|c| generator_from_data_type(&c.data_type, &opts, &c.name, 0, 1))
        .collect();
    match &plans[0] {
        FieldGenerator::NumberRandom { data_type: DataType::Int32, min, max, seed } => {
            assert_eq!(min, &some("1"));
            assert_eq!(max, &some("1000"));
            assert_eq!(*seed, 12345);
        }
        other => panic!("unexpected {:?}", other),
    }
    match &plans[1] {
        FieldGenerator::NumberRandom { data_type: DataType::Float32, seed, .. } => assert_eq!(*seed, 12345),
        other => panic!("unexpected {:?}", other),
    }
    match &plans[2] {
        FieldGenerator::NumberSequence { data_type: DataType::Int32, start, end, split_index, split_num } => {
            assert_eq!(start, &some("1"));
            assert_eq!(end, &some("1000"));
            assert_eq!((*split_index, *split_num), (0, 1));
        }
        other => panic!("unexpected {:?}", other),
    }
    match &plans[3] {
        FieldGenerator::Struct { fields } => {
            assert_eq!(fields.len(), 1);
            assert_eq!(fields[0].0, "random_int");
            match &fields[0].1 {
                FieldGenerator::NumberRandom { min, max, seed, .. } => {
                    assert_eq!(min, &some("1001"));
                    assert_eq!(max, &some("2000"));
                    assert_eq!(*seed, 12345);
                }
                other => panic!("unexpected {:?}", other),
            }
        }
        other => panic!("unexpected {:?}", other),
    }
}

#[test]
fn seeds_differ_by_split() {
    let opts = options(&[("fields.v.seed", "12345")]);
    let name = "v".to_string();
    let seed_of = |split: u64| match generator_from_data_type(&DataType::Int64, &opts, &name, split, 4) {
        FieldGenerator::NumberRandom { seed, .. } => seed,
        other => panic!("unexpected {:?}", other),
    };
    assert_eq!(seed_of(0), 12345);
    assert_eq!(seed_of(3), 12345 ^ 3);
    assert_ne!(seed_of(1), seed_of(2));
}

#[test]
fn bad_or_missing_seed_uses_split_index() {
    let opts = options(&[("fields.v.seed", "-5")]);
    let name = "v".to_string();
    match generator_from_data_type(&DataType::Int16, &opts, &name, 7, 8) {
        FieldGenerator::NumberRandom { seed, min, max, .. } => {
            assert_eq!(seed, 7);
            assert_eq!((min, max), (None, None));
        }
        other => panic!("unexpected {:?}", other),
    }
    let name = "w".to_string();
    match generator_from_data_type(&DataType::Varchar, &opts, &name, 2, 8) {
        FieldGenerator::Varchar { length, seed } => {
            assert_eq!(length, None);
            assert_eq!(seed, 2);
        }
        other => panic!("unexpected {:?}", other),
    }
}

#[test]
fn timestamp_list_and_varchar_options() {
    let opts = options(&[
        ("fields.t.max_past", "2h"),
        ("fields.t.max_past_mode", "ReLaTiVe"),
        ("fields.l.length", "3"),
        ("fields.l._.length", "5"),
        ("fields.s.length", "10"),
    ]);
    match generator_from_data_type(&DataType::Timestamp, &opts, &"t".to_string(), 0, 1) {
        FieldGenerator::Timestamp { max_past, max_past_mode, seed } => {
            assert_eq!(max_past, some("2h"));
            assert_eq!(max_past_mode, some("relative"));
            assert_eq!(seed, 0);
        }
        other => panic!("unexpected {:?}", other),
    }
    let list = DataType::List { datatype: Box::new(DataType::Varchar) };
    match generator_from_data_type(&list, &opts, &"l".to_string(), 0, 1) {
        FieldGenerator::List { element, length } => {
            assert_eq!(length, some("3"));
            match *element {
                FieldGenerator::Varchar { length, .. } => assert_eq!(length, some("5")),
                other => panic!("unexpected {:?}", other),
            }
        }
        other => panic!("unexpected {:?}", other),
    }
    match generator_from_data_type(&DataType::Varchar, &opts, &"s".to_string(), 0, 1) {
        FieldGenerator::Varchar { length, .. } => assert_eq!(length, some("10")),
        other => panic!("unexpected {:?}", other),
    }
}

#[test]
fn reader_takes_the_first_datagen_split() {
    let properties = DatagenProperties { split_num: None, rows_per_second: 10, fields: generator_options() };
    let state = Some(vec![
        SplitImpl::Other("x-1".to_string()),
        SplitImpl::Datagen(DatagenSplit { split_index: 2, split_num: 4, start_offset: Some(9) }),
        SplitImpl::Datagen(DatagenSplit { split_index: 3, split_num: 4, start_offset: None }),
    ]);
    let reader = DatagenSplitReader::new(properties, state, Some(generator_columns()));
    let split = reader.assigned_split();
    assert_eq!((split.split_index, split.split_num, split.start_offset), (2, 4, Some(9)));
    let g = reader.generator();
    assert_eq!(g.events_so_far, 10);
    assert_eq!(g.split_id, "4-2");
    assert_eq!((g.split_index, g.split_num, g.rows_per_second), (2, 4, 10));
    assert_eq!(g.fields.len(), 4);
    match &g.fields[0] {
        FieldGenerator::NumberRandom { seed, .. } => assert_eq!(*seed, 12345 ^ 2),
        other => panic!("unexpected {:?}", other),
    }
}

#[test]
fn reader_without_datagen_split_starts_at_zero() {
    let properties = DatagenProperties { split_num: None, rows_per_second: 5, fields: FieldOptions::new() };
    let state = Some(vec![SplitImpl::Other("a".to_string()), SplitImpl::Other("b".to_string())]);
    let reader = DatagenSplitReader::new(properties, state, Some(vec![]));
    let g = reader.generator();
    assert_eq!(g.events_so_far, 0);
    assert_eq!(g.split_id, "b");
    assert_eq!((g.split_index, g.split_num), (0, 0));
    let properties = DatagenProperties { split_num: None, rows_per_second: 5, fields: FieldOptions::new() };
    let reader = DatagenSplitReader::new(properties, None, Some(vec![]));
    assert_eq!(reader.generator().split_id, "");
}

#[test]
fn resumed_reader_continues_after_the_offset() {
    let fresh = DatagenSplitReader::new(
        DatagenProperties { split_num: None, rows_per_second: 10, fields: generator_options() },
        Some(vec![SplitImpl::Datagen(DatagenSplit { split_index: 0, split_num: 1, start_offset: None })]),
        Some(generator_columns()),
    );
    let resumed = DatagenSplitReader::new(
        DatagenProperties { split_num: None, rows_per_second: 10, fields: generator_options() },
        Some(vec![SplitImpl::Datagen(DatagenSplit { split_index: 0, split_num: 1, start_offset: Some(9) })]),
        Some(generator_columns()),
    );
    assert_eq!(fresh.generator().events_so_far, 0);
    assert_eq!(resumed.generator().events_so_far, 10);
    assert_eq!(format!("{:?}", fresh.generator().fields), format!("{:?}", resumed.generator().fields));
}
