use databench_rs::generator::{Chernobyl, Generator as _};
use databench_rs::hierarchy::{Area, PowerplantElement, ProductionLine, Site, Tag, Type, Unit, WorkCell};
use databench_rs::message::{compose_message, render_value, synthesize, value_range};
use databench_rs::pipeline::{generate_batch, partition_work, Generator};
use databench_rs::topic::{generate_topics, topic_for, GeneratorError, TopicChoice, TOPIC_DEPTH};

fn s(text: &str) -> String {
    text.to_string()
}

fn plant_with(tags: Vec<(&str, Unit, Type)>) -> PowerplantElement {
    let tags = tags.into_iter().map(|(n, u, t)| Tag::new(s(n), u, t)).collect();
    let cell = WorkCell::new(s("reactorcore"), s("sensors"), tags);
    let line = ProductionLine::new(s("unit4"), vec![cell]);
    let area = Area::new(s("reactorhall"), vec![line]);
    let site = Site::new(s("pripyat"), vec![area]);
    PowerplantElement::new(s("chernobylnuclearpowerplant"), vec![site])
}

fn sample_plant() -> PowerplantElement {
    let cells = vec![
        WorkCell::new(
            s("reactorcore"),
            s("sensors"),
            vec![
                Tag::new(s("temperature"), Unit::DegreeC, Type::Float),
                Tag::new(s("pressure"), Unit::Pascal, Type::Int),
                Tag::new(s("radiation"), Unit::SievertPerHour, Type::Float),
                Tag::new(s("scram"), Unit::NoUnit, Type::Boolean),
            ],
        ),
        WorkCell::new(
            s("turbine"),
            s("drive"),
            vec![
                Tag::new(s("speed"), Unit::RotationsPerMinute, Type::Int),
                Tag::new(s("power"), Unit::Watt, Type::Float),
                Tag::new(s("voltage"), Unit::Volt, Type::Int),
            ],
        ),
    ];
    let lines = vec![
        ProductionLine::new(s("unit4"), cells),
        ProductionLine::new(
            s("unit3"),
            vec![WorkCell::new(
                s("coolant"),
                s("pumps"),
                vec![
                    Tag::new(s("flow"), Unit::CubicMetersPerHour, Type::Float),
                    Tag::new(s("level"), Unit::Percent, Type::Int),
                    Tag::new(s("current"), Unit::Ampere, Type::Float),
                    Tag::new(s("velocity"), Unit::Speed, Type::Int),
                ],
            )],
        ),
    ];
    let area = Area::new(s("reactorhall"), lines);
    let site = Site::new(s("pripyat"), vec![area]);
    PowerplantElement::new(s("chernobylnuclearpowerplant"), vec![site])
}

fn is_word(part: &str) -> bool {
    !part.is_empty() && part.chars().all(|c| c.is_alphanumeric() || c == '_')
}

fn json_field(payload: &[u8], field: &str) -> String {
    let v: serde_json::Value = serde_json::from_slice(payload).unwrap();
    let o = v.as_object().unwrap();
    assert_eq!(o.len(), 2);
    assert!(o.contains_key("timestamp_ms"));
    o.get(field).unwrap().as_str().unwrap().to_string()
}

#[test]
fn test_new_generator() {
    let plant = sample_plant();
    let topic_amount = 1000;
    let g = Generator::new(&plant, topic_amount, 4, 1000).unwrap();
    assert_eq!(g.topics.len(), topic_amount);
    // display first 10 topics
    let topics = g.get_topics();
    for i in 0..10 {
        println!("{}", topics[i].name);
    }

    let messages = g.get_message();
    // Get 5 messages
    for _ in 0..5 {
        let msg = messages.get(0).expect("Failed to get message");
        let full_topic = msg.topic.clone() + "." + &msg.key;
        println!("{}: {:?}", full_topic, msg.value);
    }
}

#[test]
fn test_chernobyl() {
    let plant = sample_plant();
    let c = Chernobyl::new(&plant, 3, 100).unwrap();
    for _ in 0..100 {
        let m = c.get_message().unwrap();

        // Assert that the topic is correct
        assert_eq!(m.topic, "umh.v1.chernobylnuclearpowerplant");

        // Key must be in this form: ^(?:\w+\.){6}\d+$
        let parts: Vec<&str> = m.key.split('.').collect();
        assert_eq!(parts.len(), 7);
        assert!(parts[..6].iter().all(|p| is_word(p)));
        assert!(!parts[6].is_empty() && parts[6].chars().all(|c| c.is_ascii_digit()));

        // Assert that the value is valid json
        let v: serde_json::Value = serde_json::from_slice(&m.value).unwrap();
        assert!(v.is_object());
    }
}

#[test]
fn topics_have_one_segment_per_level() {
    let plant = sample_plant();
    let topics = generate_topics(&plant, 500).unwrap();
    assert_eq!(topics.len(), 500);
    for t in &topics {
        let parts: Vec<&str> = t.name.split('.').collect();
        assert_eq!(parts.len(), TOPIC_DEPTH);
        assert_eq!(&parts[..3], &["umh", "v1", "chernobylnuclearpowerplant"]);
        let n: u32 = parts[3].strip_prefix("pripyat").unwrap().parse().unwrap();
        assert!((1..=4).contains(&n));
        assert_eq!(t.segments.len(), TOPIC_DEPTH);
    }
}

#[test]
fn split_and_rejoin_gives_path_and_suffix() {
    let plant = sample_plant();
    let t = topic_for(&plant, TopicChoice { line_number: 2, area: 0, production_line: 0, work_cell: 0, tag: 0 });
    assert_eq!(t.name, "umh.v1.chernobylnuclearpowerplant.pripyat2.reactorhall.unit4.reactorcore.sensors.temperature");
    for split in 1..TOPIC_DEPTH {
        let m = compose_message(&t, split, 1_700_000_000_123_456_789, 5).unwrap();
        assert_eq!(format!("{}.{}", m.topic, m.key), format!("{}.1700000000123456789", t.name));
    }
}

#[test]
fn compose_message_exact_payload() {
    let plant = plant_with(vec![("core", Unit::DegreeC, Type::Int)]);
    let t = topic_for(&plant, TopicChoice { line_number: 1, area: 0, production_line: 0, work_cell: 0, tag: 0 });
    let m = compose_message(&t, 3, 1_700_000_000_123_456_789, 42).unwrap();
    assert_eq!(m.topic, "umh.v1.chernobylnuclearpowerplant");
    assert_eq!(m.key, "pripyat1.reactorhall.unit4.reactorcore.sensors.core.1700000000123456789");
    assert_eq!(String::from_utf8(m.value).unwrap(), r#"{"degreeC":"42","timestamp_ms":"1700000000123"}"#);

    let plant = plant_with(vec![("grid", Unit::Watt, Type::Float)]);
    let t = topic_for(&plant, TopicChoice { line_number: 1, area: 0, production_line: 0, work_cell: 0, tag: 0 });
    let m = compose_message(&t, 100, 5_000_000, 1_500_000).unwrap();
    assert_eq!(m.topic, t.name);
    assert_eq!(m.key, ".5000000");
    assert_eq!(String::from_utf8(m.value).unwrap(), r#"{"timestamp_ms":"5","watt":"1.500000"}"#);
}

#[test]
fn render_value_formats() {
    assert_eq!(render_value(Unit::SievertPerHour, Type::Float, 123), "0.000000123");
    assert_eq!(render_value(Unit::Pascal, Type::Float, 100_000_000), "100.000000");
    assert_eq!(render_value(Unit::DegreeC, Type::Float, 999_999_999), "999.999999");
    assert_eq!(render_value(Unit::Percent, Type::Int, 7), "7");
    assert_eq!(render_value(Unit::NoUnit, Type::Boolean, 0), "false");
    assert_eq!(render_value(Unit::NoUnit, Type::Boolean, 1), "true");
}

#[test]
fn pascal_float_values_stay_in_range() {
    let plant = plant_with(vec![("pressure", Unit::Pascal, Type::Float)]);
    let t = topic_for(&plant, TopicChoice { line_number: 1, area: 0, production_line: 0, work_cell: 0, tag: 0 });
    for _ in 0..10_000 {
        let m = synthesize(&t, 3).unwrap();
        let v: f64 = json_field(&m.value, "pascal").parse().unwrap();
        assert!((100.0..10_000_000.0).contains(&v), "{}", v);
    }
}

#[test]
fn every_supported_pair_has_its_field_and_range() {
    let units = [
        (Unit::NoUnit, "value"),
        (Unit::DegreeC, "degreeC"),
        (Unit::Percent, "percent"),
        (Unit::Pascal, "pascal"),
        (Unit::CubicMetersPerHour, "cubicMetersPerHour"),
        (Unit::Volt, "volt"),
        (Unit::Ampere, "ampere"),
        (Unit::SievertPerHour, "sievertPerHour"),
        (Unit::RotationsPerMinute, "rotationsPerMinute"),
        (Unit::Watt, "watt"),
        (Unit::Speed, "metersPerSecond"),
    ];
    for (unit, field) in units {
        assert_eq!(unit.field_name(), field);
        for vt in [Type::Boolean, Type::Float, Type::Int] {
            let plant = plant_with(vec![("tag", unit, vt)]);
            let t = topic_for(&plant, TopicChoice { line_number: 1, area: 0, production_line: 0, work_cell: 0, tag: 0 });
            let r = synthesize(&t, 3);
            if unit != Unit::NoUnit && vt == Type::Boolean {
                assert_eq!(r.err(), Some(GeneratorError::UnsupportedCombination(unit)));
                assert!(value_range(unit, vt).is_none());
                continue;
            }
            let m = r.unwrap();
            let text = json_field(&m.value, field);
            let (lo, hi) = value_range(unit, vt).unwrap();
            match vt {
                Type::Boolean => assert!(text == "true" || text == "false"),
                Type::Int => {
                    let v: u64 = text.parse().unwrap();
                    assert!(lo <= v && v < hi);
                }
                Type::Float => {
                    let digits = if unit == Unit::SievertPerHour { 9 } else { 6 };
                    let (whole, frac) = text.split_once('.').unwrap();
                    assert_eq!(frac.len(), digits);
                    let v: u64 = format!("{}{}", whole, frac).parse().unwrap();
                    assert!(lo <= v && v < hi);
                }
            }
        }
    }
    assert_eq!(value_range(Unit::Watt, Type::Float), Some((0, 1_000_000_000_000)));
    assert_eq!(value_range(Unit::SievertPerHour, Type::Float), Some((0, 1_000_000_000)));
}

#[test]
fn unsupported_topics_are_skipped_by_workers() {
    let plant = plant_with(vec![
        ("flag", Unit::Volt, Type::Boolean),
        ("ok", Unit::NoUnit, Type::Boolean),
        ("bad", Unit::Watt, Type::Boolean),
    ]);
    let topics = generate_topics(&plant, 200).unwrap();
    let ms = generate_batch(&topics, 3, 300).unwrap();
    assert_eq!(ms.len(), 300);
    for m in &ms {
        assert!(m.key.starts_with("pripyat"));
        let text = json_field(&m.value, "value");
        assert!(text == "true" || text == "false");
    }
    let c = Chernobyl::new(&plant, 3, 50).unwrap();
    let mut skipped = 0;
    for _ in 0..200 {
        match c.get_message() {
            Ok(m) => assert!(json_field(&m.value, "value").len() >= 4),
            Err(GeneratorError::UnsupportedCombination(u)) => {
                assert!(u == Unit::Volt || u == Unit::Watt);
                skipped += 1;
            }
            Err(e) => panic!("{:?}", e),
        }
    }
    assert!(skipped > 0);
}

#[test]
fn generation_errors() {
    let plant = sample_plant();
    assert_eq!(generate_topics(&plant, 0).err(), Some(GeneratorError::EmptyPopulation));
    let empty = PowerplantElement::new(s("x"), vec![]);
    assert_eq!(generate_topics(&empty, 3).err(), Some(GeneratorError::NoSite));
    let bare = PowerplantElement::new(s("x"), vec![Site::new(s("y"), vec![])]);
    assert_eq!(generate_topics(&bare, 3).err(), Some(GeneratorError::EmptyLevel));
    let no_tags = PowerplantElement::new(
        s("x"),
        vec![Site::new(s("y"), vec![Area::new(s("a"), vec![ProductionLine::new(s("l"), vec![WorkCell::new(s("c"), s("g"), vec![])])])])],
    );
    assert_eq!(generate_topics(&no_tags, 1).err(), Some(GeneratorError::EmptyLevel));
    let only_bad = plant_with(vec![("flag", Unit::Pascal, Type::Boolean)]);
    let topics = generate_topics(&only_bad, 4).unwrap();
    assert_eq!(generate_batch(&topics, 3, 1).err(), Some(GeneratorError::NoValidTopic));
    assert_eq!(generate_batch(&topics, 3, 0).unwrap().len(), 0);
    assert_eq!(generate_batch(&Vec::new(), 3, 2).err(), Some(GeneratorError::EmptyPopulation));
    assert_eq!(Generator::new(&plant, 0, 3, 3).err(), Some(GeneratorError::EmptyPopulation));
}

#[test]
fn work_is_partitioned_exactly() {
    assert_eq!(partition_work(1000, 16), (62, 8));
    assert_eq!(partition_work(10, 16), (0, 10));
    assert_eq!(partition_work(32, 16), (2, 0));
    assert_eq!(partition_work(0, 16), (0, 0));
}

#[test]
fn unit_symbols() {
    assert_eq!(Unit::from_symbol(""), Some(Unit::NoUnit));
    assert_eq!(Unit::from_symbol("°C"), Some(Unit::DegreeC));
    assert_eq!(Unit::from_symbol("Pa"), Some(Unit::Pascal));
    assert_eq!(Unit::from_symbol("m3/h"), Some(Unit::CubicMetersPerHour));
    assert_eq!(Unit::from_symbol("Sv/h"), Some(Unit::SievertPerHour));
    assert_eq!(Unit::from_symbol("m/s"), Some(Unit::Speed));
    assert_eq!(Unit::from_symbol("furlong"), None);
    assert!(Unit::Watt.is_physical());
    assert!(!Unit::NoUnit.is_physical());
}

#[test]
fn chernobyl_grows_and_refuses_empty() {
    let plant = sample_plant();
    let mut c = Chernobyl::new(&plant, 3, 10).unwrap();
    let first: Vec<String> = c.topics.iter().map(|t| t.name.clone()).collect();
    c.generate_topics(&plant, 0).unwrap();
    assert_eq!(c.topics.len(), 10);
    c.generate_topics(&plant, 5).unwrap();
    assert_eq!(c.topics.len(), 15);
    let kept: Vec<String> = c.topics[..10].iter().map(|t| t.name.clone()).collect();
    assert_eq!(kept, first);
    assert_eq!(c.split_point, 3);
    let empty = PowerplantElement::new(s("x"), vec![]);
    assert_eq!(c.generate_topics(&empty, 2).err(), Some(GeneratorError::NoSite));
    assert_eq!(c.topics.len(), 15);
    assert_eq!(Chernobyl::new(&plant, 3, 0).err(), Some(GeneratorError::EmptyPopulation));
    let none = Chernobyl { split_point: 3, topics: Vec::new() };
    assert_eq!(none.get_message().err(), Some(GeneratorError::EmptyPopulation));
}

#[test]
fn an_empty_level_is_refused_even_if_no_walk_meets_it() {
    let good = Area::new(
        s("hall"),
        vec![ProductionLine::new(s("l"), vec![WorkCell::new(s("c"), s("g"), vec![Tag::new(s("t"), Unit::Volt, Type::Int)])])],
    );
    let mut areas = vec![good];
    areas.push(Area::new(s("empty"), vec![]));
    let plant = PowerplantElement::new(s("x"), vec![Site::new(s("y"), areas)]);
    for _ in 0..20 {
        assert_eq!(generate_topics(&plant, 1).err(), Some(GeneratorError::EmptyLevel));
    }
    assert_eq!(Chernobyl::new(&plant, 3, 1).err(), Some(GeneratorError::EmptyLevel));
    assert_eq!(Generator::new(&plant, 5, 3, 5).err(), Some(GeneratorError::EmptyLevel));
}
