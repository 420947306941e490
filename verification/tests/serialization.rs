use tldr::{Article, Date, Newsletter, deserialize_newsletter, serialize_newsletter};

fn sample() -> Newsletter {
    Newsletter {
        title: "Title of Newsletter".to_string(),
        subtitle: "Subtitle of Newsletter".to_string(),
        category: "News".to_string(),
        date: Date::from_ymd(2023, 4, 12).unwrap(),
        articles: vec![
            Article {
                title: "Article Title".to_string(),
                description: "Description of Article".to_string(),
                url: "http://example.com/article".to_string(),
            },
            Article {
                title: "Second".to_string(),
                description: "More".to_string(),
                url: "http://example.com/2".to_string(),
            },
        ],
    }
}

#[test]
fn round_trip_preserves_every_field() {
    let n = sample();
    let wire = serialize_newsletter(&n);
    let back = deserialize_newsletter(wire.as_str()).unwrap();
    assert_eq!(back, n);
}

#[test]
fn round_trip_handles_separator_and_escape_characters() {
    let n = Newsletter {
        title: "a;b%c;;%%d".to_string(),
        subtitle: "=;%".to_string(),
        category: "category=weird;".to_string(),
        date: Date { year: -44, month: 3, day: 15 },
        articles: vec![Article {
            title: ";".to_string(),
            description: "%".to_string(),
            url: "".to_string(),
        }],
    };
    let wire = serialize_newsletter(&n);
    let back = deserialize_newsletter(wire.as_str()).unwrap();
    assert_eq!(back, n);
}

#[test]
fn round_trip_of_empty_record() {
    let n = Newsletter {
        title: "".to_string(),
        subtitle: "".to_string(),
        category: "".to_string(),
        date: Date { year: 0, month: 1, day: 1 },
        articles: Vec::new(),
    };
    let wire = serialize_newsletter(&n);
    let back = deserialize_newsletter(wire.as_str()).unwrap();
    assert_eq!(back, n);
}

#[test]
fn serialized_form_names_the_fields() {
    let wire = serialize_newsletter(&sample());
    assert!(wire.starts_with("title="));
    assert!(wire.contains("subtitle="));
    assert!(wire.contains("category="));
    assert!(wire.contains("year=2023;"));
    assert!(wire.contains("month=4;"));
    assert!(wire.contains("day=12;"));
    assert!(wire.contains("articles="));
    assert!(wire.contains("description="));
    assert!(wire.contains("url="));
    assert!(wire.ends_with("end;"));
}

#[test]
fn garbage_does_not_deserialize() {
    assert!(deserialize_newsletter("not a newsletter").is_none());
    assert!(deserialize_newsletter("").is_none());
    assert!(deserialize_newsletter("title=x;").is_none());
    let mut wire = serialize_newsletter(&sample());
    wire.push('x');
    assert!(deserialize_newsletter(wire.as_str()).is_none());
}
