use oxidrive::tag::{ParseError, Tag};
use oxidrive::tags::{filter_matches, Filter, Op, Tags};

fn parses_to(s: &str, key: &str, value: Option<&str>) {
    let tag = Tag::parse(s).unwrap();
    assert_eq!(tag.key, key);
    assert_eq!(tag.value.as_deref(), value);
    assert!(tag.eq_str(s));
    assert_eq!(tag.to_display_string(), s);
}

#[test]
fn it_parses_a_valid_tag_string() {
    parses_to("example", "example", None);
    parses_to("hello:world", "hello", Some("world"));
    parses_to("hello:world:what", "hello", Some("world:what"));
    parses_to("food:🥐", "food", Some("🥐"));
    parses_to("hello:oxidrive tests", "hello", Some("oxidrive tests"));
}

#[test]
fn it_fails_to_parse_an_invalid_tag_string() {
    for s in ["", ":world", "hello;world:what", "hello:w(orld:what)", "hello:worldANDtest"] {
        match Tag::parse(s) {
            Err(ParseError::Invalid(text)) => assert_eq!(text, s),
            other => panic!("{s:?} parsed as {other:?}"),
        }
    }
}

#[test]
fn it_fails_to_parse_a_reserved_key() {
    for tag in ["name", "content_type", "size"] {
        match Tag::parse_public(tag) {
            Err(ParseError::Reserved(key)) => assert_eq!(key, tag),
            other => panic!("{tag:?} parsed as {other:?}"),
        }
    }
}

#[test]
fn a_reserved_key_with_a_value_is_refused_by_the_public_parser_only() {
    assert!(matches!(Tag::parse_public("size:12"), Err(ParseError::Reserved(k)) if k == "size"));
    let tag = Tag::parse("size:12").unwrap();
    assert!(tag.is_reserved());
    assert!(!tag.is_public());
    let ext = Tag::parse_public("ext:txt").unwrap();
    assert!(ext.is_public());
}

#[test]
fn an_or_keyword_makes_a_tag_invalid() {
    assert!(matches!(Tag::parse("ORDER"), Err(ParseError::Invalid(_))));
    assert!(Tag::parse("order").is_ok());
}

#[test]
fn display_then_parse_gives_the_same_tag() {
    let tag = Tag::full("hello", "world:again");
    let text = tag.to_display_string();
    assert_eq!(text, "hello:world:again");
    let parsed = Tag::parse(&text).unwrap();
    assert!(parsed == tag);
    let bare = Tag::key("bare");
    assert!(Tag::parse(&bare.to_display_string()).unwrap() == bare);
}

#[test]
fn a_later_tag_replaces_the_one_with_the_same_key() {
    let mut tags = Tags::new();
    tags.insert(Tag::parse("test").unwrap());
    tags.insert(Tag::parse("test").unwrap());
    assert_eq!(tags.len(), 1);
    tags.insert(Tag::parse("test:value").unwrap());
    assert_eq!(tags.len(), 1);
    assert_eq!(tags.get("test").unwrap().value.as_deref(), Some("value"));
    assert!(tags.contains_key("test"));
    assert!(!tags.contains_key("other"));
}

#[test]
fn filters_match_tags_by_key_and_value() {
    let mut tags = Tags::new();
    tags.extend(vec![Tag::parse("name:hello.txt").unwrap(), Tag::parse("file1").unwrap()]);

    let by_key = Filter::Tag { key: "name".to_string(), value: None };
    let by_value = Filter::Tag { key: "name".to_string(), value: Some("hello.txt".to_string()) };
    let wrong_value = Filter::Tag { key: "name".to_string(), value: Some("world.txt".to_string()) };
    let missing = Filter::Tag { key: "file2".to_string(), value: None };

    assert!(filter_matches(&Filter::All, &tags));
    assert!(filter_matches(&by_key, &tags));
    assert!(filter_matches(&by_value, &tags));
    assert!(!filter_matches(&wrong_value, &tags));
    assert!(!filter_matches(&missing, &tags));

    let and = Filter::Op { lhs: Box::new(by_key.duplicate()), op: Op::And, rhs: Box::new(missing.duplicate()) };
    let or = Filter::Op { lhs: Box::new(by_key), op: Op::Or, rhs: Box::new(missing) };
    assert!(!filter_matches(&and, &tags));
    assert!(filter_matches(&or, &tags));
}
