//! The two embedded mini-parsers: entity literals and cross-references.

use jmdict_parse::entity::parse_single_entity;
use jmdict_parse::error::ErrorKind;
use jmdict_parse::xref::parse_cross_ref;

#[test]
fn entity_plain() {
    assert_eq!(parse_single_entity("&adj-i;", 7).unwrap(), "adj-i");
}

#[test]
fn entity_inner_delimiter_fails() {
    let e = parse_single_entity("&bad;extra;", 30).unwrap_err();
    assert_eq!(e.kind, ErrorKind::BadEntity);
    assert_eq!(e.pos, 30);
    assert_eq!(e.text.as_deref(), Some("&bad;extra;"));
}

#[test]
fn entity_without_delimiters_fails() {
    let e = parse_single_entity("no-delims", 5).unwrap_err();
    assert_eq!(e.kind, ErrorKind::BadEntity);
}

#[test]
fn entity_empty_name_is_allowed() {
    assert_eq!(parse_single_entity("&;", 0).unwrap(), "");
}

#[test]
fn entity_inner_ampersand_fails() {
    assert!(parse_single_entity("&a&b;", 0).is_err());
    assert!(parse_single_entity("&", 0).is_err());
    assert!(parse_single_entity("", 0).is_err());
}

#[test]
fn xref_three_parts() {
    let x = parse_cross_ref("食べる・たべる・2", 0).unwrap();
    assert_eq!(x.kanji_or_reading, "食べる");
    assert_eq!(x.reading.as_deref(), Some("たべる"));
    assert_eq!(x.sense_index, Some(2));
}

#[test]
fn xref_target_only() {
    let x = parse_cross_ref("食べる", 0).unwrap();
    assert_eq!(x.kanji_or_reading, "食べる");
    assert_eq!(x.reading, None);
    assert_eq!(x.sense_index, None);
}

#[test]
fn xref_empty_target_fails() {
    let e = parse_cross_ref("・2", 44).unwrap_err();
    assert_eq!(e.kind, ErrorKind::BadCrossRef);
    assert_eq!(e.pos, 44);
    assert_eq!(e.text.as_deref(), Some("・2"));
}

#[test]
fn xref_two_parts_second_is_reading_even_if_digits() {
    let x = parse_cross_ref("食う・1", 0).unwrap();
    assert_eq!(x.kanji_or_reading, "食う");
    assert_eq!(x.reading.as_deref(), Some("1"));
    assert_eq!(x.sense_index, None);
}

#[test]
fn xref_index_not_digits_fails() {
    assert!(parse_cross_ref("a・b・c", 0).is_err());
    assert!(parse_cross_ref("a・b・", 0).is_err());
    assert!(parse_cross_ref("a・・2", 0).is_err());
}

#[test]
fn xref_index_over_cap_fails() {
    assert!(parse_cross_ref("a・b・255", 0).is_ok());
    assert!(parse_cross_ref("a・b・256", 0).is_err());
    assert_eq!(parse_cross_ref("a・b・007", 0).unwrap().sense_index, Some(7));
}

#[test]
fn xref_four_parts_fails() {
    assert!(parse_cross_ref("a・b・2・3", 0).is_err());
    assert!(parse_cross_ref("", 0).is_err());
    assert!(parse_cross_ref("a・", 0).is_err());
}
