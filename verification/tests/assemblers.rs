//! The field-level assemblers, driven both from hand-built events and
//! from tokenized markup.

use jmdict_parse::assemble::{parse_entry, parse_k_ele, parse_r_ele, parse_sense};
use jmdict_parse::error::{ErrorKind, WarnKind, Warning};
use jmdict_parse::events::XmlEvent;
use jmdict_parse::records::Sense;
use jmdict_parse::svec::sv_from_vec;
use jmdict_parse::tokenize::tokenize;

fn start(name: &str) -> XmlEvent {
    XmlEvent::Start { name: name.to_string(), lang: None, pos: 0 }
}

fn end(name: &str) -> XmlEvent {
    XmlEvent::End { name: name.to_string(), pos: 0 }
}

fn text(raw: &str) -> XmlEvent {
    XmlEvent::Text { raw: raw.to_string(), pos: 0 }
}

#[test]
fn test_parse_sense() {
    let xml = r#"<sense>
                 <stagk>延べる</stagk>
                 <stagk>伸べる</stagk>
                 <gloss>to postpone</gloss>
                 <gloss>to extend</gloss>
                 </sense>"#;
    let events = tokenize(xml).unwrap();
    assert!(matches!(&events[0], XmlEvent::Start { name, .. } if name == "sense"));
    assert_eq!(
        parse_sense(&events, 1).unwrap().0,
        Sense {
            only_kanji: vec!["延べる".to_owned(), "伸べる".to_owned()],
            only_readings: vec![],
            part_of_speech: vec![],
            cross_refs: vec![],
            glosses: vec!["to postpone".to_owned(), "to extend".to_owned()],
            lang: None,
        }
    );
}

#[test]
fn k_ele_collects_all_fields() {
    let events = vec![
        start("keb"),
        text("取る"),
        end("keb"),
        start("ke_inf"),
        text("&iK;"),
        end("ke_inf"),
        start("ke_pri"),
        text("ichi1"),
        end("ke_pri"),
        end("k_ele"),
    ];
    let mut warnings: Vec<Warning> = Vec::new();
    let (rec, next) = parse_k_ele(&events, 0, &mut warnings).unwrap();
    assert_eq!(rec.kanji, "取る");
    assert_eq!(rec.info, sv_from_vec(vec!["iK".to_string()]));
    assert_eq!(rec.priority, sv_from_vec(vec!["ichi1".to_string()]));
    assert!(format!("{:?}", rec.info).contains("iK"));
    assert!(format!("{:?}", rec.priority).contains("ichi1"));
    assert_eq!(next, 10);
    assert!(warnings.is_empty());
}

#[test]
fn k_ele_unknown_tag_warns_once_and_parses_rest() {
    let events = vec![
        start("keb"),
        text("取る"),
        end("keb"),
        start("mystery"),
        end("mystery"),
        start("ke_pri"),
        text("news1"),
        end("ke_pri"),
        end("k_ele"),
    ];
    let mut warnings: Vec<Warning> = Vec::new();
    let (rec, _) = parse_k_ele(&events, 0, &mut warnings).unwrap();
    assert_eq!(rec.kanji, "取る");
    assert_eq!(rec.priority, sv_from_vec(vec!["news1".to_string()]));
    assert_eq!(warnings.len(), 1);
    assert_eq!(warnings[0].kind, WarnKind::UnknownTag);
    assert_eq!(warnings[0].parent, "k_ele");
    assert_eq!(warnings[0].detail, "mystery");
}

#[test]
fn k_ele_padded_text_fails() {
    let events = vec![start("keb"), text(" 取る"), end("keb"), end("k_ele")];
    let mut warnings: Vec<Warning> = Vec::new();
    let e = parse_k_ele(&events, 0, &mut warnings).unwrap_err();
    assert_eq!(e.kind, ErrorKind::PaddedText);
    assert_eq!(e.text.as_deref(), Some(" 取る"));
}

#[test]
fn k_ele_empty_text_fails() {
    let events = vec![start("keb"), end("keb"), end("k_ele")];
    let mut warnings: Vec<Warning> = Vec::new();
    let e = parse_k_ele(&events, 0, &mut warnings).unwrap_err();
    assert_eq!(e.kind, ErrorKind::EmptyText);
}

#[test]
fn k_ele_stray_text_warns() {
    let events = vec![text("stray"), start("keb"), text("口"), end("keb"), end("k_ele")];
    let mut warnings: Vec<Warning> = Vec::new();
    let (rec, _) = parse_k_ele(&events, 0, &mut warnings).unwrap();
    assert_eq!(rec.kanji, "口");
    assert_eq!(warnings.len(), 1);
    assert_eq!(warnings[0].kind, WarnKind::UnexpectedText);
    assert_eq!(warnings[0].detail, "stray");
}

#[test]
fn k_ele_truncated_stream_fails() {
    let events = vec![start("keb"), text("口"), end("keb")];
    let mut warnings: Vec<Warning> = Vec::new();
    let e = parse_k_ele(&events, 0, &mut warnings).unwrap_err();
    assert_eq!(e.kind, ErrorKind::Truncated);
}

#[test]
fn r_ele_collects_all_fields() {
    let events = vec![
        start("reb"),
        text("とる"),
        end("reb"),
        start("re_nokanji"),
        end("re_nokanji"),
        start("re_restr"),
        text("取る"),
        end("re_restr"),
        start("re_inf"),
        text("&ok;"),
        end("re_inf"),
        start("re_pri"),
        text("ichi1"),
        end("re_pri"),
        end("r_ele"),
    ];
    let mut warnings: Vec<Warning> = Vec::new();
    let (rec, _) = parse_r_ele(&events, 0, &mut warnings).unwrap();
    assert_eq!(rec.kana, "とる");
    assert!(rec.no_kanji);
    assert_eq!(rec.related_kanji, vec!["取る".to_string()]);
    assert_eq!(rec.info, sv_from_vec(vec!["ok".to_string()]));
    assert_eq!(rec.priority, sv_from_vec(vec!["ichi1".to_string()]));
    assert!(warnings.is_empty());
}

#[test]
fn r_ele_padded_text_fails() {
    let events = vec![start("reb"), text("とる "), end("reb"), end("r_ele")];
    let mut warnings: Vec<Warning> = Vec::new();
    let e = parse_r_ele(&events, 0, &mut warnings).unwrap_err();
    assert_eq!(e.kind, ErrorKind::PaddedText);
}

#[test]
fn r_ele_bad_entity_fails() {
    let events = vec![start("re_inf"), text("plain"), end("re_inf"), end("r_ele")];
    let mut warnings: Vec<Warning> = Vec::new();
    let e = parse_r_ele(&events, 0, &mut warnings).unwrap_err();
    assert_eq!(e.kind, ErrorKind::BadEntity);
}

#[test]
fn sense_same_gloss_language_twice_is_kept_once() {
    let events = vec![
        XmlEvent::Start { name: "gloss".to_string(), lang: Some("eng".to_string()), pos: 0 },
        text("to take"),
        end("gloss"),
        XmlEvent::Start { name: "gloss".to_string(), lang: Some("eng".to_string()), pos: 0 },
        text("to pick up"),
        end("gloss"),
        end("sense"),
    ];
    let (s, _) = parse_sense(&events, 0).unwrap();
    assert_eq!(s.glosses, vec!["to take".to_string(), "to pick up".to_string()]);
    assert_eq!(s.lang.as_deref(), Some("eng"));
}

#[test]
fn sense_gloss_language_mismatch_fails() {
    let events = vec![
        XmlEvent::Start { name: "gloss".to_string(), lang: Some("eng".to_string()), pos: 0 },
        text("to take"),
        end("gloss"),
        XmlEvent::Start { name: "gloss".to_string(), lang: Some("fre".to_string()), pos: 9 },
        text("prendre"),
        end("gloss"),
        end("sense"),
    ];
    let e = parse_sense(&events, 0).unwrap_err();
    assert_eq!(e.kind, ErrorKind::GlossLangMismatch);
    assert_eq!(e.pos, 9);
    assert_eq!(e.text.as_deref(), Some("fre"));
}

#[test]
fn sense_unknown_tags_are_silently_ignored() {
    let events = vec![
        start("field"),
        text("&comp;"),
        end("field"),
        start("gloss"),
        text("screen"),
        end("gloss"),
        end("sense"),
    ];
    let (s, _) = parse_sense(&events, 0).unwrap();
    assert_eq!(s.glosses, vec!["screen".to_string()]);
    assert_eq!(s.lang, None);
}

#[test]
fn sense_bad_cross_reference_fails() {
    let events = vec![start("xref"), text("・2"), end("xref"), end("sense")];
    let e = parse_sense(&events, 0).unwrap_err();
    assert_eq!(e.kind, ErrorKind::BadCrossRef);
    assert_eq!(e.text.as_deref(), Some("・2"));
}

#[test]
fn entry_requires_identifier() {
    let events = vec![
        start("r_ele"),
        start("reb"),
        text("とる"),
        end("reb"),
        end("r_ele"),
        end("entry"),
    ];
    let mut warnings: Vec<Warning> = Vec::new();
    let e = parse_entry(&events, 0, &mut warnings).unwrap_err();
    assert_eq!(e.kind, ErrorKind::IdNotFound);
}

#[test]
fn entry_zero_identifier_fails() {
    let events = vec![
        start("ent_seq"),
        text("0"),
        end("ent_seq"),
        start("r_ele"),
        start("reb"),
        text("とる"),
        end("reb"),
        end("r_ele"),
        end("entry"),
    ];
    let mut warnings: Vec<Warning> = Vec::new();
    let e = parse_entry(&events, 0, &mut warnings).unwrap_err();
    assert_eq!(e.kind, ErrorKind::IdNotFound);
}

#[test]
fn entry_requires_readings_even_with_headwords() {
    let events = vec![
        start("ent_seq"),
        text("7"),
        end("ent_seq"),
        start("k_ele"),
        start("keb"),
        text("取る"),
        end("keb"),
        end("k_ele"),
        end("entry"),
    ];
    let mut warnings: Vec<Warning> = Vec::new();
    let e = parse_entry(&events, 0, &mut warnings).unwrap_err();
    assert_eq!(e.kind, ErrorKind::NoReadings);
}

#[test]
fn entry_nested_identifier_field_fails() {
    let events = vec![start("ent_seq"), start("ent_seq")];
    let mut warnings: Vec<Warning> = Vec::new();
    let e = parse_entry(&events, 0, &mut warnings).unwrap_err();
    assert_eq!(e.kind, ErrorKind::NestedIdTag);
}

#[test]
fn entry_mismatched_identifier_close_fails() {
    let events = vec![end("ent_seq")];
    let mut warnings: Vec<Warning> = Vec::new();
    let e = parse_entry(&events, 0, &mut warnings).unwrap_err();
    assert_eq!(e.kind, ErrorKind::MismatchedIdTag);
}

#[test]
fn entry_non_numeric_identifier_fails() {
    let events = vec![start("ent_seq"), text("twelve")];
    let mut warnings: Vec<Warning> = Vec::new();
    let e = parse_entry(&events, 0, &mut warnings).unwrap_err();
    assert_eq!(e.kind, ErrorKind::BadId);
    assert_eq!(e.text.as_deref(), Some("twelve"));
}

#[test]
fn entry_identifier_accepts_plus_sign_and_largest_value() {
    let events = vec![
        start("ent_seq"),
        text("+123"),
        end("ent_seq"),
        start("r_ele"),
        start("reb"),
        text("かな"),
        end("reb"),
        end("r_ele"),
        end("entry"),
    ];
    let mut warnings: Vec<Warning> = Vec::new();
    let (e, _) = parse_entry(&events, 0, &mut warnings).unwrap();
    assert_eq!(e.id, 123);

    let events = vec![
        start("ent_seq"),
        text("4294967295"),
        end("ent_seq"),
        start("r_ele"),
        start("reb"),
        text("かな"),
        end("reb"),
        end("r_ele"),
        end("entry"),
    ];
    let (e, _) = parse_entry(&events, 0, &mut warnings).unwrap();
    assert_eq!(e.id, u32::MAX);
}

#[test]
fn entry_identifier_overflow_fails() {
    let events = vec![start("ent_seq"), text("4294967296")];
    let mut warnings: Vec<Warning> = Vec::new();
    let e = parse_entry(&events, 0, &mut warnings).unwrap_err();
    assert_eq!(e.kind, ErrorKind::BadId);
}
