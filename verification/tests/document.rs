//! Whole-document parses, from markup text through the tokenizer and
//! the document driver.

use jmdict_parse::driver::parse_document;
use jmdict_parse::error::{ErrorKind, Warning};
use jmdict_parse::records::{CrossReference, Entry, KanjiEntry, ReadingEntry, Sense};
use jmdict_parse::svec::sv_from_vec;

#[test]
fn one_entry_end_to_end() {
    let xml = "<JMdict><entry><ent_seq>12345</ent_seq>\
        <k_ele><keb>食べる</keb><ke_pri>ichi1</ke_pri></k_ele>\
        <r_ele><reb>たべる</reb></r_ele>\
        <sense><pos>&v1;</pos><xref>食う・1</xref>\
        <gloss xml:lang=\"eng\">to eat</gloss>\
        <gloss xml:lang=\"eng\">to consume</gloss>\
        </sense></entry></JMdict>";
    let mut warnings: Vec<Warning> = Vec::new();
    let entries = parse_document(xml, &mut warnings).unwrap();
    assert_eq!(
        entries,
        vec![Entry {
            id: 12345,
            kanji_entries: vec![KanjiEntry {
                kanji: "食べる".to_string(),
                info: sv_from_vec(vec![]),
                priority: sv_from_vec(vec!["ichi1".to_string()]),
            }],
            reading_entries: vec![ReadingEntry {
                kana: "たべる".to_string(),
                no_kanji: false,
                related_kanji: vec![],
                info: sv_from_vec(vec![]),
                priority: sv_from_vec(vec![]),
            }],
            senses: vec![Sense {
                only_kanji: vec![],
                only_readings: vec![],
                part_of_speech: vec!["v1".to_string()],
                cross_refs: vec![CrossReference {
                    kanji_or_reading: "食う".to_string(),
                    reading: Some("1".to_string()),
                    sense_index: None,
                }],
                glosses: vec!["to eat".to_string(), "to consume".to_string()],
                lang: Some("eng".to_string()),
            }],
        }]
    );
    assert!(warnings.is_empty());
}

#[test]
fn pretty_printed_markup_parses_without_warnings() {
    let xml = "<JMdict>\n  <entry>\n    <ent_seq>42</ent_seq>\n    <r_ele>\n      <reb>かな</reb>\n    </r_ele>\n  </entry>\n</JMdict>\n";
    let mut warnings: Vec<Warning> = Vec::new();
    let entries = parse_document(xml, &mut warnings).unwrap();
    assert_eq!(entries.len(), 1);
    assert_eq!(entries[0].id, 42);
    assert_eq!(entries[0].reading_entries[0].kana, "かな");
    assert!(warnings.is_empty());
}

#[test]
fn self_closing_marker_sets_flag() {
    let xml = "<entry><ent_seq>3</ent_seq><r_ele><reb>かな</reb><re_nokanji/></r_ele></entry>";
    let mut warnings: Vec<Warning> = Vec::new();
    let entries = parse_document(xml, &mut warnings).unwrap();
    assert!(entries[0].reading_entries[0].no_kanji);
}

#[test]
fn escape_sequences_are_resolved_in_text() {
    let xml = "<entry><ent_seq>9</ent_seq><r_ele><reb>A&amp;B</reb></r_ele>\
               <sense><gloss>x &lt; y &#62; z</gloss></sense></entry>";
    let mut warnings: Vec<Warning> = Vec::new();
    let entries = parse_document(xml, &mut warnings).unwrap();
    assert_eq!(entries[0].reading_entries[0].kana, "A&B");
    assert_eq!(entries[0].senses[0].glosses, vec!["x < y > z".to_string()]);
}

#[test]
fn unknown_entity_in_plain_text_fails() {
    let xml = "<entry><ent_seq>9</ent_seq><r_ele><reb>か&oops;な</reb></r_ele></entry>";
    let mut warnings: Vec<Warning> = Vec::new();
    let e = parse_document(xml, &mut warnings).unwrap_err();
    assert_eq!(e.kind, ErrorKind::BadEscape);
    assert_eq!(e.text.as_deref(), Some("か&oops;な"));
}

#[test]
fn padded_reading_fails_document() {
    let xml = "<entry><ent_seq>9</ent_seq><r_ele><reb>かな </reb></r_ele></entry>";
    let mut warnings: Vec<Warning> = Vec::new();
    let e = parse_document(xml, &mut warnings).unwrap_err();
    assert_eq!(e.kind, ErrorKind::PaddedText);
    assert_eq!(e.text.as_deref(), Some("かな "));
}

#[test]
fn missing_identifier_fails_document() {
    let xml = "<entry><r_ele><reb>かな</reb></r_ele></entry>";
    let mut warnings: Vec<Warning> = Vec::new();
    let e = parse_document(xml, &mut warnings).unwrap_err();
    assert_eq!(e.kind, ErrorKind::IdNotFound);
}

#[test]
fn no_readings_fails_document() {
    let xml = "<entry><ent_seq>5</ent_seq><k_ele><keb>口</keb></k_ele></entry>";
    let mut warnings: Vec<Warning> = Vec::new();
    let e = parse_document(xml, &mut warnings).unwrap_err();
    assert_eq!(e.kind, ErrorKind::NoReadings);
}

#[test]
fn unknown_tag_under_entry_warns_and_parse_succeeds() {
    let xml = "<entry><ent_seq>5</ent_seq><audit>x</audit>\
               <r_ele><reb>かな</reb></r_ele></entry>";
    let mut warnings: Vec<Warning> = Vec::new();
    let entries = parse_document(xml, &mut warnings).unwrap();
    assert_eq!(entries.len(), 1);
    assert_eq!(warnings.len(), 1);
    assert_eq!(warnings[0].detail, "audit");
    assert_eq!(warnings[0].parent, "entry");
}

#[test]
fn first_error_aborts_whole_document() {
    let xml = "<JMdict>\
        <entry><ent_seq>1</ent_seq><r_ele><reb>か</reb></r_ele></entry>\
        <entry><ent_seq>2</ent_seq></entry>\
        <entry><ent_seq>3</ent_seq><r_ele><reb>な</reb></r_ele></entry>\
        </JMdict>";
    let mut warnings: Vec<Warning> = Vec::new();
    let e = parse_document(xml, &mut warnings).unwrap_err();
    assert_eq!(e.kind, ErrorKind::NoReadings);
}

#[test]
fn truncated_document_fails() {
    let xml = "<entry><ent_seq>1</ent_seq>";
    let mut warnings: Vec<Warning> = Vec::new();
    let e = parse_document(xml, &mut warnings).unwrap_err();
    assert_eq!(e.kind, ErrorKind::Truncated);
}

#[test]
fn malformed_markup_fails() {
    let xml = "<entry><ent_seq>1</ent_seq><r_ele><reb>か & な</reb></r_ele></entry>";
    let mut warnings: Vec<Warning> = Vec::new();
    let e = parse_document(xml, &mut warnings).unwrap_err();
    assert_eq!(e.kind, ErrorKind::Xml);
}

#[test]
fn document_without_entries_is_empty() {
    let mut warnings: Vec<Warning> = Vec::new();
    let entries = parse_document("<JMdict></JMdict>", &mut warnings).unwrap();
    assert!(entries.is_empty());
    let entries = parse_document("", &mut warnings).unwrap();
    assert!(entries.is_empty());
}

#[test]
fn entity_literal_categories_decode_in_every_group_kind() {
    let xml = "<entry><ent_seq>8</ent_seq>\
        <k_ele><keb>口</keb><ke_inf>&iK;</ke_inf></k_ele>\
        <r_ele><reb>くち</reb><re_inf>&ok;</re_inf></r_ele>\
        <sense><pos>&n;</pos><gloss>mouth</gloss></sense>\
        </entry>";
    let mut warnings: Vec<Warning> = Vec::new();
    let entries = parse_document(xml, &mut warnings).unwrap();
    assert_eq!(entries[0].kanji_entries[0].info, sv_from_vec(vec!["iK".to_string()]));
    assert_eq!(entries[0].reading_entries[0].info, sv_from_vec(vec!["ok".to_string()]));
    assert_eq!(entries[0].senses[0].part_of_speech, vec!["n".to_string()]);
}
