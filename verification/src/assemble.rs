//! The nested state machines that assemble one entry and its
//! sub-records from the event stream.
//!
//! Each assembler is specified as a pure transition function over a
//! ghost state (`*_step`) folded over the events (`*_run`); the
//! executable assemblers are proved to return exactly what the fold
//! says, appending the same warnings in the same order.

use vstd::prelude::*;

use crate::entity::entity_spec;
use crate::error::{
    view_warnings, ErrorKind, ErrorV, ParseError, WarnKind, Warning, WarningV,
    lemma_view_warnings_push,
};
use crate::escape::{unescape_text, xml_unescaped};
use crate::events::{stream_end_pos, truncated_err, view_events, EventV, XmlEvent};
use crate::error::view_opt_string;
use crate::records::{
    lemma_view_kanji_push, lemma_view_readings_push, lemma_view_senses_push,
    lemma_view_strings_push, lemma_view_xrefs_push, view_strings, CrossRefV, CrossReference, Entry,
    EntryV, KanjiEntry, KanjiV, ReadingEntry, ReadingV, Sense, SenseV,
};
use crate::text::u32_of_decimal;
use crate::xref::xref_spec;
use crate::svec::{sv_new, sv_push, sv_view, TagVec};
use crate::text::{is_trimmed, str_eq};

verus! {

/// The warning for a start tag the parent element does not know.
pub open spec fn unknown_tag_warn(parent: Seq<char>, name: Seq<char>, pos: nat) -> WarningV {
    WarningV { kind: WarnKind::UnknownTag, pos, parent, detail: name }
}

/// The warning for text met while no leaf field is open.
pub open spec fn unexpected_text_warn(parent: Seq<char>, raw: Seq<char>, pos: nat) -> WarningV {
    WarningV { kind: WarnKind::UnexpectedText, pos, parent, detail: raw }
}

/// Appends one warning to the diagnostics list.
pub fn push_warning(warnings: &mut Vec<Warning>, w: Warning)
    ensures
        view_warnings(final(warnings)@) == view_warnings(old(warnings)@).push(w@),
{
    proof {
        lemma_view_warnings_push(warnings@, w);
    }
    warnings.push(w);
}

/// The leaf field currently open inside a headword group.
#[derive(Clone, Copy, PartialEq, Eq, Structural, Debug)]
pub enum KElem {
    NoField,
    Keb,
    KeInf,
    KePri,
}

/// Intermediate state of the headword assembler.
pub ghost struct KState {
    pub kanji: Seq<char>,
    pub info: Seq<Seq<char>>,
    pub priority: Seq<Seq<char>>,
    pub elem: KElem,
    pub warns: Seq<WarningV>,
}

/// The state the headword assembler starts from.
pub open spec fn k_init() -> KState {
    KState {
        kanji: Seq::empty(),
        info: Seq::empty(),
        priority: Seq::empty(),
        elem: KElem::NoField,
        warns: Seq::empty(),
    }
}

/// One transition of the headword assembler.
pub ghost enum KStep {
    Next(KState),
    Done(Result<KanjiV, ErrorV>),
}

/// The headword assembler's transition on one event.
pub open spec fn k_step(st: KState, ev: EventV) -> KStep {
    match ev {
        EventV::Start { name, lang, pos } => {
            if name == "keb"@ {
                KStep::Next(KState { elem: KElem::Keb, ..st })
            } else if name == "ke_inf"@ {
                KStep::Next(KState { elem: KElem::KeInf, ..st })
            } else if name == "ke_pri"@ {
                KStep::Next(KState { elem: KElem::KePri, ..st })
            } else {
                KStep::Next(
                    KState { warns: st.warns.push(unknown_tag_warn("k_ele"@, name, pos)), ..st },
                )
            }
        },
        EventV::End { name, pos } => {
            if name == "k_ele"@ {
                if !is_trimmed(st.kanji) {
                    KStep::Done(
                        Err(ErrorV { kind: ErrorKind::PaddedText, pos, text: Some(st.kanji) }),
                    )
                } else if st.kanji.len() == 0 {
                    KStep::Done(Err(ErrorV { kind: ErrorKind::EmptyText, pos, text: None }))
                } else {
                    KStep::Done(
                        Ok(KanjiV { kanji: st.kanji, info: st.info, priority: st.priority }),
                    )
                }
            } else {
                KStep::Next(KState { elem: KElem::NoField, ..st })
            }
        },
        EventV::Text { raw, pos } => match st.elem {
            KElem::Keb => match xml_unescaped(raw) {
                Some(t) => KStep::Next(KState { kanji: t, ..st }),
                None => KStep::Done(
                    Err(ErrorV { kind: ErrorKind::BadEscape, pos, text: Some(raw) }),
                ),
            },
            KElem::KeInf => match entity_spec(raw) {
                Some(code) => KStep::Next(KState { info: st.info.push(code), ..st }),
                None => KStep::Done(
                    Err(ErrorV { kind: ErrorKind::BadEntity, pos, text: Some(raw) }),
                ),
            },
            KElem::KePri => match xml_unescaped(raw) {
                Some(t) => KStep::Next(KState { priority: st.priority.push(t), ..st }),
                None => KStep::Done(
                    Err(ErrorV { kind: ErrorKind::BadEscape, pos, text: Some(raw) }),
                ),
            },
            KElem::NoField => KStep::Next(
                KState { warns: st.warns.push(unexpected_text_warn("k_ele"@, raw, pos)), ..st },
            ),
        },
    }
}

/// What a run of the headword assembler yields: the record and the
/// index just past the closing tag, or the first hard error; plus the
/// warnings emitted on the way.
pub ghost struct KOut {
    pub result: Result<(KanjiV, int), ErrorV>,
    pub warns: Seq<WarningV>,
}

/// Folds the headword assembler over the events from `i` on.
pub open spec fn k_run(evs: Seq<EventV>, i: int, st: KState) -> KOut
    recommends
        0 <= i <= evs.len(),
    decreases evs.len() - i,
{
    if i < 0 || i >= evs.len() {
        KOut { result: Err(truncated_err(evs)), warns: st.warns }
    } else {
        match k_step(st, evs[i]) {
            KStep::Next(st2) => k_run(evs, i + 1, st2),
            KStep::Done(Ok(rec)) => KOut { result: Ok((rec, i + 1)), warns: st.warns },
            KStep::Done(Err(e)) => KOut { result: Err(e), warns: st.warns },
        }
    }
}

/// A successful run consumes at least one event and stops within the
/// stream.
pub proof fn lemma_k_run_bounds(evs: Seq<EventV>, i: int, st: KState)
    requires
        0 <= i <= evs.len(),
    ensures
        match k_run(evs, i, st).result {
            Ok(p) => i < p.1 <= evs.len(),
            Err(_) => true,
        },
    decreases evs.len() - i,
{
    if i < evs.len() {
        match k_step(st, evs[i]) {
            KStep::Next(st2) => lemma_k_run_bounds(evs, i + 1, st2),
            KStep::Done(_) => {},
        }
    }
}

/// Whether `s` is non-empty and free of leading and trailing
/// whitespace, as [`is_trimmed`] states it.
fn check_text(s: &str) -> (r: (bool, bool))
    ensures
        r.0 == is_trimmed(s@),
        r.1 == (s@.len() == 0),
{
    let n = s.unicode_len();
    if n == 0 {
        (true, true)
    } else {
        let first = s.get_char(0);
        let last = s.get_char(n - 1);
        (!crate::text::space_char(first) && !crate::text::space_char(last), false)
    }
}

/// Assembles one headword group from the events at `start` (just past
/// the group's start tag) up to its closing tag; returns the record and
/// the index just past that closing tag.  Exactly the transition
/// system [`k_run`] applied to the events: same result, same warnings.
pub fn parse_k_ele(events: &Vec<XmlEvent>, start: usize, warnings: &mut Vec<Warning>) -> (res:
    Result<(KanjiEntry, usize), ParseError>)
    requires
        start <= events@.len(),
    ensures
        ({
            let out = k_run(view_events(events@), start as int, k_init());
            &&& match res {
                Ok(p) => out.result == Ok::<(KanjiV, int), ErrorV>((p.0@, p.1 as int)) && start
                    < p.1 <= events@.len(),
                Err(e) => out.result == Err::<(KanjiV, int), ErrorV>(e@),
            }
            &&& view_warnings(final(warnings)@) == view_warnings(old(warnings)@) + out.warns
        }),
{
    let ghost evs = view_events(events@);
    let n = events.len();
    let mut i = start;
    let mut kanji: String = String::new();
    let mut info: TagVec = sv_new();
    let mut priority: TagVec = sv_new();
    let mut elem: KElem = KElem::NoField;
    let ghost mut wacc: Seq<WarningV> = Seq::empty();
    proof {
        assert(view_warnings(warnings@) =~= view_warnings(warnings@) + wacc);
        assert(sv_view(info) =~= Seq::<Seq<char>>::empty());
        assert(sv_view(priority) =~= Seq::<Seq<char>>::empty());
    }
    while i < n
        invariant
            start <= i <= n == events@.len(),
            evs == view_events(events@),
            k_run(evs, start as int, k_init()) == k_run(
                evs,
                i as int,
                KState {
                    kanji: kanji@,
                    info: sv_view(info),
                    priority: sv_view(priority),
                    elem: elem,
                    warns: wacc,
                },
            ),
            view_warnings(warnings@) == view_warnings(old(warnings)@) + wacc,
        decreases n - i,
    {
        let ghost st = KState {
            kanji: kanji@,
            info: sv_view(info),
            priority: sv_view(priority),
            elem: elem,
            warns: wacc,
        };
        proof {
            assert(evs[i as int] == events@[i as int]@);
        }
        let ev = &events[i];
        match ev {
            XmlEvent::Start { name, lang: _, pos } => {
                if str_eq(name.as_str(), "keb") {
                    elem = KElem::Keb;
                } else if str_eq(name.as_str(), "ke_inf") {
                    elem = KElem::KeInf;
                } else if str_eq(name.as_str(), "ke_pri") {
                    elem = KElem::KePri;
                } else {
                    let w = Warning {
                        kind: WarnKind::UnknownTag,
                        pos: *pos,
                        parent: "k_ele".to_owned(),
                        detail: name.clone(),
                    };
                    proof {
                        wacc = wacc.push(w@);
                        assert((view_warnings(old(warnings)@) + st.warns).push(w@)
                            =~= view_warnings(old(warnings)@) + wacc);
                    }
                    push_warning(warnings, w);
                }
            },
            XmlEvent::End { name, pos } => {
                if str_eq(name.as_str(), "k_ele") {
                    let (trimmed, empty) = check_text(kanji.as_str());
                    if !trimmed {
                        return Err(
                            ParseError {
                                kind: ErrorKind::PaddedText,
                                pos: *pos,
                                text: Some(kanji),
                            },
                        );
                    }
                    if empty {
                        return Err(
                            ParseError { kind: ErrorKind::EmptyText, pos: *pos, text: None },
                        );
                    }
                    let rec = KanjiEntry { kanji, info, priority };
                    return Ok((rec, i + 1));
                } else {
                    elem = KElem::NoField;
                }
            },
            XmlEvent::Text { raw, pos } => {
                match elem {
                    KElem::Keb => {
                        match unescape_text(raw.as_str()) {
                            Some(t) => {
                                kanji = t;
                            },
                            None => {
                                return Err(
                                    ParseError {
                                        kind: ErrorKind::BadEscape,
                                        pos: *pos,
                                        text: Some(raw.clone()),
                                    },
                                );
                            },
                        }
                    },
                    KElem::KeInf => {
                        match crate::entity::parse_single_entity(raw.as_str(), *pos) {
                            Ok(code) => {
                                let ghost cv = code@;
                                sv_push(&mut info, code);
                                proof {
                                    assert(sv_view(info) =~= st.info.push(cv));
                                }
                            },
                            Err(e) => {
                                return Err(e);
                            },
                        }
                    },
                    KElem::KePri => {
                        match unescape_text(raw.as_str()) {
                            Some(t) => {
                                let ghost tv = t@;
                                sv_push(&mut priority, t);
                                proof {
                                    assert(sv_view(priority) =~= st.priority.push(tv));
                                }
                            },
                            None => {
                                return Err(
                                    ParseError {
                                        kind: ErrorKind::BadEscape,
                                        pos: *pos,
                                        text: Some(raw.clone()),
                                    },
                                );
                            },
                        }
                    },
                    KElem::NoField => {
                        let w = Warning {
                            kind: WarnKind::UnexpectedText,
                            pos: *pos,
                            parent: "k_ele".to_owned(),
                            detail: raw.clone(),
                        };
                        proof {
                            wacc = wacc.push(w@);
                            assert((view_warnings(old(warnings)@) + st.warns).push(w@)
                                =~= view_warnings(old(warnings)@) + wacc);
                        }
                        push_warning(warnings, w);
                    },
                }
            },
        }
        i += 1;
        proof {
            let st2 = KState {
                kanji: kanji@,
                info: sv_view(info),
                priority: sv_view(priority),
                elem: elem,
                warns: wacc,
            };
            assert(k_step(st, evs[i - 1]) == KStep::Next(st2));
            assert(k_run(evs, i - 1, st) == k_run(evs, i as int, st2));
        }
    }
    let p = stream_end_pos(events);
    Err(ParseError { kind: ErrorKind::Truncated, pos: p, text: None })
}

/// The leaf field currently open inside a reading group.
#[derive(Clone, Copy, PartialEq, Eq, Structural, Debug)]
pub enum RElem {
    NoField,
    Reb,
    ReRestr,
    ReInf,
    RePri,
}

/// Intermediate state of the reading assembler.
pub ghost struct RState {
    pub kana: Seq<char>,
    pub no_kanji: bool,
    pub related_kanji: Seq<Seq<char>>,
    pub info: Seq<Seq<char>>,
    pub priority: Seq<Seq<char>>,
    pub elem: RElem,
    pub warns: Seq<WarningV>,
}

/// The state the reading assembler starts from.
pub open spec fn r_init() -> RState {
    RState {
        kana: Seq::empty(),
        no_kanji: false,
        related_kanji: Seq::empty(),
        info: Seq::empty(),
        priority: Seq::empty(),
        elem: RElem::NoField,
        warns: Seq::empty(),
    }
}

/// One transition of the reading assembler.
pub ghost enum RStep {
    Next(RState),
    Done(Result<ReadingV, ErrorV>),
}

/// The reading assembler's transition on one event.
pub open spec fn r_step(st: RState, ev: EventV) -> RStep {
    match ev {
        EventV::Start { name, lang, pos } => {
            if name == "reb"@ {
                RStep::Next(RState { elem: RElem::Reb, ..st })
            } else if name == "re_nokanji"@ {
                RStep::Next(RState { no_kanji: true, ..st })
            } else if name == "re_restr"@ {
                RStep::Next(RState { elem: RElem::ReRestr, ..st })
            } else if name == "re_inf"@ {
                RStep::Next(RState { elem: RElem::ReInf, ..st })
            } else if name == "re_pri"@ {
                RStep::Next(RState { elem: RElem::RePri, ..st })
            } else {
                RStep::Next(
                    RState { warns: st.warns.push(unknown_tag_warn("r_ele"@, name, pos)), ..st },
                )
            }
        },
        EventV::End { name, pos } => {
            if name == "r_ele"@ {
                if !is_trimmed(st.kana) {
                    RStep::Done(
                        Err(ErrorV { kind: ErrorKind::PaddedText, pos, text: Some(st.kana) }),
                    )
                } else if st.kana.len() == 0 {
                    RStep::Done(Err(ErrorV { kind: ErrorKind::EmptyText, pos, text: None }))
                } else {
                    RStep::Done(
                        Ok(
                            ReadingV {
                                kana: st.kana,
                                no_kanji: st.no_kanji,
                                related_kanji: st.related_kanji,
                                info: st.info,
                                priority: st.priority,
                            },
                        ),
                    )
                }
            } else {
                RStep::Next(RState { elem: RElem::NoField, ..st })
            }
        },
        EventV::Text { raw, pos } => match st.elem {
            RElem::Reb => match xml_unescaped(raw) {
                Some(t) => RStep::Next(RState { kana: t, ..st }),
                None => RStep::Done(
                    Err(ErrorV { kind: ErrorKind::BadEscape, pos, text: Some(raw) }),
                ),
            },
            RElem::ReRestr => match xml_unescaped(raw) {
                Some(t) => RStep::Next(RState { related_kanji: st.related_kanji.push(t), ..st }),
                None => RStep::Done(
                    Err(ErrorV { kind: ErrorKind::BadEscape, pos, text: Some(raw) }),
                ),
            },
            RElem::ReInf => match entity_spec(raw) {
                Some(code) => RStep::Next(RState { info: st.info.push(code), ..st }),
                None => RStep::Done(
                    Err(ErrorV { kind: ErrorKind::BadEntity, pos, text: Some(raw) }),
                ),
            },
            RElem::RePri => match xml_unescaped(raw) {
                Some(t) => RStep::Next(RState { priority: st.priority.push(t), ..st }),
                None => RStep::Done(
                    Err(ErrorV { kind: ErrorKind::BadEscape, pos, text: Some(raw) }),
                ),
            },
            RElem::NoField => RStep::Next(
                RState { warns: st.warns.push(unexpected_text_warn("r_ele"@, raw, pos)), ..st },
            ),
        },
    }
}

/// What a run of the reading assembler yields.
pub ghost struct ROut {
    pub result: Result<(ReadingV, int), ErrorV>,
    pub warns: Seq<WarningV>,
}

/// Folds the reading assembler over the events from `i` on.
pub open spec fn r_run(evs: Seq<EventV>, i: int, st: RState) -> ROut
    recommends
        0 <= i <= evs.len(),
    decreases evs.len() - i,
{
    if i < 0 || i >= evs.len() {
        ROut { result: Err(truncated_err(evs)), warns: st.warns }
    } else {
        match r_step(st, evs[i]) {
            RStep::Next(st2) => r_run(evs, i + 1, st2),
            RStep::Done(Ok(rec)) => ROut { result: Ok((rec, i + 1)), warns: st.warns },
            RStep::Done(Err(e)) => ROut { result: Err(e), warns: st.warns },
        }
    }
}

/// A successful run consumes at least one event and stops within the
/// stream.
pub proof fn lemma_r_run_bounds(evs: Seq<EventV>, i: int, st: RState)
    requires
        0 <= i <= evs.len(),
    ensures
        match r_run(evs, i, st).result {
            Ok(p) => i < p.1 <= evs.len(),
            Err(_) => true,
        },
    decreases evs.len() - i,
{
    if i < evs.len() {
        match r_step(st, evs[i]) {
            RStep::Next(st2) => lemma_r_run_bounds(evs, i + 1, st2),
            RStep::Done(_) => {},
        }
    }
}

/// Assembles one reading group from the events at `start` (just past
/// the group's start tag) up to its closing tag; returns the record and
/// the index just past that closing tag.  Exactly the transition
/// system [`r_run`] applied to the events: same result, same warnings.
pub fn parse_r_ele(events: &Vec<XmlEvent>, start: usize, warnings: &mut Vec<Warning>) -> (res:
    Result<(ReadingEntry, usize), ParseError>)
    requires
        start <= events@.len(),
    ensures
        ({
            let out = r_run(view_events(events@), start as int, r_init());
            &&& match res {
                Ok(p) => out.result == Ok::<(ReadingV, int), ErrorV>((p.0@, p.1 as int)) && start
                    < p.1 <= events@.len(),
                Err(e) => out.result == Err::<(ReadingV, int), ErrorV>(e@),
            }
            &&& view_warnings(final(warnings)@) == view_warnings(old(warnings)@) + out.warns
        }),
{
    let ghost evs = view_events(events@);
    let n = events.len();
    let mut i = start;
    let mut kana: String = String::new();
    let mut no_kanji: bool = false;
    let mut related_kanji: Vec<String> = Vec::new();
    let mut info: TagVec = sv_new();
    let mut priority: TagVec = sv_new();
    let mut elem: RElem = RElem::NoField;
    let ghost mut wacc: Seq<WarningV> = Seq::empty();
    proof {
        assert(view_warnings(warnings@) =~= view_warnings(warnings@) + wacc);
        assert(sv_view(info) =~= Seq::<Seq<char>>::empty());
        assert(sv_view(priority) =~= Seq::<Seq<char>>::empty());
        assert(view_strings(related_kanji@) =~= Seq::<Seq<char>>::empty());
    }
    while i < n
        invariant
            start <= i <= n == events@.len(),
            evs == view_events(events@),
            r_run(evs, start as int, r_init()) == r_run(
                evs,
                i as int,
                RState {
                    kana: kana@,
                    no_kanji: no_kanji,
                    related_kanji: view_strings(related_kanji@),
                    info: sv_view(info),
                    priority: sv_view(priority),
                    elem: elem,
                    warns: wacc,
                },
            ),
            view_warnings(warnings@) == view_warnings(old(warnings)@) + wacc,
        decreases n - i,
    {
        let ghost st = RState {
            kana: kana@,
            no_kanji: no_kanji,
            related_kanji: view_strings(related_kanji@),
            info: sv_view(info),
            priority: sv_view(priority),
            elem: elem,
            warns: wacc,
        };
        proof {
            assert(evs[i as int] == events@[i as int]@);
        }
        let ev = &events[i];
        match ev {
            XmlEvent::Start { name, lang: _, pos } => {
                if str_eq(name.as_str(), "reb") {
                    elem = RElem::Reb;
                } else if str_eq(name.as_str(), "re_nokanji") {
                    no_kanji = true;
                } else if str_eq(name.as_str(), "re_restr") {
                    elem = RElem::ReRestr;
                } else if str_eq(name.as_str(), "re_inf") {
                    elem = RElem::ReInf;
                } else if str_eq(name.as_str(), "re_pri") {
                    elem = RElem::RePri;
                } else {
                    let w = Warning {
                        kind: WarnKind::UnknownTag,
                        pos: *pos,
                        parent: "r_ele".to_owned(),
                        detail: name.clone(),
                    };
                    proof {
                        wacc = wacc.push(w@);
                        assert((view_warnings(old(warnings)@) + st.warns).push(w@)
                            =~= view_warnings(old(warnings)@) + wacc);
                    }
                    push_warning(warnings, w);
                }
            },
            XmlEvent::End { name, pos } => {
                if str_eq(name.as_str(), "r_ele") {
                    let (trimmed, empty) = check_text(kana.as_str());
                    if !trimmed {
                        return Err(
                            ParseError { kind: ErrorKind::PaddedText, pos: *pos, text: Some(kana) },
                        );
                    }
                    if empty {
                        return Err(
                            ParseError { kind: ErrorKind::EmptyText, pos: *pos, text: None },
                        );
                    }
                    let rec = ReadingEntry { kana, no_kanji, related_kanji, info, priority };
                    return Ok((rec, i + 1));
                } else {
                    elem = RElem::NoField;
                }
            },
            XmlEvent::Text { raw, pos } => {
                match elem {
                    RElem::Reb => {
                        match unescape_text(raw.as_str()) {
                            Some(t) => {
                                kana = t;
                            },
                            None => {
                                return Err(
                                    ParseError {
                                        kind: ErrorKind::BadEscape,
                                        pos: *pos,
                                        text: Some(raw.clone()),
                                    },
                                );
                            },
                        }
                    },
                    RElem::ReRestr => {
                        match unescape_text(raw.as_str()) {
                            Some(t) => {
                                proof {
                                    lemma_view_strings_push(related_kanji@, t);
                                }
                                related_kanji.push(t);
                            },
                            None => {
                                return Err(
                                    ParseError {
                                        kind: ErrorKind::BadEscape,
                                        pos: *pos,
                                        text: Some(raw.clone()),
                                    },
                                );
                            },
                        }
                    },
                    RElem::ReInf => {
                        match crate::entity::parse_single_entity(raw.as_str(), *pos) {
                            Ok(code) => {
                                let ghost cv = code@;
                                sv_push(&mut info, code);
                                proof {
                                    assert(sv_view(info) =~= st.info.push(cv));
                                }
                            },
                            Err(e) => {
                                return Err(e);
                            },
                        }
                    },
                    RElem::RePri => {
                        match unescape_text(raw.as_str()) {
                            Some(t) => {
                                let ghost tv = t@;
                                sv_push(&mut priority, t);
                                proof {
                                    assert(sv_view(priority) =~= st.priority.push(tv));
                                }
                            },
                            None => {
                                return Err(
                                    ParseError {
                                        kind: ErrorKind::BadEscape,
                                        pos: *pos,
                                        text: Some(raw.clone()),
                                    },
                                );
                            },
                        }
                    },
                    RElem::NoField => {
                        let w = Warning {
                            kind: WarnKind::UnexpectedText,
                            pos: *pos,
                            parent: "r_ele".to_owned(),
                            detail: raw.clone(),
                        };
                        proof {
                            wacc = wacc.push(w@);
                            assert((view_warnings(old(warnings)@) + st.warns).push(w@)
                                =~= view_warnings(old(warnings)@) + wacc);
                        }
                        push_warning(warnings, w);
                    },
                }
            },
        }
        i += 1;
        proof {
            let st2 = RState {
                kana: kana@,
                no_kanji: no_kanji,
                related_kanji: view_strings(related_kanji@),
                info: sv_view(info),
                priority: sv_view(priority),
                elem: elem,
                warns: wacc,
            };
            assert(r_step(st, evs[i - 1]) == RStep::Next(st2));
            assert(r_run(evs, i - 1, st) == r_run(evs, i as int, st2));
        }
    }
    let p = stream_end_pos(events);
    Err(ParseError { kind: ErrorKind::Truncated, pos: p, text: None })
}

/// The leaf field currently open inside a sense.
#[derive(Clone, Copy, PartialEq, Eq, Structural, Debug)]
pub enum SElem {
    NoField,
    StagK,
    StagR,
    Pos,
    Xref,
    Gloss,
}

/// Intermediate state of the sense assembler.
pub ghost struct SState {
    pub only_kanji: Seq<Seq<char>>,
    pub only_readings: Seq<Seq<char>>,
    pub part_of_speech: Seq<Seq<char>>,
    pub cross_refs: Seq<CrossRefV>,
    pub glosses: Seq<Seq<char>>,
    pub lang: Option<Seq<char>>,
    pub elem: SElem,
}

/// The state the sense assembler starts from.
pub open spec fn s_init() -> SState {
    SState {
        only_kanji: Seq::empty(),
        only_readings: Seq::empty(),
        part_of_speech: Seq::empty(),
        cross_refs: Seq::empty(),
        glosses: Seq::empty(),
        lang: None,
        elem: SElem::NoField,
    }
}

/// One transition of the sense assembler.
pub ghost enum SStep {
    Next(SState),
    Done(Result<SenseV, ErrorV>),
}

/// The sense assembler's transition on one event.  Unknown child tags
/// and stray text are ignored without even a warning: this sub-grammar
/// is known to be incompletely modeled, and unknown fields are
/// tolerated by design.
pub open spec fn s_step(st: SState, ev: EventV) -> SStep {
    match ev {
        EventV::Start { name, lang, pos } => {
            if name == "stagk"@ {
                SStep::Next(SState { elem: SElem::StagK, ..st })
            } else if name == "stagr"@ {
                SStep::Next(SState { elem: SElem::StagR, ..st })
            } else if name == "pos"@ {
                SStep::Next(SState { elem: SElem::Pos, ..st })
            } else if name == "xref"@ {
                SStep::Next(SState { elem: SElem::Xref, ..st })
            } else if name == "gloss"@ {
                match lang {
                    Some(l) => match st.lang {
                        Some(cur) => if cur == l {
                            SStep::Next(SState { elem: SElem::Gloss, ..st })
                        } else {
                            SStep::Done(
                                Err(
                                    ErrorV {
                                        kind: ErrorKind::GlossLangMismatch,
                                        pos,
                                        text: Some(l),
                                    },
                                ),
                            )
                        },
                        None => SStep::Next(SState { elem: SElem::Gloss, lang: Some(l), ..st }),
                    },
                    None => SStep::Next(SState { elem: SElem::Gloss, ..st }),
                }
            } else {
                SStep::Next(st)
            }
        },
        EventV::End { name, pos } => {
            if name == "sense"@ {
                SStep::Done(
                    Ok(
                        SenseV {
                            only_kanji: st.only_kanji,
                            only_readings: st.only_readings,
                            part_of_speech: st.part_of_speech,
                            cross_refs: st.cross_refs,
                            glosses: st.glosses,
                            lang: st.lang,
                        },
                    ),
                )
            } else {
                SStep::Next(SState { elem: SElem::NoField, ..st })
            }
        },
        EventV::Text { raw, pos } => match st.elem {
            SElem::StagK => match xml_unescaped(raw) {
                Some(t) => SStep::Next(SState { only_kanji: st.only_kanji.push(t), ..st }),
                None => SStep::Done(
                    Err(ErrorV { kind: ErrorKind::BadEscape, pos, text: Some(raw) }),
                ),
            },
            SElem::StagR => match xml_unescaped(raw) {
                Some(t) => SStep::Next(SState { only_readings: st.only_readings.push(t), ..st }),
                None => SStep::Done(
                    Err(ErrorV { kind: ErrorKind::BadEscape, pos, text: Some(raw) }),
                ),
            },
            SElem::Pos => match entity_spec(raw) {
                Some(code) => SStep::Next(
                    SState { part_of_speech: st.part_of_speech.push(code), ..st },
                ),
                None => SStep::Done(
                    Err(ErrorV { kind: ErrorKind::BadEntity, pos, text: Some(raw) }),
                ),
            },
            SElem::Xref => match xml_unescaped(raw) {
                Some(t) => match xref_spec(t) {
                    Some(x) => SStep::Next(SState { cross_refs: st.cross_refs.push(x), ..st }),
                    None => SStep::Done(
                        Err(ErrorV { kind: ErrorKind::BadCrossRef, pos, text: Some(t) }),
                    ),
                },
                None => SStep::Done(
                    Err(ErrorV { kind: ErrorKind::BadEscape, pos, text: Some(raw) }),
                ),
            },
            SElem::Gloss => match xml_unescaped(raw) {
                Some(t) => SStep::Next(SState { glosses: st.glosses.push(t), ..st }),
                None => SStep::Done(
                    Err(ErrorV { kind: ErrorKind::BadEscape, pos, text: Some(raw) }),
                ),
            },
            SElem::NoField => SStep::Next(st),
        },
    }
}

/// Folds the sense assembler over the events from `i` on: the record
/// and the index just past the closing tag, or the first hard error.
pub open spec fn s_run(evs: Seq<EventV>, i: int, st: SState) -> Result<(SenseV, int), ErrorV>
    recommends
        0 <= i <= evs.len(),
    decreases evs.len() - i,
{
    if i < 0 || i >= evs.len() {
        Err(truncated_err(evs))
    } else {
        match s_step(st, evs[i]) {
            SStep::Next(st2) => s_run(evs, i + 1, st2),
            SStep::Done(Ok(rec)) => Ok((rec, i + 1)),
            SStep::Done(Err(e)) => Err(e),
        }
    }
}

/// A successful run consumes at least one event and stops within the
/// stream.
pub proof fn lemma_s_run_bounds(evs: Seq<EventV>, i: int, st: SState)
    requires
        0 <= i <= evs.len(),
    ensures
        match s_run(evs, i, st) {
            Ok(p) => i < p.1 <= evs.len(),
            Err(_) => true,
        },
    decreases evs.len() - i,
{
    if i < evs.len() {
        match s_step(st, evs[i]) {
            SStep::Next(st2) => lemma_s_run_bounds(evs, i + 1, st2),
            SStep::Done(_) => {},
        }
    }
}

/// Assembles one sense from the events at `start` (just past the
/// sense's start tag) up to its closing tag; returns the record and
/// the index just past that closing tag.  Exactly the transition
/// system [`s_run`] applied to the events.
pub fn parse_sense(events: &Vec<XmlEvent>, start: usize) -> (res: Result<
    (Sense, usize),
    ParseError,
>)
    requires
        start <= events@.len(),
    ensures
        ({
            let out = s_run(view_events(events@), start as int, s_init());
            match res {
                Ok(p) => out == Ok::<(SenseV, int), ErrorV>((p.0@, p.1 as int)) && start < p.1
                    <= events@.len(),
                Err(e) => out == Err::<(SenseV, int), ErrorV>(e@),
            }
        }),
{
    let ghost evs = view_events(events@);
    let n = events.len();
    let mut i = start;
    let mut only_kanji: Vec<String> = Vec::new();
    let mut only_readings: Vec<String> = Vec::new();
    let mut part_of_speech: Vec<String> = Vec::new();
    let mut cross_refs: Vec<CrossReference> = Vec::new();
    let mut glosses: Vec<String> = Vec::new();
    let mut sense_lang: Option<String> = None;
    let mut elem: SElem = SElem::NoField;
    proof {
        assert(view_strings(only_kanji@) =~= Seq::<Seq<char>>::empty());
        assert(view_strings(only_readings@) =~= Seq::<Seq<char>>::empty());
        assert(view_strings(part_of_speech@) =~= Seq::<Seq<char>>::empty());
        assert(cross_refs@.map(|j: int, y: CrossReference| y@) =~= Seq::<CrossRefV>::empty());
        assert(view_strings(glosses@) =~= Seq::<Seq<char>>::empty());
    }
    while i < n
        invariant
            start <= i <= n == events@.len(),
            evs == view_events(events@),
            s_run(evs, start as int, s_init()) == s_run(
                evs,
                i as int,
                SState {
                    only_kanji: view_strings(only_kanji@),
                    only_readings: view_strings(only_readings@),
                    part_of_speech: view_strings(part_of_speech@),
                    cross_refs: cross_refs@.map(|j: int, y: CrossReference| y@),
                    glosses: view_strings(glosses@),
                    lang: view_opt_string(sense_lang),
                    elem: elem,
                },
            ),
        decreases n - i,
    {
        let ghost st = SState {
            only_kanji: view_strings(only_kanji@),
            only_readings: view_strings(only_readings@),
            part_of_speech: view_strings(part_of_speech@),
            cross_refs: cross_refs@.map(|j: int, y: CrossReference| y@),
            glosses: view_strings(glosses@),
            lang: view_opt_string(sense_lang),
            elem: elem,
        };
        proof {
            assert(evs[i as int] == events@[i as int]@);
        }
        let ev = &events[i];
        match ev {
            XmlEvent::Start { name, lang, pos } => {
                if str_eq(name.as_str(), "stagk") {
                    elem = SElem::StagK;
                } else if str_eq(name.as_str(), "stagr") {
                    elem = SElem::StagR;
                } else if str_eq(name.as_str(), "pos") {
                    elem = SElem::Pos;
                } else if str_eq(name.as_str(), "xref") {
                    elem = SElem::Xref;
                } else if str_eq(name.as_str(), "gloss") {
                    elem = SElem::Gloss;
                    match lang {
                        Some(l) => {
                            match &sense_lang {
                                Some(cur) => {
                                    if !str_eq(cur.as_str(), l.as_str()) {
                                        return Err(
                                            ParseError {
                                                kind: ErrorKind::GlossLangMismatch,
                                                pos: *pos,
                                                text: Some(l.clone()),
                                            },
                                        );
                                    }
                                },
                                None => {
                                    sense_lang = Some(l.clone());
                                },
                            }
                        },
                        None => {},
                    }
                }
            },
            XmlEvent::End { name, pos: _ } => {
                if str_eq(name.as_str(), "sense") {
                    let rec = Sense {
                        only_kanji,
                        only_readings,
                        part_of_speech,
                        cross_refs,
                        glosses,
                        lang: sense_lang,
                    };
                    return Ok((rec, i + 1));
                } else {
                    elem = SElem::NoField;
                }
            },
            XmlEvent::Text { raw, pos } => {
                match elem {
                    SElem::StagK => {
                        match unescape_text(raw.as_str()) {
                            Some(t) => {
                                proof {
                                    lemma_view_strings_push(only_kanji@, t);
                                }
                                only_kanji.push(t);
                            },
                            None => {
                                return Err(
                                    ParseError {
                                        kind: ErrorKind::BadEscape,
                                        pos: *pos,
                                        text: Some(raw.clone()),
                                    },
                                );
                            },
                        }
                    },
                    SElem::StagR => {
                        match unescape_text(raw.as_str()) {
                            Some(t) => {
                                proof {
                                    lemma_view_strings_push(only_readings@, t);
                                }
                                only_readings.push(t);
                            },
                            None => {
                                return Err(
                                    ParseError {
                                        kind: ErrorKind::BadEscape,
                                        pos: *pos,
                                        text: Some(raw.clone()),
                                    },
                                );
                            },
                        }
                    },
                    SElem::Pos => {
                        match crate::entity::parse_single_entity(raw.as_str(), *pos) {
                            Ok(code) => {
                                proof {
                                    lemma_view_strings_push(part_of_speech@, code);
                                }
                                part_of_speech.push(code);
                            },
                            Err(e) => {
                                return Err(e);
                            },
                        }
                    },
                    SElem::Xref => {
                        match unescape_text(raw.as_str()) {
                            Some(t) => {
                                match crate::xref::parse_cross_ref(t.as_str(), *pos) {
                                    Ok(x) => {
                                        proof {
                                            lemma_view_xrefs_push(cross_refs@, x);
                                        }
                                        cross_refs.push(x);
                                    },
                                    Err(e) => {
                                        return Err(e);
                                    },
                                }
                            },
                            None => {
                                return Err(
                                    ParseError {
                                        kind: ErrorKind::BadEscape,
                                        pos: *pos,
                                        text: Some(raw.clone()),
                                    },
                                );
                            },
                        }
                    },
                    SElem::Gloss => {
                        match unescape_text(raw.as_str()) {
                            Some(t) => {
                                proof {
                                    lemma_view_strings_push(glosses@, t);
                                }
                                glosses.push(t);
                            },
                            None => {
                                return Err(
                                    ParseError {
                                        kind: ErrorKind::BadEscape,
                                        pos: *pos,
                                        text: Some(raw.clone()),
                                    },
                                );
                            },
                        }
                    },
                    SElem::NoField => {},
                }
            },
        }
        i += 1;
        proof {
            let st2 = SState {
                only_kanji: view_strings(only_kanji@),
                only_readings: view_strings(only_readings@),
                part_of_speech: view_strings(part_of_speech@),
                cross_refs: cross_refs@.map(|j: int, y: CrossReference| y@),
                glosses: view_strings(glosses@),
                lang: view_opt_string(sense_lang),
                elem: elem,
            };
            assert(s_step(st, evs[i - 1]) == SStep::Next(st2));
            assert(s_run(evs, i - 1, st) == s_run(evs, i as int, st2));
        }
    }
    let p = stream_end_pos(events);
    Err(ParseError { kind: ErrorKind::Truncated, pos: p, text: None })
}

/// Intermediate state of the entry assembler.
pub ghost struct EState {
    pub id: u32,
    pub kanji_entries: Seq<KanjiV>,
    pub reading_entries: Seq<ReadingV>,
    pub senses: Seq<SenseV>,
    pub ent_seq_open: bool,
    pub warns: Seq<WarningV>,
}

/// The state the entry assembler starts from.
pub open spec fn e_init() -> EState {
    EState {
        id: 0,
        kanji_entries: Seq::empty(),
        reading_entries: Seq::empty(),
        senses: Seq::empty(),
        ent_seq_open: false,
        warns: Seq::empty(),
    }
}

/// What a run of the entry assembler yields: the entry and the index
/// just past its closing tag, or the first hard error; plus the
/// warnings emitted on the way, its own and its sub-assemblers'.
pub ghost struct EOut {
    pub result: Result<(EntryV, int), ErrorV>,
    pub warns: Seq<WarningV>,
}

/// Folds the entry assembler over the events from `i` on.  Start tags
/// of the three group kinds delegate to the group assemblers and
/// resume just past the group's closing tag; the identifier field is
/// tracked by an open flag whose misuse (nesting, stray close) is a
/// hard error; on the entry's end tag the whole-entry invariants are
/// enforced: an identifier was found and non-zero, and at least one
/// reading group was assembled.
pub open spec fn e_run(evs: Seq<EventV>, i: int, st: EState) -> EOut
    recommends
        0 <= i <= evs.len(),
    decreases evs.len() - i,
    via e_run_decreases
{
    if i < 0 || i >= evs.len() {
        EOut { result: Err(truncated_err(evs)), warns: st.warns }
    } else {
        match evs[i] {
            EventV::Start { name, lang, pos } => {
                if name == "ent_seq"@ {
                    if st.ent_seq_open {
                        EOut {
                            result: Err(
                                ErrorV { kind: ErrorKind::NestedIdTag, pos, text: None },
                            ),
                            warns: st.warns,
                        }
                    } else {
                        e_run(evs, i + 1, EState { ent_seq_open: true, ..st })
                    }
                } else if name == "k_ele"@ {
                    let k = k_run(evs, i + 1, k_init());
                    match k.result {
                        Ok(p) => e_run(
                            evs,
                            p.1,
                            EState {
                                kanji_entries: st.kanji_entries.push(p.0),
                                warns: st.warns + k.warns,
                                ..st
                            },
                        ),
                        Err(e) => EOut { result: Err(e), warns: st.warns + k.warns },
                    }
                } else if name == "r_ele"@ {
                    let r = r_run(evs, i + 1, r_init());
                    match r.result {
                        Ok(p) => e_run(
                            evs,
                            p.1,
                            EState {
                                reading_entries: st.reading_entries.push(p.0),
                                warns: st.warns + r.warns,
                                ..st
                            },
                        ),
                        Err(e) => EOut { result: Err(e), warns: st.warns + r.warns },
                    }
                } else if name == "sense"@ {
                    match s_run(evs, i + 1, s_init()) {
                        Ok(p) => e_run(evs, p.1, EState { senses: st.senses.push(p.0), ..st }),
                        Err(e) => EOut { result: Err(e), warns: st.warns },
                    }
                } else {
                    e_run(
                        evs,
                        i + 1,
                        EState {
                            warns: st.warns.push(unknown_tag_warn("entry"@, name, pos)),
                            ..st
                        },
                    )
                }
            },
            EventV::End { name, pos } => {
                if name == "entry"@ {
                    if st.id == 0 {
                        EOut {
                            result: Err(ErrorV { kind: ErrorKind::IdNotFound, pos, text: None }),
                            warns: st.warns,
                        }
                    } else if st.reading_entries.len() == 0 {
                        EOut {
                            result: Err(ErrorV { kind: ErrorKind::NoReadings, pos, text: None }),
                            warns: st.warns,
                        }
                    } else {
                        EOut {
                            result: Ok(
                                (
                                    EntryV {
                                        id: st.id,
                                        kanji_entries: st.kanji_entries,
                                        reading_entries: st.reading_entries,
                                        senses: st.senses,
                                    },
                                    i + 1,
                                ),
                            ),
                            warns: st.warns,
                        }
                    }
                } else if name == "ent_seq"@ {
                    if !st.ent_seq_open {
                        EOut {
                            result: Err(
                                ErrorV { kind: ErrorKind::MismatchedIdTag, pos, text: None },
                            ),
                            warns: st.warns,
                        }
                    } else {
                        e_run(evs, i + 1, EState { ent_seq_open: false, ..st })
                    }
                } else {
                    e_run(evs, i + 1, st)
                }
            },
            EventV::Text { raw, pos } => {
                if st.ent_seq_open {
                    match xml_unescaped(raw) {
                        Some(t) => match u32_of_decimal(t) {
                            Some(v) => e_run(evs, i + 1, EState { id: v, ..st }),
                            None => EOut {
                                result: Err(
                                    ErrorV { kind: ErrorKind::BadId, pos, text: Some(t) },
                                ),
                                warns: st.warns,
                            },
                        },
                        None => EOut {
                            result: Err(
                                ErrorV { kind: ErrorKind::BadEscape, pos, text: Some(raw) },
                            ),
                            warns: st.warns,
                        },
                    }
                } else {
                    e_run(evs, i + 1, st)
                }
            },
        }
    }
}

#[via_fn]
proof fn e_run_decreases(evs: Seq<EventV>, i: int, st: EState) {
    if 0 <= i && i < evs.len() {
        lemma_k_run_bounds(evs, i + 1, k_init());
        lemma_r_run_bounds(evs, i + 1, r_init());
        lemma_s_run_bounds(evs, i + 1, s_init());
    }
}

/// A successful run consumes at least one event and stops within the
/// stream.
pub proof fn lemma_e_run_bounds(evs: Seq<EventV>, i: int, st: EState)
    requires
        0 <= i <= evs.len(),
    ensures
        match e_run(evs, i, st).result {
            Ok(p) => i < p.1 <= evs.len(),
            Err(_) => true,
        },
    decreases evs.len() - i,
{
    if 0 <= i && i < evs.len() {
        lemma_k_run_bounds(evs, i + 1, k_init());
        lemma_r_run_bounds(evs, i + 1, r_init());
        lemma_s_run_bounds(evs, i + 1, s_init());
        match evs[i] {
            EventV::Start { name, lang, pos } => {
                if name == "ent_seq"@ {
                    if !st.ent_seq_open {
                        lemma_e_run_bounds(evs, i + 1, EState { ent_seq_open: true, ..st });
                    }
                } else if name == "k_ele"@ {
                    let k = k_run(evs, i + 1, k_init());
                    match k.result {
                        Ok(p) => lemma_e_run_bounds(
                            evs,
                            p.1,
                            EState {
                                kanji_entries: st.kanji_entries.push(p.0),
                                warns: st.warns + k.warns,
                                ..st
                            },
                        ),
                        Err(e) => {},
                    }
                } else if name == "r_ele"@ {
                    let r = r_run(evs, i + 1, r_init());
                    match r.result {
                        Ok(p) => lemma_e_run_bounds(
                            evs,
                            p.1,
                            EState {
                                reading_entries: st.reading_entries.push(p.0),
                                warns: st.warns + r.warns,
                                ..st
                            },
                        ),
                        Err(e) => {},
                    }
                } else if name == "sense"@ {
                    match s_run(evs, i + 1, s_init()) {
                        Ok(p) => lemma_e_run_bounds(
                            evs,
                            p.1,
                            EState { senses: st.senses.push(p.0), ..st },
                        ),
                        Err(e) => {},
                    }
                } else {
                    lemma_e_run_bounds(
                        evs,
                        i + 1,
                        EState {
                            warns: st.warns.push(unknown_tag_warn("entry"@, name, pos)),
                            ..st
                        },
                    );
                }
            },
            EventV::End { name, pos } => {
                if name == "entry"@ {
                } else if name == "ent_seq"@ {
                    if st.ent_seq_open {
                        lemma_e_run_bounds(evs, i + 1, EState { ent_seq_open: false, ..st });
                    }
                } else {
                    lemma_e_run_bounds(evs, i + 1, st);
                }
            },
            EventV::Text { raw, pos } => {
                if st.ent_seq_open {
                    match xml_unescaped(raw) {
                        Some(t) => match u32_of_decimal(t) {
                            Some(v) => lemma_e_run_bounds(evs, i + 1, EState { id: v, ..st }),
                            None => {},
                        },
                        None => {},
                    }
                } else {
                    lemma_e_run_bounds(evs, i + 1, st);
                }
            },
        }
    }
}

/// Assembles one entry from the events at `start` (just past the
/// entry's start tag) up to its closing tag; returns the entry and the
/// index just past that closing tag.  Exactly the transition system
/// [`e_run`] applied to the events: same result, same warnings.
pub fn parse_entry(events: &Vec<XmlEvent>, start: usize, warnings: &mut Vec<Warning>) -> (res:
    Result<(Entry, usize), ParseError>)
    requires
        start <= events@.len(),
    ensures
        ({
            let out = e_run(view_events(events@), start as int, e_init());
            &&& match res {
                Ok(p) => out.result == Ok::<(EntryV, int), ErrorV>((p.0@, p.1 as int)) && start
                    < p.1 <= events@.len(),
                Err(e) => out.result == Err::<(EntryV, int), ErrorV>(e@),
            }
            &&& view_warnings(final(warnings)@) == view_warnings(old(warnings)@) + out.warns
        }),
{
    let ghost evs = view_events(events@);
    let n = events.len();
    let mut i = start;
    let mut id: u32 = 0;
    let mut kanji_entries: Vec<KanjiEntry> = Vec::new();
    let mut reading_entries: Vec<ReadingEntry> = Vec::new();
    let mut senses: Vec<Sense> = Vec::new();
    let mut ent_seq_open: bool = false;
    let ghost mut wacc: Seq<WarningV> = Seq::empty();
    proof {
        assert(view_warnings(warnings@) =~= view_warnings(warnings@) + wacc);
        assert(kanji_entries@.map(|j: int, y: KanjiEntry| y@) =~= Seq::<KanjiV>::empty());
        assert(reading_entries@.map(|j: int, y: ReadingEntry| y@) =~= Seq::<ReadingV>::empty());
        assert(senses@.map(|j: int, y: Sense| y@) =~= Seq::<SenseV>::empty());
    }
    while i < n
        invariant
            start <= i <= n == events@.len(),
            evs == view_events(events@),
            e_run(evs, start as int, e_init()) == e_run(
                evs,
                i as int,
                EState {
                    id: id,
                    kanji_entries: kanji_entries@.map(|j: int, y: KanjiEntry| y@),
                    reading_entries: reading_entries@.map(|j: int, y: ReadingEntry| y@),
                    senses: senses@.map(|j: int, y: Sense| y@),
                    ent_seq_open: ent_seq_open,
                    warns: wacc,
                },
            ),
            view_warnings(warnings@) == view_warnings(old(warnings)@) + wacc,
        decreases n - i,
    {
        let ghost st = EState {
            id: id,
            kanji_entries: kanji_entries@.map(|j: int, y: KanjiEntry| y@),
            reading_entries: reading_entries@.map(|j: int, y: ReadingEntry| y@),
            senses: senses@.map(|j: int, y: Sense| y@),
            ent_seq_open: ent_seq_open,
            warns: wacc,
        };
        proof {
            assert(evs[i as int] == events@[i as int]@);
        }
        let ev = &events[i];
        match ev {
            XmlEvent::Start { name, lang: _, pos } => {
                if str_eq(name.as_str(), "ent_seq") {
                    if ent_seq_open {
                        return Err(
                            ParseError { kind: ErrorKind::NestedIdTag, pos: *pos, text: None },
                        );
                    }
                    ent_seq_open = true;
                } else if str_eq(name.as_str(), "k_ele") {
                    match parse_k_ele(events, i + 1, warnings) {
                        Ok((rec, next)) => {
                            proof {
                                let k = k_run(evs, i as int + 1, k_init());
                                wacc = st.warns + k.warns;
                                assert(view_warnings(warnings@) =~= view_warnings(old(warnings)@)
                                    + wacc);
                                lemma_view_kanji_push(kanji_entries@, rec);
                            }
                            kanji_entries.push(rec);
                            i = next;
                            proof {
                                let st2 = EState {
                                    id: id,
                                    kanji_entries: kanji_entries@.map(|j: int, y: KanjiEntry| y@),
                                    reading_entries: reading_entries@.map(
                                        |j: int, y: ReadingEntry| y@,
                                    ),
                                    senses: senses@.map(|j: int, y: Sense| y@),
                                    ent_seq_open: ent_seq_open,
                                    warns: wacc,
                                };
                                assert(e_run(evs, start as int, e_init()) == e_run(
                                    evs,
                                    i as int,
                                    st2,
                                ));
                            }
                            continue ;
                        },
                        Err(e) => {
                            proof {
                                let k = k_run(evs, i as int + 1, k_init());
                                wacc = st.warns + k.warns;
                                assert(view_warnings(warnings@) =~= view_warnings(old(warnings)@)
                                    + wacc);
                            }
                            return Err(e);
                        },
                    }
                } else if str_eq(name.as_str(), "r_ele") {
                    match parse_r_ele(events, i + 1, warnings) {
                        Ok((rec, next)) => {
                            proof {
                                let r = r_run(evs, i as int + 1, r_init());
                                wacc = st.warns + r.warns;
                                assert(view_warnings(warnings@) =~= view_warnings(old(warnings)@)
                                    + wacc);
                                lemma_view_readings_push(reading_entries@, rec);
                            }
                            reading_entries.push(rec);
                            i = next;
                            proof {
                                let st2 = EState {
                                    id: id,
                                    kanji_entries: kanji_entries@.map(|j: int, y: KanjiEntry| y@),
                                    reading_entries: reading_entries@.map(
                                        |j: int, y: ReadingEntry| y@,
                                    ),
                                    senses: senses@.map(|j: int, y: Sense| y@),
                                    ent_seq_open: ent_seq_open,
                                    warns: wacc,
                                };
                                assert(e_run(evs, start as int, e_init()) == e_run(
                                    evs,
                                    i as int,
                                    st2,
                                ));
                            }
                            continue ;
                        },
                        Err(e) => {
                            proof {
                                let r = r_run(evs, i as int + 1, r_init());
                                wacc = st.warns + r.warns;
                                assert(view_warnings(warnings@) =~= view_warnings(old(warnings)@)
                                    + wacc);
                            }
                            return Err(e);
                        },
                    }
                } else if str_eq(name.as_str(), "sense") {
                    match parse_sense(events, i + 1) {
                        Ok((rec, next)) => {
                            proof {
                                lemma_view_senses_push(senses@, rec);
                            }
                            senses.push(rec);
                            i = next;
                            proof {
                                let st2 = EState {
                                    id: id,
                                    kanji_entries: kanji_entries@.map(|j: int, y: KanjiEntry| y@),
                                    reading_entries: reading_entries@.map(
                                        |j: int, y: ReadingEntry| y@,
                                    ),
                                    senses: senses@.map(|j: int, y: Sense| y@),
                                    ent_seq_open: ent_seq_open,
                                    warns: wacc,
                                };
                                assert(e_run(evs, start as int, e_init()) == e_run(
                                    evs,
                                    i as int,
                                    st2,
                                ));
                            }
                            continue ;
                        },
                        Err(e) => {
                            return Err(e);
                        },
                    }
                } else {
                    let w = Warning {
                        kind: WarnKind::UnknownTag,
                        pos: *pos,
                        parent: "entry".to_owned(),
                        detail: name.clone(),
                    };
                    proof {
                        wacc = wacc.push(w@);
                        assert((view_warnings(old(warnings)@) + st.warns).push(w@)
                            =~= view_warnings(old(warnings)@) + wacc);
                    }
                    push_warning(warnings, w);
                }
            },
            XmlEvent::End { name, pos } => {
                if str_eq(name.as_str(), "entry") {
                    if id == 0 {
                        return Err(
                            ParseError { kind: ErrorKind::IdNotFound, pos: *pos, text: None },
                        );
                    }
                    if reading_entries.len() == 0 {
                        return Err(
                            ParseError { kind: ErrorKind::NoReadings, pos: *pos, text: None },
                        );
                    }
                    let rec = Entry { id, kanji_entries, reading_entries, senses };
                    return Ok((rec, i + 1));
                } else if str_eq(name.as_str(), "ent_seq") {
                    if !ent_seq_open {
                        return Err(
                            ParseError { kind: ErrorKind::MismatchedIdTag, pos: *pos, text: None },
                        );
                    }
                    ent_seq_open = false;
                }
            },
            XmlEvent::Text { raw, pos } => {
                if ent_seq_open {
                    match unescape_text(raw.as_str()) {
                        Some(t) => {
                            match crate::text::parse_u32(t.as_str()) {
                                Some(v) => {
                                    id = v;
                                },
                                None => {
                                    return Err(
                                        ParseError {
                                            kind: ErrorKind::BadId,
                                            pos: *pos,
                                            text: Some(t),
                                        },
                                    );
                                },
                            }
                        },
                        None => {
                            return Err(
                                ParseError {
                                    kind: ErrorKind::BadEscape,
                                    pos: *pos,
                                    text: Some(raw.clone()),
                                },
                            );
                        },
                    }
                }
            },
        }
        i += 1;
        proof {
            let st2 = EState {
                id: id,
                kanji_entries: kanji_entries@.map(|j: int, y: KanjiEntry| y@),
                reading_entries: reading_entries@.map(|j: int, y: ReadingEntry| y@),
                senses: senses@.map(|j: int, y: Sense| y@),
                ent_seq_open: ent_seq_open,
                warns: wacc,
            };
            assert(e_run(evs, i - 1, st) == e_run(evs, i as int, st2));
        }
    }
    let p = stream_end_pos(events);
    Err(ParseError { kind: ErrorKind::Truncated, pos: p, text: None })
}

} // verus!
