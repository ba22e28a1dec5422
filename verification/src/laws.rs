//! The library's stated laws: properties of the assembler transition
//! systems, proved once and for all inputs.

use vstd::prelude::*;

use crate::assemble::{
    e_run, k_init, k_run, k_step, r_init, r_run, r_step, s_step, unknown_tag_warn, EState, KState,
    KStep, RState, RStep, SElem, SState, SStep,
};
use crate::driver::{d_run, DState};
use crate::error::{ErrorKind, ErrorV};
use crate::events::EventV;
use crate::records::{wf_entry, wf_kanji, wf_reading, KanjiV, ReadingV};
use crate::text::is_trimmed;

verus! {

/// Every headword group the assembler accepts is well-formed: its
/// text is non-empty and free of leading and trailing whitespace.
pub proof fn lemma_k_run_wf(evs: Seq<EventV>, i: int, st: KState)
    requires
        0 <= i <= evs.len(),
    ensures
        match k_run(evs, i, st).result {
            Ok(p) => wf_kanji(p.0),
            Err(_) => true,
        },
    decreases evs.len() - i,
{
    if i < evs.len() {
        match k_step(st, evs[i]) {
            KStep::Next(st2) => lemma_k_run_wf(evs, i + 1, st2),
            KStep::Done(_) => {},
        }
    }
}

/// Every reading group the assembler accepts is well-formed: its text
/// is non-empty and free of leading and trailing whitespace.
pub proof fn lemma_r_run_wf(evs: Seq<EventV>, i: int, st: RState)
    requires
        0 <= i <= evs.len(),
    ensures
        match r_run(evs, i, st).result {
            Ok(p) => wf_reading(p.0),
            Err(_) => true,
        },
    decreases evs.len() - i,
{
    if i < evs.len() {
        match r_step(st, evs[i]) {
            RStep::Next(st2) => lemma_r_run_wf(evs, i + 1, st2),
            RStep::Done(_) => {},
        }
    }
}

/// Closing a headword group decides exactly by the assembled text:
/// padded text is the whitespace error, empty text the emptiness
/// error, and a trimmed non-empty text yields the record.
pub proof fn lemma_k_close_checks(
    evs: Seq<EventV>,
    i: int,
    st: KState,
    pos: nat,
)
    requires
        0 <= i < evs.len(),
        evs[i] == (EventV::End { name: "k_ele"@, pos }),
    ensures
        !is_trimmed(st.kanji) ==> k_run(evs, i, st).result == Err::<(KanjiV, int), ErrorV>(
            ErrorV { kind: ErrorKind::PaddedText, pos, text: Some(st.kanji) },
        ),
        is_trimmed(st.kanji) && st.kanji.len() == 0 ==> k_run(evs, i, st).result == Err::<
            (KanjiV, int),
            ErrorV,
        >(ErrorV { kind: ErrorKind::EmptyText, pos, text: None }),
        is_trimmed(st.kanji) && st.kanji.len() > 0 ==> k_run(evs, i, st).result == Ok::<
            (KanjiV, int),
            ErrorV,
        >((KanjiV { kanji: st.kanji, info: st.info, priority: st.priority }, i + 1)),
{
}

/// Closing a reading group decides exactly by the assembled text, as
/// for headword groups.
pub proof fn lemma_r_close_checks(
    evs: Seq<EventV>,
    i: int,
    st: RState,
    pos: nat,
)
    requires
        0 <= i < evs.len(),
        evs[i] == (EventV::End { name: "r_ele"@, pos }),
    ensures
        !is_trimmed(st.kana) ==> r_run(evs, i, st).result == Err::<(ReadingV, int), ErrorV>(
            ErrorV { kind: ErrorKind::PaddedText, pos, text: Some(st.kana) },
        ),
        is_trimmed(st.kana) && st.kana.len() == 0 ==> r_run(evs, i, st).result == Err::<
            (ReadingV, int),
            ErrorV,
        >(ErrorV { kind: ErrorKind::EmptyText, pos, text: None }),
        is_trimmed(st.kana) && st.kana.len() > 0 ==> r_run(evs, i, st).result == Ok::<
            (ReadingV, int),
            ErrorV,
        >(
            (
                ReadingV {
                    kana: st.kana,
                    no_kanji: st.no_kanji,
                    related_kanji: st.related_kanji,
                    info: st.info,
                    priority: st.priority,
                },
                i + 1,
            ),
        ),
{
}

/// Closing an entry whose identifier was never set, or was set to
/// zero, fails with the identifier-not-found error, whatever else the
/// entry holds.
pub proof fn lemma_entry_id_missing(evs: Seq<EventV>, i: int, st: EState, pos: nat)
    requires
        0 <= i < evs.len(),
        evs[i] == (EventV::End { name: "entry"@, pos }),
        st.id == 0,
    ensures
        e_run(evs, i, st).result == Err::<(crate::records::EntryV, int), ErrorV>(
            ErrorV { kind: ErrorKind::IdNotFound, pos, text: None },
        ),
{
}

/// Closing an entry that gathered no reading group fails with the
/// no-reading-entries error, regardless of its headword count.
pub proof fn lemma_entry_no_readings(evs: Seq<EventV>, i: int, st: EState, pos: nat)
    requires
        0 <= i < evs.len(),
        evs[i] == (EventV::End { name: "entry"@, pos }),
        st.id != 0,
        st.reading_entries.len() == 0,
    ensures
        e_run(evs, i, st).result == Err::<(crate::records::EntryV, int), ErrorV>(
            ErrorV { kind: ErrorKind::NoReadings, pos, text: None },
        ),
{
}

/// Every entry the assembler accepts is well-formed, provided the
/// groups gathered so far are: its identifier is non-zero, it has at
/// least one reading group, and every group's text invariant holds.
pub proof fn lemma_e_run_wf(evs: Seq<EventV>, i: int, st: EState)
    requires
        0 <= i <= evs.len(),
        forall|j: int| 0 <= j < st.kanji_entries.len() ==> wf_kanji(#[trigger] st.kanji_entries[j]),
        forall|j: int|
            0 <= j < st.reading_entries.len() ==> wf_reading(#[trigger] st.reading_entries[j]),
    ensures
        match e_run(evs, i, st).result {
            Ok(p) => wf_entry(p.0),
            Err(_) => true,
        },
    decreases evs.len() - i,
{
    if 0 <= i && i < evs.len() {
        crate::assemble::lemma_k_run_bounds(evs, i + 1, k_init());
        crate::assemble::lemma_r_run_bounds(evs, i + 1, r_init());
        crate::assemble::lemma_s_run_bounds(evs, i + 1, crate::assemble::s_init());
        match evs[i] {
            EventV::Start { name, lang, pos } => {
                if name == "ent_seq"@ {
                    if !st.ent_seq_open {
                        lemma_e_run_wf(evs, i + 1, EState { ent_seq_open: true, ..st });
                    }
                } else if name == "k_ele"@ {
                    let k = k_run(evs, i + 1, k_init());
                    match k.result {
                        Ok(p) => {
                            lemma_k_run_wf(evs, i + 1, k_init());
                            let st2 = EState {
                                kanji_entries: st.kanji_entries.push(p.0),
                                warns: st.warns + k.warns,
                                ..st
                            };
                            assert(forall|j: int|
                                0 <= j < st2.kanji_entries.len() ==> wf_kanji(
                                    #[trigger] st2.kanji_entries[j],
                                ));
                            lemma_e_run_wf(evs, p.1, st2);
                        },
                        Err(_) => {},
                    }
                } else if name == "r_ele"@ {
                    let r = r_run(evs, i + 1, r_init());
                    match r.result {
                        Ok(p) => {
                            lemma_r_run_wf(evs, i + 1, r_init());
                            let st2 = EState {
                                reading_entries: st.reading_entries.push(p.0),
                                warns: st.warns + r.warns,
                                ..st
                            };
                            assert(forall|j: int|
                                0 <= j < st2.reading_entries.len() ==> wf_reading(
                                    #[trigger] st2.reading_entries[j],
                                ));
                            lemma_e_run_wf(evs, p.1, st2);
                        },
                        Err(_) => {},
                    }
                } else if name == "sense"@ {
                    match crate::assemble::s_run(evs, i + 1, crate::assemble::s_init()) {
                        Ok(p) => {
                            lemma_e_run_wf(evs, p.1, EState { senses: st.senses.push(p.0), ..st });
                        },
                        Err(_) => {},
                    }
                } else {
                    lemma_e_run_wf(
                        evs,
                        i + 1,
                        EState {
                            warns: st.warns.push(unknown_tag_warn("entry"@, name, pos)),
                            ..st
                        },
                    );
                }
            },
            EventV::End { name, pos } => {
                if name == "entry"@ {
                } else if name == "ent_seq"@ {
                    if st.ent_seq_open {
                        lemma_e_run_wf(evs, i + 1, EState { ent_seq_open: false, ..st });
                    }
                } else {
                    lemma_e_run_wf(evs, i + 1, st);
                }
            },
            EventV::Text { raw, pos } => {
                if st.ent_seq_open {
                    match crate::escape::xml_unescaped(raw) {
                        Some(t) => match crate::text::u32_of_decimal(t) {
                            Some(v) => lemma_e_run_wf(evs, i + 1, EState { id: v, ..st }),
                            None => {},
                        },
                        None => {},
                    }
                } else {
                    lemma_e_run_wf(evs, i + 1, st);
                }
            },
        }
    }
}

/// Every entry a successful document parse returns is well-formed,
/// provided those gathered so far are.
pub proof fn lemma_d_run_wf(evs: Seq<EventV>, i: int, st: DState)
    requires
        0 <= i <= evs.len(),
        forall|j: int| 0 <= j < st.entries.len() ==> wf_entry(#[trigger] st.entries[j]),
    ensures
        match d_run(evs, i, st).result {
            Ok(es) => forall|j: int| 0 <= j < es.len() ==> wf_entry(#[trigger] es[j]),
            Err(_) => true,
        },
    decreases evs.len() - i,
{
    if 0 <= i && i < evs.len() {
        crate::assemble::lemma_e_run_bounds(evs, i + 1, crate::assemble::e_init());
        match evs[i] {
            EventV::Start { name, lang, pos } => {
                if name == "entry"@ {
                    let e = e_run(evs, i + 1, crate::assemble::e_init());
                    match e.result {
                        Ok(p) => {
                            lemma_e_run_wf(evs, i + 1, crate::assemble::e_init());
                            let st2 = DState {
                                entries: st.entries.push(p.0),
                                warns: st.warns + e.warns,
                            };
                            assert(forall|j: int|
                                0 <= j < st2.entries.len() ==> wf_entry(
                                    #[trigger] st2.entries[j],
                                ));
                            lemma_d_run_wf(evs, p.1, st2);
                        },
                        Err(_) => {},
                    }
                } else {
                    lemma_d_run_wf(evs, i + 1, st);
                }
            },
            EventV::End { name, pos } => {
                lemma_d_run_wf(evs, i + 1, st);
            },
            EventV::Text { raw, pos } => {
                lemma_d_run_wf(evs, i + 1, st);
            },
        }
    }
}

/// An unrecognized child tag inside a headword group adds exactly one
/// warning and changes nothing else: the run continues from the next
/// event with the same fields and that one extra warning.
pub proof fn lemma_k_unknown_tag_warns_once(
    evs: Seq<EventV>,
    i: int,
    st: KState,
    name: Seq<char>,
    lang: Option<Seq<char>>,
    pos: nat,
)
    requires
        0 <= i < evs.len(),
        evs[i] == (EventV::Start { name, lang, pos }),
        name != "keb"@,
        name != "ke_inf"@,
        name != "ke_pri"@,
    ensures
        k_run(evs, i, st) == k_run(
            evs,
            i + 1,
            KState { warns: st.warns.push(unknown_tag_warn("k_ele"@, name, pos)), ..st },
        ),
{
}

/// Once a sense has adopted a gloss language, no transition changes
/// it: every later annotated gloss either carried the same language or
/// ended the sense in the language-mismatch error.
pub proof fn lemma_gloss_language_stable(st: SState, ev: EventV)
    requires
        st.lang is Some,
    ensures
        match s_step(st, ev) {
            SStep::Next(st2) => st2.lang == st.lang,
            SStep::Done(_) => true,
        },
{
}

/// A gloss annotated with a language other than the sense's adopted
/// one is the language-mismatch hard error.
pub proof fn lemma_gloss_language_mismatch(
    st: SState,
    cur: Seq<char>,
    l: Seq<char>,
    pos: nat,
)
    requires
        st.lang == Some(cur),
        l != cur,
    ensures
        s_step(st, EventV::Start { name: "gloss"@, lang: Some(l), pos }) == SStep::Done(
            Err::<crate::records::SenseV, ErrorV>(
                ErrorV { kind: ErrorKind::GlossLangMismatch, pos, text: Some(l) },
            ),
        ),
{
    reveal_strlit("gloss");
    reveal_strlit("stagk");
    reveal_strlit("stagr");
    reveal_strlit("pos");
    reveal_strlit("xref");
    assert(("gloss"@)[0] != ("stagk"@)[0]);
    assert(("gloss"@)[0] != ("stagr"@)[0]);
    assert(("gloss"@)[0] != ("pos"@)[0]);
    assert(("gloss"@)[0] != ("xref"@)[0]);
    assert("gloss"@ != "stagk"@);
    assert("gloss"@ != "stagr"@);
    assert("gloss"@ != "pos"@);
    assert("gloss"@ != "xref"@);
}

/// The first annotated gloss fixes the sense's language.
pub proof fn lemma_gloss_language_adopted(st: SState, l: Seq<char>, pos: nat)
    requires
        st.lang is None,
    ensures
        s_step(st, EventV::Start { name: "gloss"@, lang: Some(l), pos }) == SStep::Next(
            SState { elem: SElem::Gloss, lang: Some(l), ..st },
        ),
{
    reveal_strlit("gloss");
    reveal_strlit("stagk");
    reveal_strlit("stagr");
    reveal_strlit("pos");
    reveal_strlit("xref");
    assert(("gloss"@)[0] != ("stagk"@)[0]);
    assert(("gloss"@)[0] != ("stagr"@)[0]);
    assert(("gloss"@)[0] != ("pos"@)[0]);
    assert(("gloss"@)[0] != ("xref"@)[0]);
    assert("gloss"@ != "stagk"@);
    assert("gloss"@ != "stagr"@);
    assert("gloss"@ != "pos"@);
    assert("gloss"@ != "xref"@);
}

} // verus!
