//! The typed records one document parse produces, and their
//! mathematical images.
//!
//! An entry owns its headword groups (`kanji_entries`), reading groups
//! (`reading_entries`) and senses.  The invariants the assemblers
//! establish are stated by the `wf_*` spec functions.

use vstd::prelude::*;

use crate::svec::{sv_view, TagVec};
use crate::text::is_trimmed;

verus! {

/// One written form of an entry (a `k_ele` element).
#[derive(Debug, PartialEq)]
pub struct KanjiEntry {
    /// The headword text (`keb`).
    pub kanji: String,
    /// Category codes (`ke_inf`), decoded from entity literals.
    pub info: TagVec,
    /// Priority markers (`ke_pri`), stored verbatim.
    pub priority: TagVec,
}

/// One phonetic form of an entry (an `r_ele` element).
#[derive(Debug, PartialEq)]
pub struct ReadingEntry {
    /// The reading text (`reb`).
    pub kana: String,
    /// True when the reading stands on its own, untied to any headword
    /// (`re_nokanji`).
    pub no_kanji: bool,
    /// Headword texts this reading is valid for; empty means all
    /// (`re_restr`).
    pub related_kanji: Vec<String>,
    /// Category codes (`re_inf`), decoded from entity literals.
    pub info: TagVec,
    /// Priority markers (`re_pri`), stored verbatim.
    pub priority: TagVec,
}

/// One meaning unit of an entry (a `sense` element).
#[derive(Debug, PartialEq)]
pub struct Sense {
    /// Headword texts this sense applies to (`stagk`).
    pub only_kanji: Vec<String>,
    /// Reading texts this sense applies to (`stagr`).
    pub only_readings: Vec<String>,
    /// Part-of-speech codes (`pos`), decoded from entity literals.
    pub part_of_speech: Vec<String>,
    /// References to other entries (`xref`).
    pub cross_refs: Vec<CrossReference>,
    /// Translations (`gloss`), stored verbatim.
    pub glosses: Vec<String>,
    /// The language annotated on this sense's glosses, hoisted once to
    /// the sense; every annotated gloss carried this same value.
    pub lang: Option<String>,
}

/// A reference from one sense to another entry.
#[derive(Debug, PartialEq)]
pub struct CrossReference {
    /// The referenced headword or reading form; never empty.
    pub kanji_or_reading: String,
    /// A disambiguating reading of the referenced entry.
    pub reading: Option<String>,
    /// A sense number within the referenced entry.
    pub sense_index: Option<u8>,
}

/// One complete dictionary record.
#[derive(Debug, PartialEq)]
pub struct Entry {
    /// The entry's sequence number (`ent_seq`); never zero.
    pub id: u32,
    /// Written forms; may be empty.
    pub kanji_entries: Vec<KanjiEntry>,
    /// Phonetic forms; never empty.
    pub reading_entries: Vec<ReadingEntry>,
    /// Meaning units; may be empty.
    pub senses: Vec<Sense>,
}

/// Mathematical image of a [`KanjiEntry`].
pub ghost struct KanjiV {
    pub kanji: Seq<char>,
    pub info: Seq<Seq<char>>,
    pub priority: Seq<Seq<char>>,
}

/// Mathematical image of a [`ReadingEntry`].
pub ghost struct ReadingV {
    pub kana: Seq<char>,
    pub no_kanji: bool,
    pub related_kanji: Seq<Seq<char>>,
    pub info: Seq<Seq<char>>,
    pub priority: Seq<Seq<char>>,
}

/// Mathematical image of a [`CrossReference`].
pub ghost struct CrossRefV {
    pub kanji_or_reading: Seq<char>,
    pub reading: Option<Seq<char>>,
    pub sense_index: Option<u8>,
}

/// Mathematical image of a [`Sense`].
pub ghost struct SenseV {
    pub only_kanji: Seq<Seq<char>>,
    pub only_readings: Seq<Seq<char>>,
    pub part_of_speech: Seq<Seq<char>>,
    pub cross_refs: Seq<CrossRefV>,
    pub glosses: Seq<Seq<char>>,
    pub lang: Option<Seq<char>>,
}

/// Mathematical image of an [`Entry`].
pub ghost struct EntryV {
    pub id: u32,
    pub kanji_entries: Seq<KanjiV>,
    pub reading_entries: Seq<ReadingV>,
    pub senses: Seq<SenseV>,
}

pub open spec fn view_strings(s: Seq<String>) -> Seq<Seq<char>> {
    s.map(|i: int, t: String| t@)
}

/// Appending a string appends its characters to the images.
pub proof fn lemma_view_strings_push(s: Seq<String>, t: String)
    ensures
        view_strings(s.push(t)) == view_strings(s).push(t@),
{
    assert(view_strings(s.push(t)) =~= view_strings(s).push(t@));
}

/// Appending a cross-reference appends its image.
pub proof fn lemma_view_xrefs_push(s: Seq<CrossReference>, x: CrossReference)
    ensures
        s.push(x).map(|i: int, y: CrossReference| y@) == s.map(|i: int, y: CrossReference| y@).push(
            x@,
        ),
{
    assert(s.push(x).map(|i: int, y: CrossReference| y@) =~= s.map(
        |i: int, y: CrossReference| y@,
    ).push(x@));
}

/// Appending a headword group appends its image.
pub proof fn lemma_view_kanji_push(s: Seq<KanjiEntry>, k: KanjiEntry)
    ensures
        s.push(k).map(|i: int, y: KanjiEntry| y@) == s.map(|i: int, y: KanjiEntry| y@).push(k@),
{
    assert(s.push(k).map(|i: int, y: KanjiEntry| y@) =~= s.map(|i: int, y: KanjiEntry| y@).push(
        k@,
    ));
}

/// Appending a reading group appends its image.
pub proof fn lemma_view_readings_push(s: Seq<ReadingEntry>, r: ReadingEntry)
    ensures
        s.push(r).map(|i: int, y: ReadingEntry| y@) == s.map(|i: int, y: ReadingEntry| y@).push(
            r@,
        ),
{
    assert(s.push(r).map(|i: int, y: ReadingEntry| y@) =~= s.map(|i: int, y: ReadingEntry| y@).push(
        r@,
    ));
}

/// Appending an entry appends its image.
pub proof fn lemma_view_entries_push(s: Seq<Entry>, e: Entry)
    ensures
        s.push(e).map(|i: int, y: Entry| y@) == s.map(|i: int, y: Entry| y@).push(e@),
{
    assert(s.push(e).map(|i: int, y: Entry| y@) =~= s.map(|i: int, y: Entry| y@).push(e@));
}

/// Appending a sense appends its image.
pub proof fn lemma_view_senses_push(s: Seq<Sense>, x: Sense)
    ensures
        s.push(x).map(|i: int, y: Sense| y@) == s.map(|i: int, y: Sense| y@).push(x@),
{
    assert(s.push(x).map(|i: int, y: Sense| y@) =~= s.map(|i: int, y: Sense| y@).push(x@));
}

impl View for KanjiEntry {
    type V = KanjiV;

    open spec fn view(&self) -> KanjiV {
        KanjiV { kanji: self.kanji@, info: sv_view(self.info), priority: sv_view(self.priority) }
    }
}

impl View for ReadingEntry {
    type V = ReadingV;

    open spec fn view(&self) -> ReadingV {
        ReadingV {
            kana: self.kana@,
            no_kanji: self.no_kanji,
            related_kanji: view_strings(self.related_kanji@),
            info: sv_view(self.info),
            priority: sv_view(self.priority),
        }
    }
}

impl View for CrossReference {
    type V = CrossRefV;

    open spec fn view(&self) -> CrossRefV {
        CrossRefV {
            kanji_or_reading: self.kanji_or_reading@,
            reading: crate::error::view_opt_string(self.reading),
            sense_index: self.sense_index,
        }
    }
}

impl View for Sense {
    type V = SenseV;

    open spec fn view(&self) -> SenseV {
        SenseV {
            only_kanji: view_strings(self.only_kanji@),
            only_readings: view_strings(self.only_readings@),
            part_of_speech: view_strings(self.part_of_speech@),
            cross_refs: self.cross_refs@.map(|i: int, x: CrossReference| x@),
            glosses: view_strings(self.glosses@),
            lang: crate::error::view_opt_string(self.lang),
        }
    }
}

impl View for Entry {
    type V = EntryV;

    open spec fn view(&self) -> EntryV {
        EntryV {
            id: self.id,
            kanji_entries: self.kanji_entries@.map(|i: int, k: KanjiEntry| k@),
            reading_entries: self.reading_entries@.map(|i: int, r: ReadingEntry| r@),
            senses: self.senses@.map(|i: int, s: Sense| s@),
        }
    }
}

/// The headword text is non-empty and carries no leading or trailing
/// whitespace.
pub open spec fn wf_kanji(k: KanjiV) -> bool {
    k.kanji.len() > 0 && is_trimmed(k.kanji)
}

/// The reading text is non-empty and carries no leading or trailing
/// whitespace.
pub open spec fn wf_reading(r: ReadingV) -> bool {
    r.kana.len() > 0 && is_trimmed(r.kana)
}

/// A cross-reference always has a target.
pub open spec fn wf_cross_ref(x: CrossRefV) -> bool {
    x.kanji_or_reading.len() > 0
}

/// The whole-entry invariant: a non-zero identifier and at least one
/// reading group, with every group well-formed.
pub open spec fn wf_entry(e: EntryV) -> bool {
    &&& e.id != 0
    &&& e.reading_entries.len() > 0
    &&& forall|i: int| 0 <= i < e.kanji_entries.len() ==> wf_kanji(#[trigger] e.kanji_entries[i])
    &&& forall|i: int|
        0 <= i < e.reading_entries.len() ==> wf_reading(#[trigger] e.reading_entries[i])
}

} // verus!
