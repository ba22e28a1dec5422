//! The document driver: the outermost loop that scans top-level events
//! for entry-start markers, delegates each to the entry assembler, and
//! collects the results in document order.
//!
//! Parsing is fail-fast: the first hard error anywhere aborts the
//! whole document parse, with no partial results.

use vstd::prelude::*;

use crate::assemble::{e_init, e_run, lemma_e_run_bounds, parse_entry};
use crate::error::{view_warnings, ErrorV, ParseError, Warning, WarningV};
use crate::events::{view_events, EventV, XmlEvent};
use crate::records::{lemma_view_entries_push, wf_entry, Entry, EntryV};
use crate::text::str_eq;

verus! {

/// Intermediate state of the document driver.
pub ghost struct DState {
    pub entries: Seq<EntryV>,
    pub warns: Seq<WarningV>,
}

/// The state the document driver starts from.
pub open spec fn d_init() -> DState {
    DState { entries: Seq::empty(), warns: Seq::empty() }
}

/// What a run of the document driver yields: the entries in document
/// order, or the first hard error; plus all warnings emitted.
pub ghost struct DOut {
    pub result: Result<Seq<EntryV>, ErrorV>,
    pub warns: Seq<WarningV>,
}

/// Folds the document driver over the events from `i` on: each
/// entry-start marker delegates to the entry assembler, every other
/// top-level event is ignored, and the end of the stream closes the
/// document.
pub open spec fn d_run(evs: Seq<EventV>, i: int, st: DState) -> DOut
    recommends
        0 <= i <= evs.len(),
    decreases evs.len() - i,
    via d_run_decreases
{
    if i < 0 || i >= evs.len() {
        DOut { result: Ok(st.entries), warns: st.warns }
    } else {
        match evs[i] {
            EventV::Start { name, lang, pos } => {
                if name == "entry"@ {
                    let e = e_run(evs, i + 1, e_init());
                    match e.result {
                        Ok(p) => d_run(
                            evs,
                            p.1,
                            DState { entries: st.entries.push(p.0), warns: st.warns + e.warns },
                        ),
                        Err(er) => DOut { result: Err(er), warns: st.warns + e.warns },
                    }
                } else {
                    d_run(evs, i + 1, st)
                }
            },
            EventV::End { name, pos } => d_run(evs, i + 1, st),
            EventV::Text { raw, pos } => d_run(evs, i + 1, st),
        }
    }
}

#[via_fn]
proof fn d_run_decreases(evs: Seq<EventV>, i: int, st: DState) {
    if 0 <= i && i < evs.len() {
        lemma_e_run_bounds(evs, i + 1, e_init());
    }
}

/// Scans the whole event stream and returns the entries it describes,
/// in document order, or the first hard error.  Exactly the transition
/// system [`d_run`] applied to the events: same result, same warnings.
pub fn get_entries(events: &Vec<XmlEvent>, warnings: &mut Vec<Warning>) -> (res: Result<
    Vec<Entry>,
    ParseError,
>)
    ensures
        ({
            let out = d_run(view_events(events@), 0, d_init());
            &&& match res {
                Ok(es) => out.result == Ok::<Seq<EntryV>, ErrorV>(
                    es@.map(|j: int, y: Entry| y@),
                ),
                Err(e) => out.result == Err::<Seq<EntryV>, ErrorV>(e@),
            }
            &&& view_warnings(final(warnings)@) == view_warnings(old(warnings)@) + out.warns
        }),
{
    let ghost evs = view_events(events@);
    let n = events.len();
    let mut i: usize = 0;
    let mut entries: Vec<Entry> = Vec::new();
    let ghost mut wacc: Seq<WarningV> = Seq::empty();
    proof {
        assert(view_warnings(warnings@) =~= view_warnings(warnings@) + wacc);
        assert(entries@.map(|j: int, y: Entry| y@) =~= Seq::<EntryV>::empty());
    }
    while i < n
        invariant
            i <= n == events@.len(),
            evs == view_events(events@),
            d_run(evs, 0, d_init()) == d_run(
                evs,
                i as int,
                DState { entries: entries@.map(|j: int, y: Entry| y@), warns: wacc },
            ),
            view_warnings(warnings@) == view_warnings(old(warnings)@) + wacc,
        decreases n - i,
    {
        let ghost st = DState { entries: entries@.map(|j: int, y: Entry| y@), warns: wacc };
        proof {
            assert(evs[i as int] == events@[i as int]@);
        }
        let ev = &events[i];
        match ev {
            XmlEvent::Start { name, lang: _, pos: _ } => {
                if str_eq(name.as_str(), "entry") {
                    match parse_entry(events, i + 1, warnings) {
                        Ok((rec, next)) => {
                            proof {
                                let e = e_run(evs, i as int + 1, e_init());
                                wacc = st.warns + e.warns;
                                assert(view_warnings(warnings@) =~= view_warnings(old(warnings)@)
                                    + wacc);
                                lemma_view_entries_push(entries@, rec);
                            }
                            entries.push(rec);
                            i = next;
                            proof {
                                let st2 = DState {
                                    entries: entries@.map(|j: int, y: Entry| y@),
                                    warns: wacc,
                                };
                                assert(d_run(evs, 0, d_init()) == d_run(evs, i as int, st2));
                            }
                            continue ;
                        },
                        Err(e) => {
                            proof {
                                let eo = e_run(evs, i as int + 1, e_init());
                                wacc = st.warns + eo.warns;
                                assert(view_warnings(warnings@) =~= view_warnings(old(warnings)@)
                                    + wacc);
                            }
                            return Err(e);
                        },
                    }
                }
            },
            XmlEvent::End { .. } => {},
            XmlEvent::Text { .. } => {},
        }
        i += 1;
        proof {
            let st2 = DState { entries: entries@.map(|j: int, y: Entry| y@), warns: wacc };
            assert(d_run(evs, i - 1, st) == d_run(evs, i as int, st2));
        }
    }
    Ok(entries)
}

/// Parses one whole document: turns the markup text into events and
/// scans them for entries, in document order.  The parse is fail-fast:
/// the first hard error anywhere aborts it with no partial results.
/// Every entry returned satisfies the whole-entry invariant; warnings
/// are only ever appended to the diagnostics list.
pub fn parse_document(input: &str, warnings: &mut Vec<Warning>) -> (res: Result<
    Vec<Entry>,
    ParseError,
>)
    ensures
        match res {
            Ok(es) => forall|j: int| 0 <= j < es@.len() ==> wf_entry(#[trigger] es@[j]@),
            Err(_) => true,
        },
        view_warnings(old(warnings)@).is_prefix_of(view_warnings(final(warnings)@)),
{
    proof {
        assert(view_warnings(warnings@).is_prefix_of(view_warnings(warnings@))) by {
            assert(view_warnings(warnings@).subrange(0, view_warnings(warnings@).len() as int)
                =~= view_warnings(warnings@));
        }
    }
    match crate::tokenize::tokenize(input) {
        Ok(events) => {
            let res = get_entries(&events, warnings);
            proof {
                let evs = view_events(events@);
                crate::laws::lemma_d_run_wf(evs, 0, d_init());
                let out = d_run(evs, 0, d_init());
                assert(view_warnings(old(warnings)@).is_prefix_of(view_warnings(warnings@))) by {
                    assert(view_warnings(warnings@).subrange(
                        0,
                        view_warnings(old(warnings)@).len() as int,
                    ) =~= view_warnings(old(warnings)@));
                }
                if res is Ok {
                    let es = res->Ok_0;
                    let ms = es@.map(|j2: int, y: Entry| y@);
                    assert(out.result == Ok::<Seq<EntryV>, crate::error::ErrorV>(ms));
                    assert(out.result->Ok_0 == ms);
                    assert(forall|j: int| 0 <= j < ms.len() ==> wf_entry(#[trigger] ms[j]));
                    assert forall|j: int| 0 <= j < es@.len() implies wf_entry(
                        #[trigger] es@[j]@,
                    ) by {
                        assert(ms[j] == es@[j]@);
                        assert(wf_entry(ms[j]));
                    }
                }
            }
            res
        },
        Err(e) => Err(e),
    }
}

} // verus!
