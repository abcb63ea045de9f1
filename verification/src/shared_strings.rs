//! The shared-string extractor: one entry per string-table item, with the
//! text of all rich-text runs concatenated in document order.

use vstd::prelude::*;
use vstd::string::StringExecFns;
use crate::events::{EventView, XmlEvent};
use crate::strutil::str_eq;
use crate::xml::{tokenize, tokens_of};

verus! {

/// Scan state: the entries so far, the two scope markers, and the
/// text-accumulation buffer.
pub struct SharedStringsState {
    pub strings: Seq<Seq<char>>,
    pub in_si: bool,
    pub in_t: bool,
    pub buf: Seq<char>,
}

pub open spec fn ss_init() -> SharedStringsState {
    SharedStringsState {
        strings: Seq::empty(),
        in_si: false,
        in_t: false,
        buf: Seq::empty(),
    }
}

/// One step of the scan. Opening an `si` entry clears the buffer; a `t`
/// opened inside the entry starts accumulation; character data accumulates
/// while a `t` scope is active; closing the entry pushes the buffer as one
/// string. Only true opening tags count: a self-closing element neither
/// starts an entry nor starts accumulation.
pub open spec fn ss_step(st: SharedStringsState, ev: EventView) -> SharedStringsState {
    match ev {
        EventView::Open { name, attrs } => {
            if name == "si"@ {
                SharedStringsState { in_si: true, buf: Seq::empty(), ..st }
            } else if name == "t"@ && st.in_si {
                SharedStringsState { in_t: true, ..st }
            } else {
                st
            }
        },
        EventView::Close { name } => {
            if name == "si"@ {
                SharedStringsState { in_si: false, strings: st.strings.push(st.buf), ..st }
            } else if name == "t"@ {
                SharedStringsState { in_t: false, ..st }
            } else {
                st
            }
        },
        EventView::Text { content } => {
            if st.in_t {
                SharedStringsState { buf: st.buf + content, ..st }
            } else {
                st
            }
        },
        _ => st,
    }
}

pub open spec fn ss_scan(events: Seq<EventView>) -> SharedStringsState
    decreases events.len(),
{
    if events.len() == 0 {
        ss_init()
    } else {
        ss_step(ss_scan(events.drop_last()), events.last())
    }
}

/// What shared-string extraction yields on an event sequence.
pub open spec fn spec_extract_shared_strings(events: Seq<EventView>) -> Seq<Seq<char>> {
    ss_scan(events).strings
}

/// Extracts the string-table entries from an event sequence.
pub fn extract_shared_strings(events: &Vec<XmlEvent>) -> (strings: Vec<String>)
    ensures
        strings.deep_view() == spec_extract_shared_strings(events.deep_view()),
{
    let mut strings: Vec<String> = Vec::new();
    let mut in_si = false;
    let mut in_t = false;
    let mut buf = String::new();
    let mut i: usize = 0;
    proof {
        assert(events.deep_view().take(0) =~= Seq::<EventView>::empty());
        assert(strings.deep_view() =~= Seq::<Seq<char>>::empty());
    }
    while i < events.len()
        invariant
            i <= events.len(),
            events.deep_view().len() == events.len(),
            strings.deep_view() == ss_scan(events.deep_view().take(i as int)).strings,
            in_si == ss_scan(events.deep_view().take(i as int)).in_si,
            in_t == ss_scan(events.deep_view().take(i as int)).in_t,
            buf@ == ss_scan(events.deep_view().take(i as int)).buf,
        decreases events.len() - i,
    {
        proof {
            assert(events.deep_view().take(i + 1).drop_last() =~= events.deep_view().take(
                i as int,
            ));
            assert(events.deep_view().take(i + 1).last() == events.deep_view()[i as int]);
            assert(events.deep_view()[i as int] == events[i as int].deep_view());
        }
        let ev = &events[i];
        match ev {
            XmlEvent::Open { name, .. } => {
                if str_eq(name.as_str(), "si") {
                    in_si = true;
                    buf = String::new();
                } else if in_si && str_eq(name.as_str(), "t") {
                    in_t = true;
                }
            },
            XmlEvent::Close { name } => {
                if str_eq(name.as_str(), "si") {
                    in_si = false;
                    strings.push(buf.clone());
                    proof {
                        assert(strings.deep_view() =~= ss_scan(
                            events.deep_view().take(i + 1),
                        ).strings);
                    }
                } else if str_eq(name.as_str(), "t") {
                    in_t = false;
                }
            },
            XmlEvent::Text { content } => {
                if in_t {
                    buf.append(content.as_str());
                }
            },
            _ => {},
        }
        i = i + 1;
    }
    proof {
        assert(events.deep_view().take(events.len() as int) =~= events.deep_view());
    }
    strings
}

/// The scan continued from a given state.
pub open spec fn ss_fold(st: SharedStringsState, events: Seq<EventView>) -> SharedStringsState
    decreases events.len(),
{
    if events.len() == 0 {
        st
    } else {
        ss_step(ss_fold(st, events.drop_last()), events.last())
    }
}

/// Scanning a concatenation is scanning the first part, then folding the
/// second over its result.
pub proof fn lemma_ss_scan_append(a: Seq<EventView>, b: Seq<EventView>)
    ensures
        ss_scan(a + b) == ss_fold(ss_scan(a), b),
    decreases b.len(),
{
    if b.len() == 0 {
        assert(a + b =~= a);
    } else {
        lemma_ss_scan_append(a, b.drop_last());
        assert((a + b).drop_last() =~= a + b.drop_last());
        assert((a + b).last() == b.last());
    }
}

/// The events of one rich-text run: a `t` element wrapping one text event.
pub open spec fn run_triple(r: Seq<char>) -> Seq<EventView> {
    seq![
        EventView::Open { name: "t"@, attrs: Seq::empty() },
        EventView::Text { content: r },
        EventView::Close { name: "t"@ },
    ]
}

/// The events of a sequence of rich-text runs, in document order.
pub open spec fn run_events(runs: Seq<Seq<char>>) -> Seq<EventView>
    decreases runs.len(),
{
    if runs.len() == 0 {
        Seq::empty()
    } else {
        run_events(runs.drop_last()) + run_triple(runs.last())
    }
}

/// The concatenation of a sequence of rich-text runs, in document order.
pub open spec fn concat_runs(runs: Seq<Seq<char>>) -> Seq<char>
    decreases runs.len(),
{
    if runs.len() == 0 {
        Seq::empty()
    } else {
        concat_runs(runs.drop_last()) + runs.last()
    }
}

proof fn lemma_fold_runs(st: SharedStringsState, runs: Seq<Seq<char>>)
    requires
        st.in_si,
    ensures
        ss_fold(st, run_events(runs)).strings == st.strings,
        ss_fold(st, run_events(runs)).in_si,
        ss_fold(st, run_events(runs)).buf == st.buf + concat_runs(runs),
    decreases runs.len(),
{
    broadcast use vstd::string::group_string_axioms;

    reveal_with_fuel(ss_fold, 5);
    reveal_strlit("si");
    reveal_strlit("t");
    assert("si"@.len() == 2);
    assert("t"@.len() == 1);
    if runs.len() == 0 {
        assert(st.buf + concat_runs(runs) =~= st.buf);
    } else {
        lemma_fold_runs(st, runs.drop_last());
        let mid = ss_fold(st, run_events(runs.drop_last()));
        let tr = run_triple(runs.last());
        assert(ss_fold(st, run_events(runs)) == ss_fold(mid, tr)) by {
            lemma_ss_fold_append(st, run_events(runs.drop_last()), tr);
        }
        let e0 = EventView::Open { name: "t"@, attrs: Seq::empty() };
        let e1 = EventView::Text { content: runs.last() };
        let e2 = EventView::Close { name: "t"@ };
        assert(tr.drop_last() =~= seq![e0, e1]);
        assert(tr.drop_last().drop_last() =~= seq![e0]);
        assert(seq![e0].drop_last() =~= Seq::<EventView>::empty());
        assert(tr.last() == e2 && tr.drop_last().last() == e1 && seq![e0].last() == e0);
        let s1 = ss_step(mid, e0);
        let s2 = ss_step(s1, e1);
        let s3 = ss_step(s2, e2);
        assert(ss_fold(mid, tr) == s3);
        assert("t"@ != "si"@);
        assert(s1.in_t && s1.in_si && s1.strings == mid.strings && s1.buf == mid.buf);
        assert(s2.buf == mid.buf + runs.last() && s2.strings == mid.strings && s2.in_si);
        assert(s3.strings == mid.strings && s3.in_si && s3.buf == s2.buf);
        assert(st.buf + concat_runs(runs.drop_last()) + runs.last() =~= st.buf + concat_runs(
            runs,
        ));
    }
}

/// Folding a concatenation from a state splits in the same way.
proof fn lemma_ss_fold_append(st: SharedStringsState, a: Seq<EventView>, b: Seq<EventView>)
    ensures
        ss_fold(st, a + b) == ss_fold(ss_fold(st, a), b),
    decreases b.len(),
{
    if b.len() == 0 {
        assert(a + b =~= a);
    } else {
        lemma_ss_fold_append(st, a, b.drop_last());
        assert((a + b).drop_last() =~= a + b.drop_last());
        assert((a + b).last() == b.last());
    }
}

/// A string-table entry whose value is split across rich-text runs equals
/// the concatenation of the runs' text in document order: after any already
/// scanned events, one string item wrapping those runs pushes exactly their
/// concatenation as one entry.
pub proof fn lemma_shared_string_runs(prefix: Seq<EventView>, runs: Seq<Seq<char>>)
    ensures
        ss_scan(
            prefix + seq![EventView::Open { name: "si"@, attrs: Seq::empty() }] + run_events(runs)
                + seq![EventView::Close { name: "si"@ }],
        ).strings == ss_scan(prefix).strings.push(concat_runs(runs)),
{
    broadcast use vstd::string::group_string_axioms;

    reveal_with_fuel(ss_fold, 3);
    reveal_strlit("si");
    reveal_strlit("t");
    assert("si"@.len() == 2);
    let eo = EventView::Open { name: "si"@, attrs: Seq::empty() };
    let ec = EventView::Close { name: "si"@ };
    let open_si = seq![eo];
    let close_si = seq![ec];
    let st0 = ss_scan(prefix);
    lemma_ss_scan_append(prefix, open_si);
    assert(open_si.drop_last() =~= Seq::<EventView>::empty());
    assert(open_si.last() == eo);
    let st1 = ss_fold(st0, open_si);
    assert(st1 == ss_step(st0, eo));
    assert(st1.in_si && st1.buf == Seq::<char>::empty() && st1.strings == st0.strings);
    lemma_fold_runs(st1, runs);
    let st2 = ss_fold(st1, run_events(runs));
    assert(st2.buf =~= concat_runs(runs));
    lemma_ss_scan_append(prefix + open_si, run_events(runs));
    assert(ss_scan(prefix + open_si) == st1);
    assert(ss_scan((prefix + open_si) + run_events(runs)) == st2);
    assert(prefix + open_si + run_events(runs) =~= (prefix + open_si) + run_events(runs));
    assert(ss_scan(prefix + open_si + run_events(runs)) == st2);
    lemma_ss_scan_append(prefix + open_si + run_events(runs), close_si);
    assert(close_si.drop_last() =~= Seq::<EventView>::empty());
    assert(close_si.last() == ec);
    let whole = prefix + open_si + run_events(runs) + close_si;
    assert(ss_scan(whole) == ss_step(st2, ec));
    assert(ss_scan(whole).strings == st2.strings.push(st2.buf));
    assert(st2.strings.push(st2.buf) =~= st0.strings.push(concat_runs(runs)));
}

proof fn lemma_ss_step_keeps_strings(st: SharedStringsState, ev: EventView)
    ensures
        st.strings.is_prefix_of(ss_step(st, ev).strings),
{
    let after = ss_step(st, ev).strings;
    assert(after == st.strings || after == st.strings.push(st.buf));
    assert(st.strings =~= after.subrange(0, st.strings.len() as int));
}

/// Entries survive truncation: scanning any front part of the event
/// sequence yields a prefix of the full scan's entries — an entry fully
/// closed before a truncation point is kept, in order.
pub proof fn lemma_shared_strings_truncation(evs: Seq<EventView>, i: int)
    requires
        0 <= i <= evs.len(),
    ensures
        ss_scan(evs.take(i)).strings.is_prefix_of(ss_scan(evs).strings),
    decreases evs.len() - i,
{
    if i == evs.len() {
        assert(evs.take(i) =~= evs);
        let r = ss_scan(evs).strings;
        assert(r =~= r.subrange(0, r.len() as int));
    } else {
        lemma_shared_strings_truncation(evs.drop_last(), i);
        assert(evs.drop_last().take(i) =~= evs.take(i));
        lemma_ss_step_keeps_strings(ss_scan(evs.drop_last()), evs.last());
        let a = ss_scan(evs.take(i)).strings;
        let b = ss_scan(evs.drop_last()).strings;
        let c = ss_scan(evs).strings;
        assert(a =~= b.subrange(0, a.len() as int));
        assert(b =~= c.subrange(0, b.len() as int));
        assert(a =~= c.subrange(0, a.len() as int));
    }
}

/// Extracts the shared-string table of one document: one entry per string
/// item, rich-text runs concatenated in document order. Character data is
/// kept verbatim, without whitespace trimming, because table entries are
/// used as cell display text.
pub fn parse_shared_strings(xml: &str) -> (strings: Vec<String>)
    ensures
        strings.deep_view() == spec_extract_shared_strings(tokens_of(xml@, false)),
{
    let events = tokenize(xml, false);
    extract_shared_strings(&events)
}

} // verus!
