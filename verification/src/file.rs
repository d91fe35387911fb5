//! The append-only log store, as pure functions over its lines.
//!
//! The log is a text file with one canonical line per record, appended in
//! `save` order and never rewritten. The file handling itself is the
//! caller's: `save` here produces the lines to append, and `get` reads a
//! query's answer out of the lines read back. Reading is best-effort — a
//! line that does not parse is skipped, never an error — and keeps file
//! order; writing is all-or-nothing at the caller's side.

use vstd::prelude::*;

use crate::instant::Instant;
use crate::item::canonical_line;
use crate::item::parse_spec;
use crate::item::CompletedItem;

verus! {

/// The views of a sequence of lines.
pub open spec fn views_of(lines: Seq<String>) -> Seq<Seq<char>> {
    lines.map_values(|s: String| s@)
}

/// The record models of a sequence of records.
pub open spec fn models_of(items: Seq<CompletedItem>) -> Seq<(int, int, Seq<char>)> {
    items.map_values(|it: CompletedItem| it.model())
}

/// A record model completed strictly after the instant `(ss, sn)`.
pub open spec fn model_after(m: (int, int, Seq<char>), ss: int, sn: int) -> bool {
    m.0 > ss || (m.0 == ss && m.1 > sn)
}

/// The line parses and its record survives the cutoff `(ss, sn)`.
pub open spec fn keep_line(line: Seq<char>, ss: int, sn: int) -> bool {
    &&& parse_spec(line) is Ok
    &&& model_after(parse_spec(line)->Ok_0, ss, sn)
}

/// What a read of the log answers: the records of the lines that parse
/// and lie strictly after the cutoff, in line order.
pub open spec fn survivors(lines: Seq<Seq<char>>, ss: int, sn: int) -> Seq<(int, int, Seq<char>)>
    decreases lines.len(),
{
    if lines.len() == 0 {
        Seq::empty()
    } else {
        survivors(lines.drop_last(), ss, sn) + (if keep_line(lines.last(), ss, sn) {
            seq![parse_spec(lines.last())->Ok_0]
        } else {
            Seq::empty()
        })
    }
}

/// Reads a query's answer out of the log's lines: every line that parses
/// and whose instant is strictly after `completed_since`, in line order;
/// lines that do not parse are silently skipped.
pub fn get(lines: &Vec<String>, completed_since: &Instant) -> (items: Vec<CompletedItem>)
    ensures
        models_of(items@) == survivors(
            views_of(lines@),
            completed_since.secs as int,
            completed_since.nanos as int,
        ),
        forall|i: int| 0 <= i < items@.len() ==> (#[trigger] items@[i]).completed.valid(),
{
    let ghost ss = completed_since.secs as int;
    let ghost sn = completed_since.nanos as int;
    let mut items: Vec<CompletedItem> = Vec::new();
    let mut idx: usize = 0;
    while idx < lines.len()
        invariant
            idx <= lines@.len(),
            models_of(items@) == survivors(views_of(lines@).take(idx as int), ss, sn),
            ss == completed_since.secs as int,
            sn == completed_since.nanos as int,
            forall|i: int| 0 <= i < items@.len() ==> (#[trigger] items@[i]).completed.valid(),
        decreases lines@.len() - idx,
    {
        let ghost pre = items@;
        let ghost taken = views_of(lines@).take(idx as int);
        let ghost line = lines@[idx as int]@;
        match CompletedItem::try_parse(lines[idx].as_str()) {
            Ok(it) => {
                if it.completed.after(completed_since) {
                    items.push(it);
                }
            },
            Err(_) => {},
        }
        proof {
            let next = views_of(lines@).take(idx + 1);
            assert(next.drop_last() =~= taken);
            assert(next.last() == line);
            if keep_line(line, ss, sn) {
                assert(models_of(items@) =~= models_of(pre) + seq![parse_spec(line)->Ok_0]);
            } else {
                assert(models_of(items@) =~= models_of(pre));
            }
            assert(models_of(items@) =~= survivors(next, ss, sn));
        }
        idx = idx + 1;
    }
    proof {
        assert(views_of(lines@).take(lines@.len() as int) =~= views_of(lines@));
    }
    items
}

/// Produces the lines that a `save` appends to the log, one canonical
/// line per record, in the order given. Each line parses back to exactly
/// its record and holds no line break.
pub fn save(completed_items: &Vec<CompletedItem>) -> (lines: Vec<String>)
    requires
        forall|i: int|
            0 <= i < completed_items@.len() ==> (#[trigger] completed_items@[i]).log_safe(),
    ensures
        lines@.len() == completed_items@.len(),
        forall|i: int|
            0 <= i < lines@.len() ==> (#[trigger] lines@[i])@ == canonical_line(
                completed_items@[i].completed.secs as int,
                completed_items@[i].completed.nanos as int,
                completed_items@[i].item@,
            ),
        forall|i: int|
            0 <= i < lines@.len() ==> parse_spec((#[trigger] lines@[i])@) == Ok::<
                _,
                crate::item::ParseError,
            >(completed_items@[i].model()),
        forall|i: int, j: int|
            0 <= i < lines@.len() && 0 <= j < lines@[i]@.len() ==> #[trigger] lines@[i]@[j]
                != '\n',
{
    let mut lines: Vec<String> = Vec::new();
    let mut idx: usize = 0;
    while idx < completed_items.len()
        invariant
            idx <= completed_items@.len(),
            lines@.len() == idx,
            forall|i: int|
                0 <= i < completed_items@.len() ==> (#[trigger] completed_items@[i]).log_safe(),
            forall|i: int|
                0 <= i < idx ==> (#[trigger] lines@[i])@ == canonical_line(
                    completed_items@[i].completed.secs as int,
                    completed_items@[i].completed.nanos as int,
                    completed_items@[i].item@,
                ),
            forall|i: int|
                0 <= i < idx ==> parse_spec((#[trigger] lines@[i])@) == Ok::<
                    _,
                    crate::item::ParseError,
                >(completed_items@[i].model()),
            forall|i: int, j: int|
                0 <= i < idx && 0 <= j < lines@[i]@.len() ==> #[trigger] lines@[i]@[j] != '\n',
        decreases completed_items@.len() - idx,
    {
        let line = completed_items[idx].serialize();
        lines.push(line);
        idx = idx + 1;
    }
    lines
}

/// Filter correctness of a log read: a record model is among the
/// survivors of some lines exactly when one of the lines parses to it and
/// it lies strictly after the cutoff.
pub proof fn lemma_filter_exact(lines: Seq<Seq<char>>, ss: int, sn: int, m: (int, int, Seq<char>))
    ensures
        survivors(lines, ss, sn).contains(m) <==> exists|j: int|
            0 <= j < lines.len() && parse_spec(#[trigger] lines[j]) == Ok::<
                _,
                crate::item::ParseError,
            >(m) && model_after(m, ss, sn),
    decreases lines.len(),
{
    if lines.len() == 0 {
    } else {
        let prefix = lines.drop_last();
        lemma_filter_exact(prefix, ss, sn, m);
        let s = survivors(lines, ss, sn);
        let sp = survivors(prefix, ss, sn);
        if s.contains(m) {
            let i = choose|i: int| 0 <= i < s.len() && s[i] == m;
            if i < sp.len() {
                assert(sp.contains(m));
                let j = choose|j: int|
                    0 <= j < prefix.len() && parse_spec(#[trigger] prefix[j]) == Ok::<
                        _,
                        crate::item::ParseError,
                    >(m) && model_after(m, ss, sn);
                assert(prefix[j] == lines[j]);
            } else {
                assert(keep_line(lines.last(), ss, sn) && m == parse_spec(lines.last())->Ok_0);
                assert(lines[lines.len() - 1] == lines.last());
            }
        }
        if exists|j: int|
            0 <= j < lines.len() && parse_spec(#[trigger] lines[j]) == Ok::<
                _,
                crate::item::ParseError,
            >(m) && model_after(m, ss, sn) {
            let j = choose|j: int|
                0 <= j < lines.len() && parse_spec(#[trigger] lines[j]) == Ok::<
                    _,
                    crate::item::ParseError,
                >(m) && model_after(m, ss, sn);
            if j < lines.len() - 1 {
                assert(prefix[j] == lines[j]);
                assert(sp.contains(m));
                let i = choose|i: int| 0 <= i < sp.len() && sp[i] == m;
                assert(s[i] == m);
            } else {
                assert(keep_line(lines.last(), ss, sn));
                assert(s[s.len() - 1] == m);
            }
        }
    }
}

/// Resilience of a log read: a line that does not parse contributes
/// nothing — dropping it from the log leaves a read's answer unchanged.
pub proof fn lemma_malformed_line_skipped(lines: Seq<Seq<char>>, k: int, ss: int, sn: int)
    requires
        0 <= k < lines.len(),
        parse_spec(lines[k]) is Err,
    ensures
        survivors(lines, ss, sn) == survivors(lines.remove(k), ss, sn),
    decreases lines.len(),
{
    if k == lines.len() - 1 {
        assert(lines.remove(k) =~= lines.drop_last());
    } else {
        let prefix = lines.drop_last();
        lemma_malformed_line_skipped(prefix, k, ss, sn);
        assert(lines.remove(k).drop_last() =~= prefix.remove(k));
        assert(lines.remove(k).last() == lines.last());
        assert(survivors(lines.remove(k), ss, sn) == survivors(lines, ss, sn));
    }
}

/// A saved batch reads back whole and in order: where lines parse to the
/// given record models — as the lines of a `save` do, by its contract —
/// and every record lies strictly after the cutoff, a read of those lines
/// answers exactly those models, in save order.
pub proof fn lemma_saved_batch_reads_back(
    lines: Seq<Seq<char>>,
    models: Seq<(int, int, Seq<char>)>,
    ss: int,
    sn: int,
)
    requires
        lines.len() == models.len(),
        forall|i: int|
            0 <= i < lines.len() ==> parse_spec(#[trigger] lines[i]) == Ok::<
                _,
                crate::item::ParseError,
            >(models[i]),
        forall|i: int| 0 <= i < models.len() ==> model_after(#[trigger] models[i], ss, sn),
    ensures
        survivors(lines, ss, sn) == models,
{
    lemma_all_kept_in_order(lines, ss, sn);
    assert forall|j: int| 0 <= j < models.len() implies survivors(lines, ss, sn)[j] == models[j] by {
        assert(parse_spec(lines[j]) == Ok::<_, crate::item::ParseError>(models[j]));
    }
    assert(survivors(lines, ss, sn) =~= models);
}

/// Ordering of a log read: where every line parses and survives the
/// cutoff, the answer is exactly the lines' records, in line order.
pub proof fn lemma_all_kept_in_order(lines: Seq<Seq<char>>, ss: int, sn: int)
    requires
        forall|j: int| 0 <= j < lines.len() ==> keep_line(#[trigger] lines[j], ss, sn),
    ensures
        survivors(lines, ss, sn).len() == lines.len(),
        forall|j: int|
            0 <= j < lines.len() ==> survivors(lines, ss, sn)[j] == parse_spec(
                #[trigger] lines[j],
            )->Ok_0,
    decreases lines.len(),
{
    if lines.len() > 0 {
        let prefix = lines.drop_last();
        assert(forall|j: int| 0 <= j < prefix.len() ==> prefix[j] == lines[j]);
        lemma_all_kept_in_order(prefix, ss, sn);
        assert(lines[lines.len() - 1] == lines.last());
    }
}

} // verus!
