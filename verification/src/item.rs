//! The completed-item record and its canonical text form.
//!
//! A record is one instant plus a free-text label. Its canonical line is
//! `[<instant>] <label>`: the instant rendered as RFC 3339 between the
//! bracket and the `] ` separator, the label unmodified after it. Parsing
//! splits at the first `] ` of the line, so a label may itself contain
//! brackets; serializing keeps the round trip exact, which
//! [`CompletedItem::serialize`] states in its contract.

use vstd::prelude::*;

use crate::instant::instant_of;
use crate::instant::rfc3339_render;
use crate::instant::Instant;

verus! {

/// Why a line failed to parse: it lacks the `[...] ` structure, or the
/// bracketed text is not a valid in-range instant.
#[derive(Clone, Copy, PartialEq, Eq, Structural, Debug)]
pub enum ParseError {
    /// The line does not have the `[...] ` shape.
    FormatError,
    /// The bracketed text is not a valid instant.
    TimestampError,
}

/// One completed piece of work: when it was completed, and its label.
#[derive(Clone, Debug)]
pub struct CompletedItem {
    /// The instant the work was completed.
    pub completed: Instant,
    /// The free-text label of the work.
    pub item: String,
}

impl PartialEq for CompletedItem {
    fn eq(&self, other: &CompletedItem) -> (r: bool) {
        self.completed == other.completed && self.item == other.item
    }
}

impl vstd::std_specs::cmp::PartialEqSpecImpl for CompletedItem {
    open spec fn obeys_eq_spec() -> bool {
        true
    }

    open spec fn eq_spec(&self, other: &CompletedItem) -> bool {
        self.completed == other.completed && self.item@ == other.item@
    }
}

/// Position `i` starts the `] ` separator of `line`.
pub open spec fn is_sep(line: Seq<char>, i: int) -> bool {
    &&& 0 <= i
    &&& i + 1 < line.len()
    &&& line[i] == ']'
    &&& line[i + 1] == ' '
}

/// The first separator position at or after `k`, or `-1` where none is.
pub open spec fn first_sep_from(line: Seq<char>, k: int) -> int
    decreases line.len() - k,
{
    if k + 1 >= line.len() {
        -1
    } else if is_sep(line, k) {
        k
    } else {
        first_sep_from(line, k + 1)
    }
}

/// The first separator position after the opening bracket, or `-1`.
pub open spec fn first_sep(line: Seq<char>) -> int {
    first_sep_from(line, 1)
}

/// What parsing a line yields: the instant's seconds and nanoseconds and
/// the label, or the error. The bracketed instant runs to the first `] `
/// of the line; everything after that separator is the label, unmodified.
pub open spec fn parse_spec(line: Seq<char>) -> Result<(int, int, Seq<char>), ParseError> {
    if line.len() == 0 || line[0] != '[' {
        Err(ParseError::FormatError)
    } else if first_sep(line) < 0 {
        Err(ParseError::FormatError)
    } else {
        let i = first_sep(line);
        match instant_of(line.subrange(1, i)) {
            Some(p) => Ok((p.0, p.1, line.subrange(i + 2, line.len() as int))),
            None => Err(ParseError::TimestampError),
        }
    }
}

/// The canonical line for an instant and a label.
pub open spec fn canonical_line(secs: int, nanos: int, label: Seq<char>) -> Seq<char> {
    seq!['['] + rfc3339_render(secs, nanos) + seq![']', ' '] + label
}

pub proof fn lemma_first_sep_found(line: Seq<char>, k: int, i: int)
    requires
        0 < k <= i,
        is_sep(line, i),
        forall|j: int| k <= j < i ==> !is_sep(line, j),
    ensures
        first_sep_from(line, k) == i,
    decreases i - k,
{
    if k < i {
        lemma_first_sep_found(line, k + 1, i);
    }
}

pub proof fn lemma_first_sep_none(line: Seq<char>, k: int)
    requires
        forall|j: int| k <= j ==> !is_sep(line, j),
    ensures
        first_sep_from(line, k) == -1,
    decreases line.len() - k,
{
    if k + 1 < line.len() {
        lemma_first_sep_none(line, k + 1);
    }
}

impl CompletedItem {
    /// The record as plain mathematical values: epoch seconds,
    /// nanoseconds, and the label's characters.
    pub open spec fn model(self) -> (int, int, Seq<char>) {
        (self.completed.secs as int, self.completed.nanos as int, self.item@)
    }

    /// The record can go to the append-only log: its instant is in range
    /// and its label holds no line break, so it fits on one line.
    pub open spec fn log_safe(self) -> bool {
        &&& self.completed.valid()
        &&& forall|i: int| 0 <= i < self.item@.len() ==> self.item@[i] != '\n'
    }

    /// A record completed at the given instant, or now when none is given.
    pub fn new(item: String, completed_on: Option<Instant>) -> (r: CompletedItem)
        ensures
            r.item == item,
            match completed_on {
                Some(t) => r.completed == t,
                None => r.completed.valid(),
            },
    {
        let completed = match completed_on {
            Some(t) => t,
            None => Instant::now(),
        };
        CompletedItem { completed, item }
    }

    /// A record completed now.
    pub fn now(item: String) -> (r: CompletedItem)
        ensures
            r.item == item,
            r.completed.valid(),
    {
        CompletedItem::new(item, None)
    }

    /// Whether the record can go to the log: see [`Self::log_safe`].
    pub fn is_log_safe(&self) -> (r: bool)
        ensures
            r == self.log_safe(),
    {
        if !self.completed.is_in_range() {
            return false;
        }
        let len = self.item.as_str().unicode_len();
        let mut k: usize = 0;
        while k < len
            invariant
                len == self.item@.len(),
                k <= len,
                forall|j: int| 0 <= j < k ==> self.item@[j] != '\n',
            decreases len - k,
        {
            if self.item.as_str().get_char(k) == '\n' {
                return false;
            }
            k = k + 1;
        }
        true
    }

    /// The canonical line of the record.
    ///
    /// The contract carries the round-trip law: parsing the produced line
    /// gives back exactly this record's instant and label, and a label
    /// without line breaks yields a line without them.
    pub fn serialize(&self) -> (line: String)
        requires
            self.completed.valid(),
        ensures
            line@ == canonical_line(
                self.completed.secs as int,
                self.completed.nanos as int,
                self.item@,
            ),
            parse_spec(line@) == Ok::<_, ParseError>(self.model()),
            (forall|i: int| 0 <= i < self.item@.len() ==> self.item@[i] != '\n') ==> (forall|
                i: int,
            | 0 <= i < line@.len() ==> line@[i] != '\n'),
    {
        let ts = self.completed.to_rfc3339();
        let mut line = String::new();
        line.append("[");
        line.append(ts.as_str());
        line.append("] ");
        line.append(self.item.as_str());
        proof {
            reveal_strlit("[");
            reveal_strlit("] ");
            assert("["@ =~= seq!['[']);
            assert("] "@ =~= seq![']', ' ']);
            let secs = self.completed.secs as int;
            let nanos = self.completed.nanos as int;
            assert(line@ =~= canonical_line(secs, nanos, self.item@));
            let i = 1 + ts@.len() as int;
            assert(is_sep(line@, i));
            assert(forall|j: int| 1 <= j < i ==> line@[j] == ts@[j - 1] && !is_sep(line@, j));
            lemma_first_sep_found(line@, 1, i);
            assert(line@.subrange(1, i) =~= ts@);
            assert(instant_of(line@.subrange(1, i)) == Some((secs, nanos)));
            assert(line@.subrange(i + 2, line@.len() as int) =~= self.item@);
        }
        line
    }

    /// Parses a canonical line back into a record.
    ///
    /// The result is exactly what [`parse_spec`] states of the line:
    /// `FormatError` where the `[...] ` shape is missing, `TimestampError`
    /// where the bracketed text is not a valid in-range instant, and
    /// otherwise the record whose line it is.
    pub fn try_parse(done_item: &str) -> (r: Result<CompletedItem, ParseError>)
        ensures
            match (r, parse_spec(done_item@)) {
                (Ok(it), Ok(m)) => it.model() == m && it.completed.valid(),
                (Err(e), Err(me)) => e == me,
                _ => false,
            },
    {
        let len = done_item.unicode_len();
        proof {
            reveal_strlit("[");
        }
        if len == 0 || done_item.get_char(0) != '[' {
            return Err(ParseError::FormatError);
        }
        let mut k: usize = 1;
        loop
            invariant
                len == done_item@.len(),
                1 <= k <= len,
                done_item@[0] == '[',
                forall|j: int| 1 <= j < k ==> !is_sep(done_item@, j),
            decreases len - k,
        {
            if k >= len - 1 {
                proof {
                    assert(forall|j: int| 1 <= j ==> !is_sep(done_item@, j));
                    lemma_first_sep_none(done_item@, 1);
                }
                return Err(ParseError::FormatError);
            }
            if done_item.get_char(k) == ']' && done_item.get_char(k + 1) == ' ' {
                proof {
                    lemma_first_sep_found(done_item@, 1, k as int);
                }
                let ts = done_item.substring_char(1, k);
                let label = done_item.substring_char(k + 2, len);
                match Instant::parse_rfc3339(ts) {
                    Some(completed) => {
                        let it = CompletedItem { completed, item: label.to_owned() };
                        proof {
                            assert(first_sep(done_item@) == k as int);
                            assert(instant_of(done_item@.subrange(1, k as int)) == Some(
                                (completed.secs as int, completed.nanos as int),
                            ));
                            assert(it.model().2 =~= done_item@.subrange(
                                k + 2,
                                done_item@.len() as int,
                            ));
                            assert(parse_spec(done_item@) == Ok::<_, ParseError>(it.model()));
                        }
                        return Ok(it);
                    },
                    None => {
                        return Err(ParseError::TimestampError);
                    },
                }
            }
            k = k + 1;
        }
    }
}

} // verus!
