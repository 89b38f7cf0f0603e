//! The maintenance between two cycles of a worker: what to report of the
//! store's health and of the memory that the process holds.

use crate::text::{past_spaces, past_word, skip_spaces, skip_word};
use vstd::prelude::*;
use vstd::string::{StrSliceExecFns, StringExecFns};

verus! {

/// Where the second field of a text stands, the fields being what whitespace
/// separates; `None` where the text has fewer than two fields.
pub open spec fn second_field(s: Seq<char>) -> Option<(int, int)> {
    let first = skip_spaces(s, 0);
    if first >= s.len() {
        None
    } else {
        let second = skip_spaces(s, skip_word(s, first));
        if second >= s.len() {
            None
        } else {
            Some((second, skip_word(s, second)))
        }
    }
}

/// Whether the character is a decimal digit.
pub open spec fn is_digit(c: char) -> bool {
    '0' <= c <= '9'
}

/// The number that a run of decimal digits stands for.
pub open spec fn digits_value(s: Seq<char>) -> nat
    decreases s.len(),
{
    if s.len() == 0 {
        0
    } else {
        digits_value(s.drop_last()) * 10 + (s.last() as nat - 48) as nat
    }
}

/// The digits of an unsigned number: the field itself, or what follows its
/// plus sign.
pub open spec fn unsigned_body(field: Seq<char>) -> Seq<char> {
    if field.len() > 0 && field[0] == '+' {
        field.subrange(1, field.len() as int)
    } else {
        field
    }
}

/// The number that a field stands for: an optional plus sign, then at least
/// one digit and nothing but digits.
pub open spec fn parse_unsigned(field: Seq<char>) -> Option<nat> {
    let body = unsigned_body(field);
    if body.len() > 0 && (forall|i: int| 0 <= i < body.len() ==> is_digit(#[trigger] body[i])) {
        Some(digits_value(body))
    } else {
        None
    }
}

/// The resident size that a line of memory statistics reports: its second
/// field, read as a number that fits the machine word.
pub open spec fn memory_usage_of(statm: Seq<char>) -> Option<usize> {
    match second_field(statm) {
        None => None,
        Some((from, to)) => match parse_unsigned(statm.subrange(from, to)) {
            Some(v) => if v <= usize::MAX {
                Some(v as usize)
            } else {
                None
            },
            None => None,
        },
    }
}

/// A run of digits stands for at least as much as any of its beginnings.
pub proof fn lemma_digits_grow(s: Seq<char>, k: int)
    requires
        0 <= k <= s.len(),
    ensures
        digits_value(s.subrange(0, k)) <= digits_value(s),
    decreases s.len(),
{
    if k == s.len() {
        assert(s.subrange(0, k) =~= s);
    } else {
        lemma_digits_grow(s.drop_last(), k);
        assert(s.drop_last().subrange(0, k) =~= s.subrange(0, k));
    }
}

/// The number that the characters from `from` up to `to` stand for, where
/// they stand for one that fits the machine word.
fn parse_field(s: &str, from: usize, to: usize) -> (r: Option<usize>)
    requires
        from <= to <= s@.len(),
    ensures
        r == match parse_unsigned(s@.subrange(from as int, to as int)) {
            Some(v) => if v <= usize::MAX {
                Some(v as usize)
            } else {
                None
            },
            None => None,
        },
{
    let ghost field = s@.subrange(from as int, to as int);
    let start = if from < to && s.get_char(from) == '+' {
        from + 1
    } else {
        from
    };
    let ghost body = unsigned_body(field);
    assert(body =~= s@.subrange(start as int, to as int));
    if start == to {
        return None;
    }
    let mut acc: usize = 0;
    let mut i = start;
    assert(body.subrange(0, 0) =~= Seq::<char>::empty());
    while i < to
        invariant
            from <= start <= i <= to <= s@.len(),
            start < to,
            body == s@.subrange(start as int, to as int),
            body == unsigned_body(s@.subrange(from as int, to as int)),
            forall|j: int| 0 <= j < i - start ==> is_digit(#[trigger] body[j]),
            acc == digits_value(body.subrange(0, i - start)),
        decreases to - i,
    {
        let c = s.get_char(i);
        assert(c == body[i - start]);
        if !(c >= '0' && c <= '9') {
            assert(!is_digit(body[i - start]));
            return None;
        }
        let d: usize = (c as u32 - 48) as usize;
        let ghost grown = body.subrange(0, i - start + 1);
        proof {
            assert(grown.drop_last() =~= body.subrange(0, i - start));
            assert(grown.last() == c);
            lemma_digits_grow(body, i - start + 1);
        }
        if acc > (usize::MAX - d) / 10 {
            // the digits read so far stand for more than fits
            return None;
        }
        acc = acc * 10 + d;
        i = i + 1;
    }
    assert(body.subrange(0, to - start) =~= body);
    Some(acc)
}

/// Reads the resident size from a line of memory statistics: the second of
/// the fields that whitespace separates, as an unsigned number.
pub fn get_memory_usage(statm: &str) -> (r: Option<usize>)
    ensures
        r == memory_usage_of(statm@),
{
    let n = statm.unicode_len();
    let first = past_spaces(statm, n, 0);
    if first >= n {
        return None;
    }
    let first_end = past_word(statm, n, first);
    let second = past_spaces(statm, n, first_end);
    if second >= n {
        return None;
    }
    let second_end = past_word(statm, n, second);
    parse_field(statm, second, second_end)
}

/// What the maintenance between two cycles reports.
#[derive(Debug, PartialEq, Eq)]
pub struct CleanupReport {
    /// The warning to log where the store did not answer the health query.
    pub health_warning: Option<String>,
    /// The resident memory in the unit that is logged, where it could be read.
    pub resident_mb: Option<usize>,
}

/// The text of the warning for a failed health query.
pub open spec fn health_warning_text(why: Seq<char>) -> Seq<char> {
    "Database connection health check failed: "@ + why
}

/// Decides what the maintenance between two cycles reports, from the outcome
/// of the health query against the store and from the line of memory
/// statistics, where one could be read. A failed health query is a warning,
/// not an error; the resident size is reported divided by 1024 twice.
pub fn between_cycles_cleanup(health: Result<(), String>, statm: Option<&str>) -> (r: CleanupReport)
    ensures
        match health {
            Ok(_) => r.health_warning is None,
            Err(why) => r.health_warning matches Some(w) && w@ == health_warning_text(why@),
        },
        r.resident_mb == match statm {
            None => None,
            Some(text) => match memory_usage_of(text@) {
                None => None,
                Some(usage) => Some((usage / 1024 / 1024) as usize),
            },
        },
{
    let health_warning = match health {
        Ok(_) => None,
        Err(why) => Some(
            String::from_str("Database connection health check failed: ").concat(why.as_str()),
        ),
    };
    let resident_mb = match statm {
        None => None,
        Some(text) => match get_memory_usage(text) {
            None => None,
            Some(usage) => Some(usage / 1024 / 1024),
        },
    };
    CleanupReport { health_warning, resident_mb }
}

} // verus!
