//! Parsing of the sandbox uid range argument, given as `LOW:HIGH`.
use vstd::prelude::*;

use crate::text::{parse_u32, spec_parse_uint};

verus! {

/// Why an id range did not parse.
#[derive(Clone, Copy, Debug, PartialEq, Eq, Structural)]
pub enum ParseIdRangeError {
    /// The string must contain exactly one colon.
    UnexpectedColonCount,
    /// A bound was not a number in range.
    BadNumber,
    /// The low bound must be less than the high bound.
    BadRange,
}

/// A half-open range of user and group ids handed to the backend.
#[derive(Clone, Copy, Debug, PartialEq, Eq, Structural)]
pub struct IdRange {
    pub low: u32,
    pub high: u32,
}

/// How many colons the string holds.
pub open spec fn spec_colon_count(s: Seq<char>) -> nat
    decreases s.len(),
{
    if s.len() == 0 {
        0
    } else {
        spec_colon_count(s.drop_last()) + (if s.last() == ':' {
            1nat
        } else {
            0nat
        })
    }
}

/// The index of the first colon.
pub open spec fn spec_colon_at(s: Seq<char>) -> int {
    choose|i: int| 0 <= i < s.len() && s[i] == ':'
}

/// What parsing `LOW:HIGH` yields: exactly one colon, two numbers, low
/// strictly below high.
pub open spec fn spec_parse_id_range(s: Seq<char>) -> Result<IdRange, ParseIdRangeError> {
    if spec_colon_count(s) != 1 {
        Err(ParseIdRangeError::UnexpectedColonCount)
    } else {
        let i = spec_colon_at(s);
        let lo = spec_parse_uint(s.take(i), u32::MAX as nat);
        let hi = spec_parse_uint(s.skip(i + 1), u32::MAX as nat);
        if lo is None || hi is None {
            Err(ParseIdRangeError::BadNumber)
        } else if lo->0 >= hi->0 {
            Err(ParseIdRangeError::BadRange)
        } else {
            Ok(IdRange { low: lo->0 as u32, high: hi->0 as u32 })
        }
    }
}

/// Parses a `LOW:HIGH` id range: exactly one colon, two numbers, low
/// strictly below high.
pub fn parse_id_range(s: &str) -> (r: Result<IdRange, ParseIdRangeError>)
    ensures
        r == spec_parse_id_range(s@),
{
    let n: usize = s.unicode_len();
    let mut count: usize = 0;
    let mut first: usize = 0;
    let mut i: usize = 0;
    proof {
        assert(s@.take(0) =~= Seq::<char>::empty());
    }
    while i < n
        invariant
            0 <= i <= n,
            n == s@.len(),
            count <= i,
            count as nat == spec_colon_count(s@.take(i as int)),
            count > 0 ==> 0 <= first < i && s@[first as int] == ':',
            count == 0 ==> forall|t: int| 0 <= t < i ==> s@[t] != ':',
        decreases n - i,
    {
        proof {
            assert(s@.take(i + 1).drop_last() =~= s@.take(i as int));
            assert(s@.take(i + 1).last() == s@[i as int]);
        }
        if s.get_char(i) == ':' {
            if count == 0 {
                first = i;
            }
            count = count + 1;
        }
        i = i + 1;
    }
    proof {
        assert(s@.take(n as int) =~= s@);
    }
    if count != 1 {
        return Err(ParseIdRangeError::UnexpectedColonCount);
    }
    proof {
        lemma_single_colon(s@, first as int);
        assert(spec_colon_at(s@) == first as int);
    }
    let low_part = s.substring_char(0, first);
    let high_part = s.substring_char(first + 1, n);
    proof {
        assert(low_part@ =~= s@.take(first as int));
        assert(high_part@ =~= s@.skip(first + 1));
    }
    let low = match parse_u32(low_part) {
        Some(v) => v,
        None => {
            return Err(ParseIdRangeError::BadNumber);
        },
    };
    let high = match parse_u32(high_part) {
        Some(v) => v,
        None => {
            return Err(ParseIdRangeError::BadNumber);
        },
    };
    if low >= high {
        return Err(ParseIdRangeError::BadRange);
    }
    Ok(IdRange { low, high })
}

/// With exactly one colon in the string, the chosen colon index is the one
/// where a colon stands.
proof fn lemma_single_colon(s: Seq<char>, first: int)
    requires
        spec_colon_count(s) == 1,
        0 <= first < s.len(),
        s[first] == ':',
    ensures
        forall|t: int| 0 <= t < s.len() && s[t] == ':' ==> t == first,
        spec_colon_at(s) == first,
    decreases s.len(),
{
    assert forall|t: int| 0 <= t < s.len() && s[t] == ':' implies t == first by {
        if t != first {
            let a = if t < first {
                t
            } else {
                first
            };
            let b = if t < first {
                first
            } else {
                t
            };
            lemma_colon_count_two(s, a, b);
        }
    }
    assert(s[spec_colon_at(s)] == ':' && 0 <= spec_colon_at(s) < s.len());
}

/// Two distinct colons force a count of at least two.
proof fn lemma_colon_count_two(s: Seq<char>, a: int, b: int)
    requires
        0 <= a < b < s.len(),
        s[a] == ':',
        s[b] == ':',
    ensures
        spec_colon_count(s) >= 2,
    decreases s.len(),
{
    if b == s.len() - 1 {
        lemma_colon_count_one(s.drop_last(), a);
    } else {
        lemma_colon_count_two(s.drop_last(), a, b);
    }
}

/// One colon forces a count of at least one.
proof fn lemma_colon_count_one(s: Seq<char>, a: int)
    requires
        0 <= a < s.len(),
        s[a] == ':',
    ensures
        spec_colon_count(s) >= 1,
    decreases s.len(),
{
    if a < s.len() - 1 {
        lemma_colon_count_one(s.drop_last(), a);
    }
}

} // verus!
