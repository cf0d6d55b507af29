//! Decimal formatting of numbers, used for inherited handle values and for
//! the request printer.
use vstd::prelude::*;

verus! {

/// The single digit character of a value below ten.
pub open spec fn spec_digit(d: nat) -> char {
    if d == 0 {
        '0'
    } else if d == 1 {
        '1'
    } else if d == 2 {
        '2'
    } else if d == 3 {
        '3'
    } else if d == 4 {
        '4'
    } else if d == 5 {
        '5'
    } else if d == 6 {
        '6'
    } else if d == 7 {
        '7'
    } else if d == 8 {
        '8'
    } else {
        '9'
    }
}

/// The decimal representation of a number, most significant digit first.
pub open spec fn spec_dec(n: nat) -> Seq<char>
    decreases n,
{
    if n < 10 {
        seq![spec_digit(n)]
    } else {
        spec_dec(n / 10) + seq![spec_digit(n % 10)]
    }
}

/// The one-character string of a digit.
fn digit_str(d: u64) -> (r: &'static str)
    requires
        d < 10,
    ensures
        r@ =~= seq![spec_digit(d as nat)],
{
    proof {
        reveal_strlit("0");
        reveal_strlit("1");
        reveal_strlit("2");
        reveal_strlit("3");
        reveal_strlit("4");
        reveal_strlit("5");
        reveal_strlit("6");
        reveal_strlit("7");
        reveal_strlit("8");
        reveal_strlit("9");
    }
    if d == 0 {
        "0"
    } else if d == 1 {
        "1"
    } else if d == 2 {
        "2"
    } else if d == 3 {
        "3"
    } else if d == 4 {
        "4"
    } else if d == 5 {
        "5"
    } else if d == 6 {
        "6"
    } else if d == 7 {
        "7"
    } else if d == 8 {
        "8"
    } else {
        "9"
    }
}

/// Writes a number in decimal.
pub fn u64_to_dec(n: u64) -> (r: String)
    ensures
        r@ == spec_dec(n as nat),
    decreases n,
{
    if n < 10 {
        digit_str(n).to_owned()
    } else {
        let mut s = u64_to_dec(n / 10);
        s.append(digit_str(n % 10));
        proof {
            assert(s@ =~= spec_dec((n / 10) as nat) + seq![spec_digit((n % 10) as nat)]);
        }
        s
    }
}

/// Whether every character is a decimal digit.
pub open spec fn all_digits(s: Seq<char>) -> bool {
    forall|i: int| 0 <= i < s.len() ==> '0' <= #[trigger] s[i] <= '9'
}

/// The number a digit string denotes.
pub open spec fn spec_dec_value(s: Seq<char>) -> nat
    decreases s.len(),
{
    if s.len() == 0 {
        0
    } else {
        spec_dec_value(s.drop_last()) * 10 + (s.last() as int - '0' as int) as nat
    }
}

/// What parsing an unsigned number yields: the denoted value of the digits
/// (one leading plus sign allowed), when they fit the bound.
pub open spec fn spec_parse_uint(s: Seq<char>, max: nat) -> Option<nat> {
    let t = if s.len() > 0 && s[0] == '+' {
        s.skip(1)
    } else {
        s
    };
    if t.len() == 0 || !all_digits(t) || spec_dec_value(t) > max {
        None
    } else {
        Some(spec_dec_value(t))
    }
}

/// A longer digit prefix never denotes a smaller number.
proof fn lemma_dec_value_step(s: Seq<char>, i: int)
    requires
        0 <= i < s.len(),
    ensures
        spec_dec_value(s.take(i)) <= spec_dec_value(s.take(i + 1)),
        s.take(i + 1).len() > 0 ==> spec_dec_value(s.take(i + 1)) == spec_dec_value(s.take(i)) * 10
            + (s[i] as int - '0' as int) as nat,
{
    assert(s.take(i + 1).drop_last() =~= s.take(i));
    assert(s.take(i + 1).last() == s[i]);
}

/// A longer digit prefix never denotes a smaller number.
proof fn lemma_dec_value_monotone(s: Seq<char>, i: int, j: int)
    requires
        0 <= i <= j <= s.len(),
    ensures
        spec_dec_value(s.take(i)) <= spec_dec_value(s.take(j)),
    decreases j - i,
{
    if i < j {
        lemma_dec_value_step(s, i);
        lemma_dec_value_monotone(s, i + 1, j);
    }
}

/// Parses an unsigned decimal number into a 32-bit word; one leading plus
/// sign is allowed, anything else non-digit or out of range is refused.
pub fn parse_u32(s: &str) -> (r: Option<u32>)
    ensures
        match r {
            Some(v) => spec_parse_uint(s@, u32::MAX as nat) == Some(v as nat),
            None => spec_parse_uint(s@, u32::MAX as nat) is None,
        },
{
    let n: usize = s.unicode_len();
    let start: usize = if n > 0 && s.get_char(0) == '+' {
        1
    } else {
        0
    };
    let ghost t = if s@.len() > 0 && s@[0] == '+' {
        s@.skip(1)
    } else {
        s@
    };
    if n == start {
        return None;
    }
    let mut acc: u32 = 0;
    let mut i: usize = start;
    proof {
        assert(t =~= s@.subrange(start as int, n as int));
        assert(t.take(0) =~= Seq::<char>::empty());
    }
    while i < n
        invariant
            start <= i <= n,
            n == s@.len(),
            start <= 1,
            t == s@.subrange(start as int, n as int),
            t == (if s@.len() > 0 && s@[0] == '+' {
                s@.skip(1)
            } else {
                s@
            }),
            t.len() > 0,
            all_digits(t.take(i - start)),
            acc as nat == spec_dec_value(t.take(i - start)),
        decreases n - i,
    {
        let c = s.get_char(i);
        if !('0' <= c && c <= '9') {
            proof {
                assert(t[i - start] == c);
            }
            return None;
        }
        let d: u32 = (c as u32) - ('0' as u32);
        proof {
            lemma_dec_value_step(t, i - start);
        }
        if acc > (u32::MAX - d) / 10 {
            proof {
                assert(spec_dec_value(t.take(i - start + 1)) > u32::MAX as nat);
                lemma_dec_value_monotone(t, i - start + 1, t.len() as int);
                assert(t.take(t.len() as int) =~= t);
            }
            return None;
        }
        acc = acc * 10 + d;
        proof {
            assert(t.take(i - start + 1).drop_last() =~= t.take(i - start));
            assert(all_digits(t.take(i - start + 1)));
        }
        i = i + 1;
    }
    proof {
        assert(t.take(n - start) =~= t);
    }
    Some(acc)
}

/// Parses an unsigned decimal number into a 16-bit word.
pub fn parse_u16(s: &str) -> (r: Option<u16>)
    ensures
        match r {
            Some(v) => spec_parse_uint(s@, u16::MAX as nat) == Some(v as nat),
            None => spec_parse_uint(s@, u16::MAX as nat) is None,
        },
{
    match parse_u32(s) {
        Some(v) => if v <= 65535 {
            Some(v as u16)
        } else {
            None
        },
        None => None,
    }
}

/// The single hex digit character of a value below sixteen.
pub open spec fn spec_hex_digit(d: nat) -> char {
    if d < 10 {
        spec_digit(d)
    } else if d == 10 {
        'a'
    } else if d == 11 {
        'b'
    } else if d == 12 {
        'c'
    } else if d == 13 {
        'd'
    } else if d == 14 {
        'e'
    } else {
        'f'
    }
}

/// The zero-padded hexadecimal representation of a number, `width` digits,
/// most significant first.
pub open spec fn spec_hex_pad(n: nat, width: nat) -> Seq<char>
    decreases width,
{
    if width == 0 {
        Seq::empty()
    } else {
        spec_hex_pad(n / 16, (width - 1) as nat) + seq![spec_hex_digit(n % 16)]
    }
}

/// The one-character string of a hex digit.
fn hex_digit_str(d: u64) -> (r: &'static str)
    requires
        d < 16,
    ensures
        r@ =~= seq![spec_hex_digit(d as nat)],
{
    proof {
        reveal_strlit("a");
        reveal_strlit("b");
        reveal_strlit("c");
        reveal_strlit("d");
        reveal_strlit("e");
        reveal_strlit("f");
    }
    if d < 10 {
        digit_str(d)
    } else if d == 10 {
        "a"
    } else if d == 11 {
        "b"
    } else if d == 12 {
        "c"
    } else if d == 13 {
        "d"
    } else if d == 14 {
        "e"
    } else {
        "f"
    }
}

/// Writes a number in zero-padded hexadecimal, `width` digits.
pub fn u64_to_hex_pad(n: u64, width: usize) -> (r: String)
    ensures
        r@ == spec_hex_pad(n as nat, width as nat),
    decreases width,
{
    if width == 0 {
        proof {
            reveal_strlit("");
        }
        "".to_owned()
    } else {
        let mut s = u64_to_hex_pad(n / 16, width - 1);
        s.append(hex_digit_str(n % 16));
        proof {
            assert(s@ =~= spec_hex_pad((n / 16) as nat, (width - 1) as nat) + seq![
                spec_hex_digit((n % 16) as nat),
            ]);
        }
        s
    }
}

/// The hyphenated form of a 128-bit identifier: sixteen hex digits of the
/// high word and sixteen of the low word, grouped 8-4-4-4-12.
pub open spec fn spec_uid_hyphenated(hi: u64, lo: u64) -> Seq<char> {
    let h = spec_hex_pad(hi as nat, 16);
    let l = spec_hex_pad(lo as nat, 16);
    h.take(8) + seq!['-'] + h.subrange(8, 12) + seq!['-'] + h.subrange(12, 16) + seq!['-']
        + l.take(4) + seq!['-'] + l.skip(4)
}

/// Writes a 128-bit identifier in its hyphenated form.
pub fn uid_hyphenated(u: &crate::api::Uid) -> (r: String)
    ensures
        r@ == spec_uid_hyphenated(u.hi, u.lo),
{
    let h = u64_to_hex_pad(u.hi, 16);
    let l = u64_to_hex_pad(u.lo, 16);
    proof {
        lemma_hex_pad_len(u.hi as nat, 16);
        lemma_hex_pad_len(u.lo as nat, 16);
    }
    let mut s = h.as_str().substring_char(0, 8).to_owned();
    s.append("-");
    s.append(h.as_str().substring_char(8, 12));
    s.append("-");
    s.append(h.as_str().substring_char(12, 16));
    s.append("-");
    s.append(l.as_str().substring_char(0, 4));
    s.append("-");
    s.append(l.as_str().substring_char(4, 16));
    proof {
        reveal_strlit("-");
        assert("-"@ =~= seq!['-']);
        assert(h@.subrange(0, 8) =~= h@.take(8));
        assert(l@.subrange(0, 4) =~= l@.take(4));
        assert(l@.subrange(4, 16) =~= l@.skip(4));
        assert(s@ =~= spec_uid_hyphenated(u.hi, u.lo));
    }
    s
}

/// A padded hex text has exactly its width.
proof fn lemma_hex_pad_len(n: nat, width: nat)
    ensures
        spec_hex_pad(n, width).len() == width,
    decreases width,
{
    if width > 0 {
        lemma_hex_pad_len(n / 16, (width - 1) as nat);
    }
}

/// Whether two strings hold the same characters.
pub fn str_eq(a: &str, b: &str) -> (r: bool)
    ensures
        r == (a@ == b@),
{
    let n: usize = a.unicode_len();
    let m: usize = b.unicode_len();
    if n != m {
        return false;
    }
    let mut i: usize = 0;
    while i < n
        invariant
            0 <= i <= n,
            n == a@.len(),
            n == b@.len(),
            forall|t: int| 0 <= t < i ==> a@[t] == b@[t],
        decreases n - i,
    {
        if a.get_char(i) != b.get_char(i) {
            proof {
                if a@ == b@ {
                    assert(a@[i as int] == b@[i as int]);
                }
            }
            return false;
        }
        i = i + 1;
    }
    proof {
        assert(a@ =~= b@);
    }
    true
}

} // verus!
