//! Typed reading of field contents.
//!
//! Fields are stored as plain text; a caller picks the type a field should be
//! read back as. The conversion is described by the [`ConfigValue`] trait: a
//! specification of which texts are well-formed for the type, and which value
//! a well-formed text stands for.

use vstd::prelude::*;
use vstd::string::StrSliceExecFns;

verus! {

/// A value that can be read back from the text content of a field.
pub trait ConfigValue: Sized {
    /// Whether this text is a well-formed rendering of a value of this type.
    spec fn accepts(s: Seq<char>) -> bool;

    /// Whether `self` is the value that this text stands for.
    spec fn is_parsed_of(&self, s: Seq<char>) -> bool;

    /// Converts field text into a value, exactly when the text is
    /// well-formed for this type.
    fn from_field_text(s: &str) -> (r: Option<Self>)
        ensures
            match r {
                Some(v) => Self::accepts(s@) && v.is_parsed_of(s@),
                None => !Self::accepts(s@),
            },
    ;
}

impl ConfigValue for String {
    /// Every text is a well-formed string.
    open spec fn accepts(s: Seq<char>) -> bool {
        true
    }

    /// Reading a field as a string yields its content verbatim.
    open spec fn is_parsed_of(&self, s: Seq<char>) -> bool {
        self@ == s
    }

    fn from_field_text(s: &str) -> (r: Option<Self>) {
        Some(s.to_owned())
    }
}

impl ConfigValue for bool {
    /// Only the exact words `true` and `false` are accepted.
    open spec fn accepts(s: Seq<char>) -> bool {
        s == "true"@ || s == "false"@
    }

    open spec fn is_parsed_of(&self, s: Seq<char>) -> bool {
        *self == (s == "true"@)
    }

    fn from_field_text(s: &str) -> (r: Option<Self>) {
        proof {
            reveal_strlit("true");
            reveal_strlit("false");
        }
        let text = s.to_owned();
        if text == "true".to_owned() {
            Some(true)
        } else if text == "false".to_owned() {
            Some(false)
        } else {
            None
        }
    }
}

/// The numeric value of a decimal digit character, `-1` for any other
/// character.
pub open spec fn digit_value(c: char) -> int {
    if c == '0' {
        0
    } else if c == '1' {
        1
    } else if c == '2' {
        2
    } else if c == '3' {
        3
    } else if c == '4' {
        4
    } else if c == '5' {
        5
    } else if c == '6' {
        6
    } else if c == '7' {
        7
    } else if c == '8' {
        8
    } else if c == '9' {
        9
    } else {
        -1
    }
}

/// Whether `c` is a decimal digit character.
pub open spec fn is_dec_digit(c: char) -> bool {
    digit_value(c) >= 0
}

/// The number written by a sequence of decimal digit characters.
pub open spec fn dec_value(s: Seq<char>) -> int
    decreases s.len(),
{
    if s.len() == 0 {
        0
    } else {
        dec_value(s.drop_last()) * 10 + digit_value(s.last())
    }
}

/// The digits of a numeral: everything after one optional leading plus
/// sign.
pub open spec fn digits_part(s: Seq<char>) -> Seq<char> {
    if s.len() > 0 && s[0] == '+' {
        s.subrange(1, s.len() as int)
    } else {
        s
    }
}

/// Whether the text is a decimal numeral — one optional leading plus sign,
/// then digits — whose value fits in a `u32`.
pub open spec fn u32_accepts(s: Seq<char>) -> bool {
    &&& digits_part(s).len() > 0
    &&& forall|i: int|
        0 <= i < digits_part(s).len() ==> is_dec_digit(#[trigger] digits_part(s)[i])
    &&& dec_value(digits_part(s)) <= u32::MAX
}

/// In an all-digit text, a prefix never writes a larger number than the
/// whole.
proof fn lemma_dec_value_prefix(s: Seq<char>, i: int)
    requires
        0 <= i <= s.len(),
        forall|j: int| 0 <= j < s.len() ==> is_dec_digit(#[trigger] s[j]),
    ensures
        dec_value(s.take(i)) <= dec_value(s),
    decreases s.len() - i,
{
    if i < s.len() {
        assert(s.take(i + 1).drop_last() =~= s.take(i));
        assert(s.take(i + 1).last() == s[i]);
        assert(dec_value(s.take(i + 1)) == dec_value(s.take(i)) * 10 + digit_value(s[i]));
        lemma_dec_value_nonneg(s.take(i));
        assert(dec_value(s.take(i)) <= dec_value(s.take(i + 1)));
        lemma_dec_value_prefix(s, i + 1);
    } else {
        assert(s.take(i) =~= s);
    }
}

/// A text of digits never writes a negative number.
proof fn lemma_dec_value_nonneg(s: Seq<char>)
    ensures
        (forall|j: int| 0 <= j < s.len() ==> is_dec_digit(#[trigger] s[j])) ==> dec_value(s) >= 0,
    decreases s.len(),
{
    if s.len() > 0 {
        lemma_dec_value_nonneg(s.drop_last());
        assert(forall|j: int|
            0 <= j < s.drop_last().len() ==> s.drop_last()[j] == #[trigger] s[j]);
    }
}

/// The digit a character stands for, if any.
fn char_digit(c: char) -> (r: Option<u8>)
    ensures
        match r {
            Some(d) => is_dec_digit(c) && d as int == digit_value(c),
            None => !is_dec_digit(c),
        },
{
    if c == '0' {
        Some(0)
    } else if c == '1' {
        Some(1)
    } else if c == '2' {
        Some(2)
    } else if c == '3' {
        Some(3)
    } else if c == '4' {
        Some(4)
    } else if c == '5' {
        Some(5)
    } else if c == '6' {
        Some(6)
    } else if c == '7' {
        Some(7)
    } else if c == '8' {
        Some(8)
    } else if c == '9' {
        Some(9)
    } else {
        None
    }
}

impl ConfigValue for u32 {
    open spec fn accepts(s: Seq<char>) -> bool {
        u32_accepts(s)
    }

    open spec fn is_parsed_of(&self, s: Seq<char>) -> bool {
        *self as int == dec_value(digits_part(s))
    }

    fn from_field_text(s: &str) -> (r: Option<Self>) {
        let n = s.unicode_len();
        let start: usize = if n > 0 && s.get_char(0) == '+' {
            1
        } else {
            0
        };
        let ghost d = digits_part(s@);
        proof {
            assert(d =~= s@.subrange(start as int, n as int));
        }
        if n == start {
            return None;
        }
        let mut acc: u64 = 0;
        let mut i: usize = start;
        while i < n
            invariant
                n == s@.len(),
                start <= i <= n,
                d == digits_part(s@),
                d == s@.subrange(start as int, n as int),
                forall|j: int| 0 <= j < i - start ==> is_dec_digit(#[trigger] d[j]),
                acc as int == dec_value(d.take(i - start)),
                acc <= u32::MAX,
            decreases n - i,
        {
            let c = s.get_char(i);
            proof {
                assert(d[i - start] == s@[i as int]);
            }
            let dg = match char_digit(c) {
                Some(dg) => dg,
                None => {
                    return None;
                },
            };
            let next: u64 = acc * 10 + dg as u64;
            proof {
                assert(d.take(i - start + 1).drop_last() =~= d.take(i - start));
                assert(d.take(i - start + 1).last() == d[i - start]);
                assert(dec_value(d.take(i - start + 1)) == dec_value(d.take(i - start)) * 10
                    + digit_value(d[i - start]));
            }
            if next > u32::MAX as u64 {
                proof {
                    if forall|j: int| 0 <= j < d.len() ==> is_dec_digit(#[trigger] d[j]) {
                        lemma_dec_value_prefix(d, i - start + 1);
                    }
                }
                return None;
            }
            acc = next;
            i += 1;
        }
        proof {
            assert(d.take(n - start) =~= d);
        }
        Some(acc as u32)
    }
}

} // verus!
