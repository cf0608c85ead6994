//! Prices as they are written in the extract: plain decimal numbers such as
//! `22000`, `150.5` or `-0.75`.
use vstd::prelude::*;
use crate::date::is_digit;

verus! {

/// `t` is made of digits and at most one `.`, with at least one digit.
pub open spec fn is_unsigned_decimal(t: Seq<char>) -> bool {
    &&& forall|i: int| 0 <= i < t.len() ==> is_digit(#[trigger] t[i]) || t[i] == '.'
    &&& forall|i: int, j: int|
        0 <= i < t.len() && 0 <= j < t.len() && #[trigger] t[i] == '.' && #[trigger] t[j] == '.'
            ==> i == j
    &&& exists|i: int| 0 <= i < t.len() && is_digit(#[trigger] t[i])
}

/// `s` is a decimal number, with an optional leading `+` or `-`.
pub open spec fn is_decimal(s: Seq<char>) -> bool {
    if s.len() > 0 && (s[0] == '+' || s[0] == '-') {
        is_unsigned_decimal(s.skip(1))
    } else {
        is_unsigned_decimal(s)
    }
}

/// Whether the characters of `s` from `start` on form an unsigned decimal.
fn unsigned_decimal_from(s: &str, start: usize) -> (r: bool)
    requires
        start <= s@.len(),
    ensures
        r == is_unsigned_decimal(s@.skip(start as int)),
{
    let len = s.unicode_len();
    let ghost t = s@.skip(start as int);
    let mut dot: Option<usize> = None;
    let mut digit: Option<usize> = None;
    let mut i: usize = start;
    while i < len
        invariant
            len == s@.len(),
            t == s@.skip(start as int),
            start <= i <= len,
            forall|j: int| start <= j < i ==> is_digit(#[trigger] s@[j]) || s@[j] == '.',
            dot matches Some(k) ==> start <= k < i && s@[k as int] == '.' && forall|j: int|
                start <= j < i && s@[j] == '.' ==> j == k,
            dot is None ==> forall|j: int| start <= j < i ==> s@[j] != '.',
            digit matches Some(k) ==> start <= k < i && is_digit(s@[k as int]),
            digit is None ==> forall|j: int| start <= j < i ==> !is_digit(#[trigger] s@[j]),
        decreases len - i,
    {
        let c = s.get_char(i);
        if c == '.' {
            if let Some(k) = dot {
                assert(t[k - start] == '.' && t[i - start] == '.');
                return false;
            }
            dot = Some(i);
        } else if '0' <= c && c <= '9' {
            digit = Some(i);
        } else {
            assert(!(is_digit(t[i - start]) || t[i - start] == '.'));
            return false;
        }
        i = i + 1;
    }
    match digit {
        Some(k) => {
            assert(is_digit(t[k - start]));
            assert forall|a: int, b: int|
                0 <= a < t.len() && 0 <= b < t.len() && #[trigger] t[a] == '.' && #[trigger] t[b]
                    == '.' implies a == b by {
                assert(s@[a + start] == '.' && s@[b + start] == '.');
            }
            assert forall|a: int| 0 <= a < t.len() implies is_digit(#[trigger] t[a]) || t[a]
                == '.' by {
                assert(is_digit(s@[a + start]) || s@[a + start] == '.');
            }
            true
        },
        None => {
            assert forall|a: int| 0 <= a < t.len() implies !is_digit(#[trigger] t[a]) by {
                assert(!is_digit(s@[a + start]));
            }
            false
        },
    }
}

/// Whether `s` is a decimal number, with an optional leading sign.
pub fn decimal_text(s: &str) -> (r: bool)
    ensures
        r == is_decimal(s@),
{
    let len = s.unicode_len();
    if len > 0 {
        let c = s.get_char(0);
        if c == '+' || c == '-' {
            return unsigned_decimal_from(s, 1);
        }
    }
    let r = unsigned_decimal_from(s, 0);
    assert(s@.skip(0) =~= s@);
    r
}

/// A price: the text of a decimal number.
#[derive(Debug)]
pub struct Price {
    text: String,
}

impl View for Price {
    type V = Seq<char>;

    closed spec fn view(&self) -> Seq<char> {
        self.text@
    }
}

impl Price {
    #[verifier::type_invariant]
    spec fn inv(self) -> bool {
        is_decimal(self.text@)
    }

    /// The price written in `s`, if `s` is a decimal number; a text that is
    /// not one has no price (the value is missing).
    pub fn parse(s: &str) -> (r: Option<Price>)
        ensures
            r is Some <==> is_decimal(s@),
            r matches Some(p) ==> p@ == s@,
    {
        if decimal_text(s) {
            Some(Price { text: String::from_str(s) })
        } else {
            None
        }
    }

    /// The decimal text of this price.
    pub fn as_str(&self) -> (r: &str)
        ensures
            r@ == self@,
            is_decimal(r@),
    {
        proof {
            use_type_invariant(self);
        }
        self.text.as_str()
    }
}

impl Clone for Price {
    fn clone(&self) -> (r: Price)
        ensures
            r == *self,
    {
        proof {
            use_type_invariant(self);
        }
        Price { text: self.text.clone() }
    }
}

} // verus!
