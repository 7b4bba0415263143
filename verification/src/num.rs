//! Numeric cell values, held as validated decimal text.
//!
//! A value keeps the exact text found in the table (after trimming), so
//! serializing it back writes the same characters. The accepted grammar is
//! an optional sign, one or more digits, and an optional fractional part:
//! `[+-] digits [. digits]`.

use vstd::prelude::*;

verus! {

pub open spec fn is_digit(c: char) -> bool {
    '0' <= c && c <= '9'
}

/// The number of `'.'` characters in `s`.
pub open spec fn dot_count(s: Seq<char>) -> nat
    decreases s.len(),
{
    if s.len() == 0 {
        0
    } else {
        dot_count(s.drop_last()) + (if s.last() == '.' { 1nat } else { 0nat })
    }
}

/// The digits-and-dot part of the grammar: non-empty, every character a digit
/// or a single interior `'.'`.
pub open spec fn is_unsigned_number(s: Seq<char>) -> bool {
    &&& s.len() > 0
    &&& forall|k: int| 0 <= k < s.len() ==> is_digit(s[k]) || s[k] == '.'
    &&& dot_count(s) <= 1
    &&& s[0] != '.'
    &&& s[s.len() - 1] != '.'
}

/// Whether `s` is a decimal number: an optional `'+'` or `'-'` sign followed
/// by digits with at most one interior decimal point.
pub open spec fn is_number(s: Seq<char>) -> bool {
    if s.len() > 0 && (s[0] == '+' || s[0] == '-') {
        is_unsigned_number(s.subrange(1, s.len() as int))
    } else {
        is_unsigned_number(s)
    }
}

pub fn is_digit_char(c: char) -> (b: bool)
    ensures
        b == is_digit(c),
{
    '0' <= c && c <= '9'
}

/// Checks the digits-and-dot part of `s` from character `from` on.
fn check_unsigned(s: &str, from: usize) -> (b: bool)
    requires
        from <= s@.len(),
    ensures
        b == is_unsigned_number(s@.subrange(from as int, s@.len() as int)),
{
    let ghost u = s@.subrange(from as int, s@.len() as int);
    let n = s.unicode_len();
    if from == n {
        return false;
    }
    let mut k: usize = from;
    let mut dots: usize = 0;
    while k < n
        invariant
            u == s@.subrange(from as int, s@.len() as int),
            n == s@.len(),
            from <= k <= n,
            from < n,
            dots <= k - from,
            dots == dot_count(u.take(k - from)),
            forall|t: int| 0 <= t < k - from ==> is_digit(u[t]) || u[t] == '.',
        decreases n - k,
    {
        let c = s.get_char(k);
        proof {
            assert(u.take(k - from + 1).drop_last() =~= u.take(k - from));
            assert(u.take(k - from + 1).last() == s@[k as int]);
        }
        if c == '.' {
            dots = dots + 1;
        } else if !is_digit_char(c) {
            return false;
        }
        k = k + 1;
    }
    proof {
        assert(u.take(n - from) =~= u);
    }
    if dots > 1 {
        return false;
    }
    if s.get_char(from) == '.' {
        return false;
    }
    if s.get_char(n - 1) == '.' {
        return false;
    }
    true
}

/// Whether the text of `s` is a decimal number under this library's grammar.
pub fn check_number(s: &str) -> (b: bool)
    ensures
        b == is_number(s@),
{
    let n = s.unicode_len();
    if n > 0 {
        let c = s.get_char(0);
        if c == '+' || c == '-' {
            return check_unsigned(s, 1);
        }
    }
    proof {
        assert(s@.subrange(0, s@.len() as int) =~= s@);
    }
    check_unsigned(s, 0)
}

/// A numeric value, carried as the decimal text it was extracted from.
#[derive(Debug)]
pub struct Num {
    text: String,
}

impl View for Num {
    type V = Seq<char>;

    closed spec fn view(&self) -> Seq<char> {
        self.text@
    }
}

impl DeepView for Num {
    type V = Seq<char>;

    open spec fn deep_view(&self) -> Seq<char> {
        self@
    }
}

impl Num {
    /// A value of this type always holds text in the numeric grammar.
    pub open spec fn wf(self) -> bool {
        is_number(self@)
    }

    /// Validates `text` and wraps it; `None` exactly when the text is not a
    /// decimal number.
    pub fn new(text: String) -> (r: Option<Num>)
        ensures
            r is Some <==> is_number(text@),
            r matches Some(v) ==> v@ == text@ && v.wf(),
    {
        if check_number(text.as_str()) {
            Some(Num { text })
        } else {
            None
        }
    }

    /// The decimal text of the value.
    pub fn as_text(&self) -> (r: &str)
        ensures
            r@ == self@,
    {
        self.text.as_str()
    }

    /// A copy of the decimal text of the value.
    pub fn to_text(&self) -> (r: String)
        ensures
            r@ == self@,
    {
        self.text.clone()
    }
}

} // verus!
