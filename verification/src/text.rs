//! Whitespace trimming over character sequences.

use vstd::prelude::*;

verus! {

/// The characters stripped from both ends of a cell's text before numeric
/// parsing: the ASCII whitespace seen in HTML text plus the no-break space
/// that table cells are commonly padded with.
pub open spec fn is_space(c: char) -> bool {
    c == ' ' || c == '\t' || c == '\n' || c == '\r' || c == '\u{a0}'
}

/// `s` with every leading and trailing space character removed.
pub open spec fn trim_spec(s: Seq<char>) -> Seq<char>
    decreases s.len(),
{
    if s.len() == 0 {
        s
    } else if is_space(s[0]) {
        trim_spec(s.subrange(1, s.len() as int))
    } else if is_space(s[s.len() - 1]) {
        trim_spec(s.subrange(0, s.len() - 1))
    } else {
        s
    }
}

pub fn is_space_char(c: char) -> (b: bool)
    ensures
        b == is_space(c),
{
    c == ' ' || c == '\t' || c == '\n' || c == '\r' || c == '\u{a0}'
}

/// `trim_spec(s)` is the subrange of `s` that starts at the first non-space
/// character and ends after the last one.
proof fn lemma_trim_range(s: Seq<char>, i: int, j: int)
    requires
        0 <= i <= j <= s.len(),
        forall|k: int| 0 <= k < i ==> is_space(s[k]),
        forall|k: int| j <= k < s.len() ==> is_space(s[k]),
        i < j ==> !is_space(s[i]) && !is_space(s[j - 1]),
    ensures
        trim_spec(s) == s.subrange(i, j),
    decreases s.len(),
{
    if s.len() == 0 {
        assert(trim_spec(s) =~= s.subrange(i, j));
    } else if i > 0 {
        let t = s.subrange(1, s.len() as int);
        lemma_trim_range(t, i - 1, j - 1);
        assert(t.subrange(i - 1, j - 1) =~= s.subrange(i, j));
    } else if i == j {
        // every character of s is a space
        assert(is_space(s[0]));
        let t = s.subrange(1, s.len() as int);
        lemma_trim_range(t, 0, 0);
        assert(t.subrange(0, 0) =~= s.subrange(i, j));
    } else if j < s.len() {
        assert(!is_space(s[0]));
        assert(is_space(s[s.len() - 1]));
        let t = s.subrange(0, s.len() - 1);
        lemma_trim_range(t, i, j);
        assert(t.subrange(i, j) =~= s.subrange(i, j));
    } else {
        assert(!is_space(s[0]));
        assert(!is_space(s[s.len() - 1]));
        assert(trim_spec(s) == s);
        assert(s.subrange(i, j) =~= s);
    }
}

/// A copy of `s` with leading and trailing space characters removed.
pub fn trim(s: &str) -> (r: String)
    ensures
        r@ == trim_spec(s@),
{
    let n = s.unicode_len();
    let mut i: usize = 0;
    while i < n && is_space_char(s.get_char(i))
        invariant
            n == s@.len(),
            0 <= i <= n,
            forall|k: int| 0 <= k < i ==> is_space(s@[k]),
        decreases n - i,
    {
        i = i + 1;
    }
    let mut j: usize = n;
    while j > i && is_space_char(s.get_char(j - 1))
        invariant
            n == s@.len(),
            0 <= i <= j <= n,
            forall|k: int| 0 <= k < i ==> is_space(s@[k]),
            i < n ==> !is_space(s@[i as int]),
            forall|k: int| j <= k < n ==> is_space(s@[k]),
        decreases j,
    {
        j = j - 1;
    }
    proof {
        lemma_trim_range(s@, i as int, j as int);
    }
    let sub = s.substring_char(i, j);
    String::from_str(sub)
}

} // verus!
