//! The configuration of one extraction run: which table to read and which
//! cell positions make up the columns.
//!
//! Column cells are found by their fixed 1-based position among a row's
//! direct cells, not by header text: the source pages keep column order
//! stable within a revision, while header text is not guaranteed.

use vstd::prelude::*;

verus! {

/// A named logical column bound to a fixed cell position.
pub struct ColumnSpec {
    /// The column's name, written into the exported header.
    pub name: String,
    /// The 1-based position of the column's cell among a row's direct cells.
    pub ordinal: usize,
}

impl ColumnSpec {
    /// Cell positions are 1-based ordinals.
    pub open spec fn wf(self) -> bool {
        self.ordinal >= 1
    }

    pub fn new(name: String, ordinal: usize) -> (r: Option<ColumnSpec>)
        ensures
            r is Some <==> ordinal >= 1,
            r matches Some(c) ==> c.name@ == name@ && c.ordinal == ordinal && c.wf(),
    {
        if ordinal >= 1 {
            Some(ColumnSpec { name, ordinal })
        } else {
            None
        }
    }
}

/// Every spec in a configuration carries a 1-based ordinal.
pub open spec fn specs_wf(specs: Seq<ColumnSpec>) -> bool {
    forall|j: int| 0 <= j < specs.len() ==> specs[j].wf()
}

/// Whether `s` is fit to stand as a CSS class name in a row query: an ASCII
/// letter or underscore followed by ASCII letters, digits, underscores and
/// hyphens.
pub open spec fn is_class_name(s: Seq<char>) -> bool {
    &&& s.len() > 0
    &&& (('a' <= s[0] && s[0] <= 'z') || ('A' <= s[0] && s[0] <= 'Z') || s[0] == '_')
    &&& forall|k: int|
        1 <= k < s.len() ==> (('a' <= s[k] && s[k] <= 'z') || ('A' <= s[k] && s[k] <= 'Z') || ('0'
            <= s[k] && s[k] <= '9') || s[k] == '_' || s[k] == '-')
}

/// The table-scoped row query: rows are the `tr` elements of the tables
/// carrying this style class.
pub struct TableQuery {
    table_class: String,
}

impl TableQuery {
    /// The class under which the query's rows are selected.
    pub closed spec fn class(self) -> Seq<char> {
        self.table_class@
    }

    /// A value of this type always holds a well-formed class name, so a
    /// selector built from it always parses.
    pub open spec fn wf(self) -> bool {
        is_class_name(self.class())
    }

    /// Validates `table_class` and wraps it; `None` exactly when the text
    /// cannot stand as a class name.
    pub fn new(table_class: String) -> (r: Option<TableQuery>)
        ensures
            r is Some <==> is_class_name(table_class@),
            r matches Some(q) ==> q.class() == table_class@ && q.wf(),
    {
        let s = table_class.as_str();
        let n = s.unicode_len();
        if n == 0 {
            return None;
        }
        let c0 = s.get_char(0);
        if !(('a' <= c0 && c0 <= 'z') || ('A' <= c0 && c0 <= 'Z') || c0 == '_') {
            return None;
        }
        let mut k: usize = 1;
        while k < n
            invariant
                s@ == table_class@,
                n == s@.len(),
                1 <= k <= n,
                forall|t: int|
                    1 <= t < k ==> (('a' <= s@[t] && s@[t] <= 'z') || ('A' <= s@[t] && s@[t] <= 'Z')
                        || ('0' <= s@[t] && s@[t] <= '9') || s@[t] == '_' || s@[t] == '-'),
            decreases n - k,
        {
            let c = s.get_char(k);
            if !(('a' <= c && c <= 'z') || ('A' <= c && c <= 'Z') || ('0' <= c && c <= '9') || c
                == '_' || c == '-') {
                proof {
                    let t = k as int;
                    assert(!(('a' <= s@[t] && s@[t] <= 'z') || ('A' <= s@[t] && s@[t] <= 'Z') || (
                    '0' <= s@[t] && s@[t] <= '9') || s@[t] == '_' || s@[t] == '-'));
                    assert(!is_class_name(s@));
                }
                return None;
            }
            k = k + 1;
        }
        Some(TableQuery { table_class })
    }

    /// The class name as text, for callers that report the configuration.
    pub fn class_text(&self) -> (r: &str)
        ensures
            r@ == self.class(),
    {
        self.table_class.as_str()
    }
}

} // verus!
