//! The front-matter splitter.
//!
//! A document may open with a block of YAML delimited by two lines that
//! consist solely of `---`, the first of them the document's first line.
//! The split is over the trimmed document text; the block ends at the first
//! closing delimiter line.

use vstd::prelude::*;

use crate::text::{trim, trim_spec};

verus! {

/// The document opens a front-matter block: its first line is exactly `---`.
pub open spec fn fm_opens(s: Seq<char>) -> bool {
    s.len() >= 4 && s[0] == '-' && s[1] == '-' && s[2] == '-' && s[3] == '\n'
}

/// A closing delimiter at `e`: a line break followed by a line that is
/// exactly `---`.
pub open spec fn fm_closes_at(s: Seq<char>, e: int) -> bool {
    &&& 4 <= e
    &&& e + 4 <= s.len()
    &&& s[e] == '\n'
    &&& s[e + 1] == '-'
    &&& s[e + 2] == '-'
    &&& s[e + 3] == '-'
    &&& (e + 4 == s.len() || s[e + 4] == '\n')
}

pub open spec fn first_close_from(s: Seq<char>, e: int) -> int
    decreases s.len() - e,
{
    if e < 4 || e + 4 > s.len() {
        -1
    } else if fm_closes_at(s, e) {
        e
    } else {
        first_close_from(s, e + 1)
    }
}

/// Where the first closing delimiter of the document starts, or -1 if
/// there is none.
pub open spec fn fm_close(s: Seq<char>) -> int {
    first_close_from(s, 4)
}

pub open spec fn has_front_matter(s: Seq<char>) -> bool {
    fm_opens(s) && fm_close(s) >= 0
}

/// The trimmed text between the two delimiter lines.
pub open spec fn fm_block_spec(s: Seq<char>) -> Seq<char>
    recommends
        has_front_matter(s),
{
    trim_spec(s.subrange(4, fm_close(s)))
}

/// The markdown body: the trimmed remainder after the closing delimiter,
/// or the whole (already trimmed) document when it has no front matter.
pub open spec fn body_spec(s: Seq<char>) -> Seq<char> {
    if has_front_matter(s) {
        trim_spec(s.subrange(fm_close(s) + 4, s.len() as int))
    } else {
        s
    }
}

fn closes_at(t: &str, e: usize) -> (r: bool)
    requires
        4 <= e,
        e + 4 <= t@.len(),
        t@.len() <= usize::MAX,
    ensures
        r == fm_closes_at(t@, e as int),
{
    t.get_char(e) == '\n' && t.get_char(e + 1) == '-' && t.get_char(e + 2) == '-' && t.get_char(
        e + 3,
    ) == '-' && (e + 4 == t.unicode_len() || t.get_char(e + 4) == '\n')
}

/// Split a document into its optional front-matter block and its body.
/// The block is returned exactly when the trimmed document opens with a
/// `---` line and a closing `---` line follows.
pub fn split_front_matter(content: &str) -> (r: (Option<String>, String))
    ensures
        ({
            let t = trim_spec(content@);
            &&& r.1@ == body_spec(t)
            &&& (r.0 is Some <==> has_front_matter(t))
            &&& (r.0 matches Some(b) ==> b@ == fm_block_spec(t))
        }),
{
    let t: &str = trim(content);
    let n: usize = t.unicode_len();
    let opens: bool = n >= 4 && t.get_char(0) == '-' && t.get_char(1) == '-' && t.get_char(2)
        == '-' && t.get_char(3) == '\n';
    if opens {
        let mut e: usize = 4;
        while e <= n - 4
            invariant
                4 <= e <= n,
                n >= 4,
                n == t@.len(),
                t@ == trim_spec(content@),
                fm_opens(t@),
                first_close_from(t@, 4) == first_close_from(t@, e as int),
            decreases n - e,
        {
            if closes_at(t, e) {
                proof {
                    assert(first_close_from(t@, e as int) == e as int);
                    assert(fm_close(t@) == e as int);
                }
                let block = trim(t.substring_char(4, e));
                let body = trim(t.substring_char(e + 4, n));
                return (Some(String::from_str(block)), String::from_str(body));
            }
            e = e + 1;
        }
        proof {
            assert(first_close_from(t@, e as int) == -1);
        }
    }
    (None, String::from_str(t))
}

} // verus!
