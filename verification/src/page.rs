//! A single post: its identity, front matter, body and derived views.

use vstd::prelude::*;

use crate::front_matter::{body_spec, fm_block_spec, has_front_matter, split_front_matter};
use crate::render::{html_of, markdown_plain_text, plain_text_of, render_markdown};
use crate::text::trim_spec;
use crate::timestamp::{
    id_spec, lemma_parse_id_round_trip, parse_timestamp, parse_timestamp_spec, ts_wf, Timestamp,
};
use crate::yaml::{parse_yaml, yaml_parses};

verus! {

/// The size ceiling for a candidate file, in bytes.
pub const MAX_POST_BYTES: u64 = 100_000_000;

/// One blog entry: identified and ordered by its timestamp, carrying the
/// parsed front matter and the markdown body (trimmed, front matter
/// removed).
#[derive(Debug)]
pub struct Page {
    pub date: Timestamp,
    pub front_matter: Option<serde_yaml::Value>,
    pub md: String,
}

/// What loading one candidate file yields: a valid post, a file that is
/// quietly no post at all, or a post whose front matter is broken and must
/// abort loading with a diagnostic.
#[derive(Debug)]
pub enum LoadOutcome {
    Valid(Page),
    Skipped,
    Malformed(String),
}

/// A candidate must be a regular file strictly below the size ceiling;
/// a file at or above the ceiling is excluded whatever its content.
pub fn meta_ok(is_file: bool, size: u64) -> (r: bool)
    ensures
        r == (is_file && size < MAX_POST_BYTES),
        size >= MAX_POST_BYTES ==> !r,
{
    is_file && size < MAX_POST_BYTES
}

/// The index of the first line break at or after `i`, or the length of
/// the sequence if there is none.
pub open spec fn first_nl(s: Seq<char>, i: int) -> int
    decreases s.len() - i,
{
    if i < 0 || i >= s.len() {
        s.len() as int
    } else if s[i] == '\n' {
        i
    } else {
        first_nl(s, i + 1)
    }
}

/// The first line of a text, as `str::lines` yields it: up to the first
/// line break, with a trailing carriage return removed.
pub open spec fn first_line_spec(s: Seq<char>) -> Seq<char> {
    let line = s.subrange(0, first_nl(s, 0));
    if line.len() > 0 && line[line.len() - 1] == '\r' {
        line.drop_last()
    } else {
        line
    }
}

/// The title of a post: the first line of its body reduced to plain text,
/// or the empty string when the body is empty.
pub open spec fn title_spec(p: Page) -> Seq<char> {
    if p.md@.len() == 0 {
        Seq::<char>::empty()
    } else {
        plain_text_of(first_line_spec(p.md@))
    }
}

impl Page {
    /// Split a document into its front matter and its markdown body.
    /// Fails exactly when a front-matter block is present but is not
    /// valid YAML: that is an authoring error and must abort loading.
    pub fn parse(content: &str) -> (r: Result<(Option<serde_yaml::Value>, String), String>)
        ensures
            ({
                let t = trim_spec(content@);
                &&& r is Err <==> (has_front_matter(t) && !yaml_parses(fm_block_spec(t)))
                &&& (r matches Ok(p) ==> p.1@ == body_spec(t) && (p.0 is Some <==> has_front_matter(
                    t,
                )))
                &&& (r matches Err(m) ==> m@ == "invalid YAML front matter"@)
            }),
    {
        let (block, body) = split_front_matter(content);
        match block {
            None => Ok((None, body)),
            Some(b) => match parse_yaml(b.as_str()) {
                Some(v) => Ok((Some(v), body)),
                None => Err(String::from_str("invalid YAML front matter")),
            },
        }
    }

    /// Load one candidate from its file stem and its decoded content.
    /// A stem that is no timestamp makes no post; a broken front-matter
    /// block aborts with a diagnostic; anything else is a valid post.
    pub fn new(stem: &str, content: &str) -> (r: LoadOutcome)
        ensures
            ({
                let ts = parse_timestamp_spec(stem@);
                let t = trim_spec(content@);
                &&& (ts is None ==> r is Skipped)
                &&& (ts is Some && has_front_matter(t) && !yaml_parses(fm_block_spec(t)) ==> (
                r matches LoadOutcome::Malformed(m) && m@ == "invalid YAML front matter"@))
                &&& ((ts is Some && (has_front_matter(t) ==> yaml_parses(fm_block_spec(t))))
                    ==> (r matches LoadOutcome::Valid(p) && Some(p.date) == ts && ts_wf(p.date)
                    && p.md@ == body_spec(t) && (p.front_matter is Some <==> has_front_matter(
                    t,
                ))))
            }),
    {
        let date = match parse_timestamp(stem) {
            None => { return LoadOutcome::Skipped },
            Some(d) => d,
        };
        match Page::parse(content) {
            Err(m) => LoadOutcome::Malformed(m),
            Ok((front_matter, md)) => LoadOutcome::Valid(Page { date, front_matter, md }),
        }
    }

    /// The post's body rendered as an HTML fragment.
    pub fn md_html(&self) -> (r: String)
        ensures
            r@ == html_of(self.md@),
    {
        render_markdown(self.md.as_str())
    }

    /// The post's title: the first body line reduced to plain text.
    pub fn title(&self) -> (r: String)
        ensures
            r@ == title_spec(*self),
    {
        let s: &str = self.md.as_str();
        let n: usize = s.unicode_len();
        if n == 0 {
            return String::new();
        }
        let mut i: usize = 0;
        while i < n && s.get_char(i) != '\n'
            invariant
                0 <= i <= n,
                n == s@.len(),
                first_nl(s@, 0) == first_nl(s@, i as int),
            decreases n - i,
        {
            i = i + 1;
        }
        assert(first_nl(s@, 0) == i as int);
        let mut end: usize = i;
        if end > 0 && s.get_char(end - 1) == '\r' {
            end = end - 1;
            proof {
                assert(s@.subrange(0, i as int).drop_last() =~= s@.subrange(0, end as int));
            }
        }
        let line: &str = s.substring_char(0, end);
        markdown_plain_text(line)
    }

    /// The canonical identifier: the timestamp back in its fourteen-digit
    /// form, the file stem the post was loaded from.
    pub fn id(&self) -> (r: String)
        requires
            ts_wf(self.date),
        ensures
            r@ == id_spec(self.date),
    {
        self.date.id_string()
    }
}

/// The identity law: a post loaded from a valid stem has that very stem as
/// its identifier, character for character.
pub proof fn lemma_id_matches_stem(stem: Seq<char>, p: Page)
    requires
        parse_timestamp_spec(stem) == Some(p.date),
    ensures
        id_spec(p.date) == stem,
{
    lemma_parse_id_round_trip(stem, p.date);
}

} // verus!
