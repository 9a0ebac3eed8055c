//! The collection of posts: every valid file of the content directory,
//! sorted by timestamp, most recent first.

use vstd::multiset::Multiset;
use vstd::prelude::*;

use crate::page::{LoadOutcome, Page};
use crate::timestamp::{key_spec, ts_wf};

verus! {

broadcast use vstd::seq_lib::group_to_multiset_ensures, vstd::multiset::group_multiset_axioms;

/// Why a directory yields no collection: either no candidate made a valid
/// post, or a post's front matter is broken, which aborts the whole load.
#[derive(Debug)]
pub enum CollectionError {
    NoPosts,
    Malformed(String),
}

/// Most recent first: keys never increase along the sequence.
pub open spec fn sorted_desc(s: Seq<Page>) -> bool {
    forall|i: int, j: int|
        0 <= i <= j < s.len() ==> key_spec(#[trigger] s[i].date) >= key_spec(#[trigger] s[j].date)
}

pub open spec fn pages_wf(s: Seq<Page>) -> bool {
    forall|i: int| 0 <= i < s.len() ==> ts_wf((#[trigger] s[i]).date)
}

/// A load outcome whose post, if any, carries a well-formed timestamp;
/// every outcome the loader produces is of this shape.
pub open spec fn outcome_wf(o: LoadOutcome) -> bool {
    o matches LoadOutcome::Valid(p) ==> ts_wf(p.date)
}

/// The pages of the valid outcomes, in order of appearance.
pub open spec fn valid_pages(s: Seq<LoadOutcome>) -> Seq<Page>
    decreases s.len(),
{
    if s.len() == 0 {
        Seq::<Page>::empty()
    } else {
        let rest = valid_pages(s.drop_last());
        match s.last() {
            LoadOutcome::Valid(p) => rest.push(p),
            _ => rest,
        }
    }
}

/// The diagnostic of the first malformed outcome, if there is one.
pub open spec fn first_malformed(s: Seq<LoadOutcome>) -> Option<String>
    decreases s.len(),
{
    if s.len() == 0 {
        None
    } else {
        match s.first() {
            LoadOutcome::Malformed(m) => Some(m),
            _ => first_malformed(s.drop_first()),
        }
    }
}

proof fn lemma_first_malformed_skip(s: Seq<LoadOutcome>, k: int)
    requires
        0 <= k <= s.len(),
        first_malformed(s.subrange(0, k)) is None,
    ensures
        first_malformed(s) == first_malformed(s.subrange(k, s.len() as int)),
    decreases k,
{
    if k == 0 {
        assert(s.subrange(0, s.len() as int) =~= s);
    } else {
        let pre = s.subrange(0, k);
        assert(pre.first() == s[0]);
        assert(!(s[0] is Malformed));
        assert(pre.drop_first() =~= s.drop_first().subrange(0, k - 1));
        lemma_first_malformed_skip(s.drop_first(), k - 1);
        assert(s.drop_first().subrange(k - 1, s.drop_first().len() as int) =~= s.subrange(
            k,
            s.len() as int,
        ));
    }
}

proof fn lemma_first_malformed_snoc(s: Seq<LoadOutcome>, o: LoadOutcome)
    requires
        first_malformed(s) is None,
        !(o is Malformed),
    ensures
        first_malformed(s.push(o)) is None,
    decreases s.len(),
{
    if s.len() == 0 {
        assert(s.push(o).first() == o);
        assert(s.push(o).drop_first() =~= Seq::<LoadOutcome>::empty());
        assert(first_malformed(Seq::<LoadOutcome>::empty()) is None);
    } else {
        assert(!(s.first() is Malformed));
        assert(first_malformed(s.drop_first()) is None);
        assert(s.push(o).first() == s.first());
        assert(s.push(o).drop_first() =~= s.drop_first().push(o));
        lemma_first_malformed_snoc(s.drop_first(), o);
    }
}

/// The ordered collection. It exists only when at least one post loaded
/// and no document was malformed.
pub struct Posts {
    pages: Vec<Page>,
}

impl View for Posts {
    type V = Seq<Page>;

    closed spec fn view(&self) -> Seq<Page> {
        self.pages@
    }
}

impl Posts {
    /// Sorted most recent first, every timestamp well formed.
    pub open spec fn wf(&self) -> bool {
        sorted_desc(self@) && pages_wf(self@)
    }

    /// Build the collection from the outcomes of loading each directory
    /// entry: propagate the first malformed document, drop the skipped
    /// ones, refuse an empty result, and sort the rest by date descending.
    pub fn new(outcomes: Vec<LoadOutcome>) -> (r: Result<Posts, CollectionError>)
        requires
            forall|i: int|
                0 <= i < outcomes@.len() ==> outcome_wf(#[trigger] outcomes@[i]),
        ensures
            ({
                let fm = first_malformed(outcomes@);
                let vp = valid_pages(outcomes@);
                &&& (fm is Some ==> (r matches Err(CollectionError::Malformed(m)) && Some(m)
                    == fm))
                &&& (fm is None && vp.len() == 0 ==> r == Err::<Posts, CollectionError>(
                    CollectionError::NoPosts,
                ))
                &&& (fm is None && vp.len() > 0 ==> (r matches Ok(ps) && ps@.to_multiset()
                    == vp.to_multiset() && ps@.len() == vp.len() && ps.wf() && ps@.len() > 0))
            }),
    {
        let ghost orig = outcomes@;
        let mut rest = outcomes;
        let mut pages: Vec<Page> = Vec::new();
        while rest.len() > 0
            invariant
                orig == outcomes@,
                rest@.len() <= orig.len(),
                rest@ == orig.subrange(orig.len() - rest@.len(), orig.len() as int),
                pages@ == valid_pages(orig.subrange(0, orig.len() - rest@.len())),
                first_malformed(orig.subrange(0, orig.len() - rest@.len())) is None,
                pages_wf(pages@),
                forall|i: int| 0 <= i < orig.len() ==> outcome_wf(#[trigger] orig[i]),
            decreases rest@.len(),
        {
            let ghost k: int = orig.len() - rest@.len();
            assert(rest@[0] == orig[k]);
            let o = rest.remove(0);
            proof {
                assert(rest@ =~= orig.subrange(k + 1, orig.len() as int));
                assert(orig.subrange(0, k + 1).drop_last() =~= orig.subrange(0, k));
                assert(orig.subrange(0, k + 1).last() == orig[k]);
            }
            match o {
                LoadOutcome::Malformed(m) => {
                    proof {
                        lemma_first_malformed_skip(orig, k);
                        let tail = orig.subrange(k, orig.len() as int);
                        assert(tail.first() == orig[k]);
                        assert(first_malformed(tail) == Some(m));
                        assert(first_malformed(orig) == Some(m));
                    }
                    return Err(CollectionError::Malformed(m));
                },
                LoadOutcome::Valid(p) => {
                    assert(outcome_wf(orig[k]));
                    pages.push(p);
                    proof {
                        lemma_first_malformed_snoc(
                            orig.subrange(0, k),
                            orig[k],
                        );
                        assert(orig.subrange(0, k).push(orig[k]) =~= orig.subrange(
                            0,
                            k + 1,
                        ));
                    }
                },
                LoadOutcome::Skipped => {
                    proof {
                        lemma_first_malformed_snoc(
                            orig.subrange(0, k),
                            orig[k],
                        );
                        assert(orig.subrange(0, k).push(orig[k]) =~= orig.subrange(
                            0,
                            k + 1,
                        ));
                    }
                },
            }
        }
        proof {
            assert(orig.subrange(0, orig.len() as int) =~= orig);
        }
        if pages.len() == 0 {
            return Err(CollectionError::NoPosts);
        }
        let sorted = sort_pages_desc(pages);
        Ok(Posts { pages: sorted })
    }

    pub fn len(&self) -> (n: usize)
        ensures
            n == self@.len(),
    {
        self.pages.len()
    }

    pub fn get(&self, i: usize) -> (p: &Page)
        requires
            i < self@.len(),
        ensures
            *p == self@[i as int],
    {
        &self.pages[i]
    }

    /// The posts in their iteration order, most recent first.
    pub fn into_vec(self) -> (v: Vec<Page>)
        ensures
            v@ == self@,
    {
        self.pages
    }
}

/// Insertion sort, by packed timestamp key, descending. The result holds
/// exactly the same pages.
fn sort_pages_desc(v: Vec<Page>) -> (r: Vec<Page>)
    requires
        pages_wf(v@),
    ensures
        r@.to_multiset() == v@.to_multiset(),
        r@.len() == v@.len(),
        sorted_desc(r@),
        pages_wf(r@),
{
    let mut src = v;
    let mut out: Vec<Page> = Vec::new();
    while src.len() > 0
        invariant
            out@.to_multiset().add(src@.to_multiset()) == v@.to_multiset(),
            out@.len() + src@.len() == v@.len(),
            sorted_desc(out@),
            pages_wf(out@),
            pages_wf(src@),
        decreases src@.len(),
    {
        let ghost src_before = src@;
        let ghost out_before = out@;
        assert(ts_wf(src_before.last().date));
        let p = match src.pop() {
            Some(p) => p,
            None => {
                proof {
                    assert(false);
                }
                unreached()
            },
        };
        proof {
            assert(src_before.drop_last() =~= src_before.remove(src_before.len() - 1));
            assert(src_before.to_multiset().contains(p));
            assert(src@.to_multiset() == src_before.to_multiset().remove(p));
        }
        let key: u64 = p.date.key();
        let mut j: usize = 0;
        while j < out.len() && out[j].date.key() >= key
            invariant
                0 <= j <= out@.len(),
                out@ == out_before,
                pages_wf(out@),
                key as int == key_spec(p.date),
                forall|i: int|
                    0 <= i < j ==> key_spec(#[trigger] out@[i].date) >= key_spec(p.date),
            decreases out@.len() - j,
        {
            j = j + 1;
        }
        assert(j < out@.len() ==> key_spec(out@[j as int].date) < key_spec(p.date));
        out.insert(j, p);
        proof {
            assert(out@ == out_before.insert(j as int, p));
            assert(out@.to_multiset() == out_before.to_multiset().insert(p));
            assert(sorted_desc(out@)) by {
                assert forall|a: int, b: int| 0 <= a <= b < out@.len() implies key_spec(
                    #[trigger] out@[a].date,
                ) >= key_spec(#[trigger] out@[b].date) by {
                    if a < j {
                        assert(out@[a] == out_before[a]);
                    }
                    if b < j {
                        assert(out@[b] == out_before[b]);
                    }
                    if a > j {
                        assert(out@[a] == out_before[a - 1]);
                    }
                    if b > j {
                        assert(out@[b] == out_before[b - 1]);
                    }
                }
            }
            assert(pages_wf(out@)) by {
                assert forall|i: int| 0 <= i < out@.len() implies ts_wf(
                    (#[trigger] out@[i]).date,
                ) by {
                    if i < j {
                        assert(out@[i] == out_before[i]);
                    } else if i > j {
                        assert(out@[i] == out_before[i - 1]);
                    }
                }
            }
            assert(out@.to_multiset().add(src@.to_multiset()) =~= v@.to_multiset());
        }
    }
    proof {
        assert(src@.to_multiset() =~= Multiset::<Page>::empty());
        assert(out@.to_multiset() =~= v@.to_multiset());
    }
    out
}

} // verus!
