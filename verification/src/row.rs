//! One line of text, indexed purely in grapheme-cluster units. The row owns
//! its clusters as an ordered sequence and keeps the cluster count cached;
//! every mutator refreshes the cache. Abstractly a row is a `Seq<Seq<char>>`:
//! the contents of its clusters, in order.

use vstd::prelude::*;

use crate::text::flat_seq;
use crate::text::grapheme_clusters;
use crate::text::lemma_flat_push;
use crate::text::push_char;
use crate::text::push_str_onto;
use crate::text::segment_graphemes;

verus! {

/// `v` clipped from above to `hi`.
pub open spec fn clip(v: int, hi: int) -> int {
    if v <= hi {
        v
    } else {
        hi
    }
}

/// What one cluster contributes to the rendered form of a row: a tab becomes
/// a single space, every other cluster stands as it is.
pub open spec fn render_cluster(g: Seq<char>) -> Seq<char> {
    if g == seq!['\t'] {
        seq![' ']
    } else {
        g
    }
}

/// The rendered form of a cluster sequence: clusters concatenated, tabs as
/// single spaces.
pub open spec fn rendered(gs: Seq<Seq<char>>) -> Seq<char>
    decreases gs.len(),
{
    if gs.len() == 0 {
        Seq::<char>::empty()
    } else {
        render_cluster(gs[0]) + rendered(gs.drop_first())
    }
}

/// `rendered` distributes over appending one cluster at the end.
pub proof fn lemma_rendered_push(gs: Seq<Seq<char>>, x: Seq<char>)
    ensures
        rendered(gs.push(x)) == rendered(gs) + render_cluster(x),
    decreases gs.len(),
{
    if gs.len() == 0 {
        assert(gs.push(x).drop_first() =~= Seq::<Seq<char>>::empty());
        assert(gs.push(x)[0] == x);
        assert(rendered(Seq::<Seq<char>>::empty()) == Seq::<char>::empty());
        assert(rendered(gs.push(x)) == render_cluster(gs.push(x)[0]) + rendered(
            gs.push(x).drop_first(),
        ));
        assert(rendered(gs.push(x)) =~= rendered(gs) + render_cluster(x));
    } else {
        let rest = gs.drop_first();
        assert(gs.push(x).drop_first() =~= rest.push(x));
        lemma_rendered_push(rest, x);
        assert(rendered(gs.push(x)) == render_cluster(gs.push(x)[0]) + rendered(rest.push(x)));
        assert(gs.push(x)[0] == gs[0]);
        assert(rendered(gs) == render_cluster(gs[0]) + rendered(rest));
        assert(render_cluster(gs[0]) + (rendered(rest) + render_cluster(x)) =~= (render_cluster(
            gs[0],
        ) + rendered(rest)) + render_cluster(x));
    }
}

/// One line of text as an ordered sequence of grapheme clusters, with the
/// cluster count cached in `len`.
pub struct Row {
    graphemes: Vec<String>,
    len: usize,
}

impl View for Row {
    type V = Seq<Seq<char>>;

    closed spec fn view(&self) -> Seq<Seq<char>> {
        self.graphemes@.map_values(|g: String| g@)
    }
}

impl Row {
    /// The cached length agrees with the number of clusters.
    pub closed spec fn wf(&self) -> bool {
        self.len == self.graphemes@.len()
    }

    /// The row's text: its clusters concatenated.
    pub open spec fn flat(&self) -> Seq<char> {
        flat_seq(self@)
    }

    /// An empty row.
    pub fn new() -> (r: Row)
        ensures
            r.wf(),
            r@ == Seq::<Seq<char>>::empty(),
    {
        let r = Row { graphemes: Vec::new(), len: 0 };
        proof {
            assert(r@ =~= Seq::<Seq<char>>::empty());
        }
        r
    }

    /// Builds a row from a line of text by grapheme segmentation; the row's
    /// clusters concatenate back to exactly that line.
    pub fn from(s: &str) -> (r: Row)
        ensures
            r.wf(),
            r@ == grapheme_clusters(s@),
            r.flat() == s@,
    {
        let graphemes = segment_graphemes(s);
        let len: usize = graphemes.len();
        Row { graphemes, len }
    }

    /// Length in grapheme clusters (the cached count).
    pub fn len(&self) -> (n: usize)
        requires
            self.wf(),
        ensures
            n == self@.len(),
    {
        self.len
    }

    pub fn is_empty(&self) -> (b: bool)
        requires
            self.wf(),
        ensures
            b == (self@.len() == 0),
    {
        self.len == 0
    }

    /// Refreshes the cached cluster count.
    fn update_len(&mut self)
        ensures
            final(self).graphemes == old(self).graphemes,
            final(self)@ == old(self)@,
            final(self).wf(),
    {
        self.len = self.graphemes.len();
    }

    /// Splices the character in as a cluster of its own, between clusters
    /// `at - 1` and `at`; an index at or beyond the end appends.
    pub fn insert(&mut self, at: usize, c: char)
        requires
            old(self).wf(),
        ensures
            final(self).wf(),
            final(self)@ == old(self)@.insert(clip(at as int, old(self)@.len() as int), seq![c]),
    {
        let i: usize = if at >= self.len {
            self.len
        } else {
            at
        };
        let mut g = String::new();
        push_char(&mut g, c);
        proof {
            assert(g@ =~= seq![c]);
        }
        self.graphemes.insert(i, g);
        self.update_len();
        proof {
            assert(self@ =~= old(self)@.insert(clip(at as int, old(self)@.len() as int), seq![c]));
        }
    }

    /// Removes the cluster at `at`; an index at or beyond the end is ignored.
    pub fn delete(&mut self, at: usize)
        requires
            old(self).wf(),
        ensures
            final(self).wf(),
            final(self)@ == if (at as int) < old(self)@.len() {
                old(self)@.remove(at as int)
            } else {
                old(self)@
            },
    {
        if at >= self.len {
            return ;
        }
        let _removed = self.graphemes.remove(at);
        self.update_len();
        proof {
            assert(self@ =~= old(self)@.remove(at as int));
        }
    }

    /// Concatenates `other`'s clusters onto this row (row join).
    pub fn append(&mut self, other: &Row)
        requires
            old(self).wf(),
            other.wf(),
        ensures
            final(self).wf(),
            final(self)@ == old(self)@ + other@,
    {
        let mut i: usize = 0;
        while i < other.graphemes.len()
            invariant
                i <= other.graphemes@.len(),
                self.graphemes@ == old(self).graphemes@ + other.graphemes@.subrange(0, i as int),
            decreases other.graphemes@.len() - i,
        {
            let g = other.graphemes[i].clone();
            self.graphemes.push(g);
            proof {
                assert(old(self).graphemes@ + other.graphemes@.subrange(0, i + 1) =~= (old(
                    self,
                ).graphemes@ + other.graphemes@.subrange(0, i as int)).push(other.graphemes@[i as int]));
            }
            i += 1;
        }
        proof {
            assert(other.graphemes@.subrange(0, other.graphemes@.len() as int) =~= other.graphemes@);
        }
        self.update_len();
        proof {
            assert(self@ =~= old(self)@ + other@);
        }
    }

    /// Truncates this row to its first `at` clusters and returns the rest as
    /// a new row; an index beyond the end splits off an empty row.
    pub fn split(&mut self, at: usize) -> (r: Row)
        requires
            old(self).wf(),
        ensures
            final(self).wf(),
            r.wf(),
            final(self)@ == old(self)@.subrange(0, clip(at as int, old(self)@.len() as int)),
            r@ == old(self)@.subrange(clip(at as int, old(self)@.len() as int), old(self)@.len() as int),
    {
        let cut: usize = if at <= self.len {
            at
        } else {
            self.len
        };
        let tail = self.graphemes.split_off(cut);
        self.update_len();
        let tail_len: usize = tail.len();
        let r = Row { graphemes: tail, len: tail_len };
        proof {
            let c = clip(at as int, old(self)@.len() as int);
            assert(self@ =~= old(self)@.subrange(0, c));
            assert(r@ =~= old(self)@.subrange(c, old(self)@.len() as int));
        }
        r
    }

    /// The clusters in `[start, end)`, both bounds clamped, concatenated for
    /// display with each tab cluster shown as a single space.
    pub fn render(&self, start: usize, end: usize) -> (res: String)
        requires
            self.wf(),
        ensures
            res@ == rendered(
                self@.subrange(
                    clip(start as int, clip(end as int, self@.len() as int)),
                    clip(end as int, self@.len() as int),
                ),
            ),
    {
        let end_c: usize = if end <= self.len {
            end
        } else {
            self.len
        };
        let start_c: usize = if start <= end_c {
            start
        } else {
            end_c
        };
        let tab: String = "\t".to_owned();
        proof {
            reveal_strlit("\t");
            assert(tab@ =~= seq!['\t']);
        }
        let mut res = String::new();
        let mut i: usize = start_c;
        proof {
            assert(self@.subrange(start_c as int, start_c as int) =~= Seq::<Seq<char>>::empty());
        }
        while i < end_c
            invariant
                start_c <= i <= end_c,
                end_c <= self@.len(),
                self.wf(),
                tab@ == seq!['\t'],
                res@ == rendered(self@.subrange(start_c as int, i as int)),
            decreases end_c - i,
        {
            proof {
                assert(self@.subrange(start_c as int, i + 1) =~= self@.subrange(
                    start_c as int,
                    i as int,
                ).push(self@[i as int]));
                lemma_rendered_push(self@.subrange(start_c as int, i as int), self@[i as int]);
            }
            let g = &self.graphemes[i];
            proof {
                assert(g@ == self@[i as int]);
            }
            if *g == tab {
                push_char(&mut res, ' ');
                proof {
                    assert(render_cluster(self@[i as int]) =~= seq![' ']);
                    assert(res@ =~= rendered(self@.subrange(start_c as int, i + 1)));
                }
            } else {
                push_str_onto(&mut res, g.as_str());
                proof {
                    assert(res@ =~= rendered(self@.subrange(start_c as int, i + 1)));
                }
            }
            i += 1;
        }
        res
    }

    /// The row's text as a string: clusters concatenated, unaltered. This is
    /// what a save writes back for this row.
    pub fn contents(&self) -> (res: String)
        requires
            self.wf(),
        ensures
            res@ == self.flat(),
    {
        let mut res = String::new();
        let mut i: usize = 0;
        proof {
            assert(self@.subrange(0, 0) =~= Seq::<Seq<char>>::empty());
        }
        while i < self.len
            invariant
                i <= self@.len(),
                self.wf(),
                res@ == flat_seq(self@.subrange(0, i as int)),
            decreases self@.len() - i,
        {
            proof {
                assert(self@.subrange(0, i + 1) =~= self@.subrange(0, i as int).push(
                    self@[i as int],
                ));
                lemma_flat_push(self@.subrange(0, i as int), self@[i as int]);
            }
            let g = &self.graphemes[i];
            proof {
                assert(g@ == self@[i as int]);
            }
            push_str_onto(&mut res, g.as_str());
            i += 1;
        }
        proof {
            assert(self@.subrange(0, self@.len() as int) =~= self@);
        }
        res
    }
}

/// Deleting the cluster at a valid index and inserting a single character
/// there again yields the row with that cluster replaced by the character;
/// in particular the rendered texts agree.
pub proof fn lemma_delete_insert_is_replace(gs: Seq<Seq<char>>, i: int, c: char)
    requires
        0 <= i < gs.len(),
    ensures
        gs.remove(i).insert(i, seq![c]) == gs.update(i, seq![c]),
        rendered(gs.remove(i).insert(i, seq![c])) == rendered(gs.update(i, seq![c])),
{
    assert(gs.remove(i).insert(i, seq![c]) =~= gs.update(i, seq![c]));
}

/// Splitting a row at any index and appending the two parts again restores
/// the original row exactly (split and append are inverses).
pub proof fn lemma_split_append_id(gs: Seq<Seq<char>>, at: int)
    requires
        0 <= at,
    ensures
        gs.subrange(0, clip(at, gs.len() as int)) + gs.subrange(
            clip(at, gs.len() as int),
            gs.len() as int,
        ) == gs,
{
    assert(gs.subrange(0, clip(at, gs.len() as int)) + gs.subrange(
        clip(at, gs.len() as int),
        gs.len() as int,
    ) =~= gs);
}

} // verus!
