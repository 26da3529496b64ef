//! Rows of code points grouped by grapheme cluster, with navigation that
//! treats a cluster boundary as a single step.
//!
//! Each cluster contributes one row per code point, and neighbouring clusters
//! are separated by one empty row.
use std::collections::HashSet;
use vstd::prelude::*;

verus! {

broadcast use vstd::std_specs::hash::group_hash_axioms;

/// The extended grapheme clusters of a text, in order.
pub uninterp spec fn graphemes_of(s: Seq<char>) -> Seq<Seq<char>>;

pub open spec fn cluster_views(r: Seq<Vec<char>>) -> Seq<Seq<char>> {
    r.map_values(|g: Vec<char>| g@)
}

/// Relies on `unic::segment::Graphemes`: it yields the extended grapheme
/// clusters of `s` as consecutive non-empty slices that together make up `s`.
#[verifier::external_body]
fn grapheme_clusters(s: &str) -> (r: Vec<Vec<char>>)
    ensures
        cluster_views(r@) == graphemes_of(s@),
        cluster_views(r@).flatten() == s@,
        forall|k: int| 0 <= k < r@.len() ==> (#[trigger] r@[k])@.len() > 0,
{
    unic::segment::Graphemes::new(s).map(|g| g.chars().collect()).collect()
}

/// The rows for a sequence of clusters: the code points of each cluster, with
/// one separator (`None`) between neighbouring clusters.
pub open spec fn rows_of(clusters: Seq<Seq<char>>) -> Seq<Option<char>>
    decreases clusters.len(),
{
    if clusters.len() == 0 {
        Seq::empty()
    } else {
        let init = clusters.drop_last();
        let sep: Seq<Option<char>> = if init.len() > 0 { seq![None] } else { Seq::empty() };
        rows_of(init) + sep + clusters.last().map_values(|c: char| Some(c))
    }
}

/// The row of the first code point of the last cluster.
pub open spec fn last_cluster_start(clusters: Seq<Seq<char>>) -> int {
    rows_of(clusters).len() - clusters.last().len()
}

/// The rows on which a cluster starts.
pub open spec fn start_rows(clusters: Seq<Seq<char>>) -> Set<int>
    decreases clusters.len(),
{
    if clusters.len() == 0 {
        Set::empty()
    } else {
        start_rows(clusters.drop_last()).insert(last_cluster_start(clusters))
    }
}

/// The rows on which a cluster ends.
pub open spec fn end_rows(clusters: Seq<Seq<char>>) -> Set<int>
    decreases clusters.len(),
{
    if clusters.len() == 0 {
        Set::empty()
    } else {
        end_rows(clusters.drop_last()).insert(rows_of(clusters).len() - 1)
    }
}

/// The row that a forward step leads to: one row on, or two from the last
/// row of a cluster (over the separator), never past the last row.
pub open spec fn next_row(len: nat, ends: Set<int>, sel: Option<int>) -> Option<int> {
    match sel {
        None => if len == 0 { None } else { Some(0) },
        Some(i) => if i + 1 >= len {
            Some(i)
        } else {
            let n = if ends.contains(i) { i + 2 } else { i + 1 };
            Some(if n < len { n } else { len - 1 })
        },
    }
}

/// The row that a backward step leads to: one row back, or two from the
/// first row of a cluster (over the separator), never before the first row.
pub open spec fn previous_row(len: nat, starts: Set<int>, sel: Option<int>) -> Option<int> {
    match sel {
        None => if len == 0 { None } else { Some(len - 1) },
        Some(i) => if i <= 0 {
            Some(i)
        } else {
            let p = if starts.contains(i) { i - 2 } else { i - 1 };
            Some(if p >= 0 { p } else { 0 })
        },
    }
}

pub open spec fn next_rows(len: nat, ends: Set<int>, sel: Option<int>, n: nat) -> Option<int>
    decreases n,
{
    if n == 0 {
        sel
    } else {
        next_row(len, ends, next_rows(len, ends, sel, (n - 1) as nat))
    }
}

pub open spec fn previous_rows(len: nat, starts: Set<int>, sel: Option<int>, n: nat) -> Option<int>
    decreases n,
{
    if n == 0 {
        sel
    } else {
        previous_row(len, starts, previous_rows(len, starts, sel, (n - 1) as nat))
    }
}

/// A set of row numbers, as integers.
pub open spec fn int_set(s: Set<usize>) -> Set<int> {
    s.map(|k: usize| k as int)
}

proof fn lemma_int_set_insert(s: Set<usize>, k: usize)
    ensures
        int_set(s.insert(k)) == int_set(s).insert(k as int),
{
    assert forall|y: int| #[trigger] int_set(s.insert(k)).contains(y) <==> int_set(s).insert(
        k as int,
    ).contains(y) by {
        if int_set(s.insert(k)).contains(y) {
            let x = choose|x: usize| s.insert(k).contains(x) && x as int == y;
            if x != k {
                assert(s.contains(x));
                assert(int_set(s).contains(x as int));
            }
        }
        if int_set(s).insert(k as int).contains(y) {
            if y == k as int {
                assert(s.insert(k).contains(k));
            } else {
                let x = choose|x: usize| s.contains(x) && x as int == y;
                assert(s.insert(k).contains(x));
            }
        }
    }
    assert(int_set(s.insert(k)) =~= int_set(s).insert(k as int));
}

pub open spec fn opt_int(o: Option<usize>) -> Option<int> {
    match o {
        Some(i) => Some(i as int),
        None => None,
    }
}

proof fn lemma_rows_prefix_len(cl: Seq<Seq<char>>, i: int, j: int)
    requires
        0 <= i <= j <= cl.len(),
    ensures
        rows_of(cl.take(i)).len() <= rows_of(cl.take(j)).len(),
    decreases j - i,
{
    if i < j {
        lemma_rows_prefix_len(cl, i, j - 1);
        assert(cl.take(j).drop_last() =~= cl.take(j - 1));
    }
}

/// When every cluster is a single code point, the rows alternate between the
/// characters and separators: character `k` of the text stands on row `2k`
/// and every odd row is a separator. So a text of at most one character has
/// exactly one row per character and no separator row.
pub proof fn lemma_single_code_point_rows(clusters: Seq<Seq<char>>)
    requires
        forall|k: int| 0 <= k < clusters.len() ==> (#[trigger] clusters[k]).len() == 1,
    ensures
        clusters.flatten().len() == clusters.len(),
        clusters.len() > 0 ==> rows_of(clusters).len() == 2 * clusters.len() - 1,
        forall|k: int|
            0 <= k < clusters.len() ==> rows_of(clusters)[2 * k] == Some(
                #[trigger] clusters.flatten()[k],
            ),
        forall|k: int|
            0 <= k < clusters.len() - 1 ==> (#[trigger] rows_of(clusters)[2 * k + 1]).is_none(),
        clusters.len() <= 1 ==> rows_of(clusters) == clusters.flatten().map_values(
            |c: char| Some(c),
        ),
    decreases clusters.len(),
{
    if clusters.len() > 0 {
        let init = clusters.drop_last();
        let last = clusters.last();
        assert(clusters =~= init.push(last));
        init.lemma_flatten_push(last);
        assert(forall|k: int| 0 <= k < init.len() ==> init[k] == clusters[k]);
        lemma_single_code_point_rows(init);
        let r = rows_of(clusters);
        let ri = rows_of(init);
        let f = clusters.flatten();
        assert(f =~= init.flatten() + last);
        assert(last.len() == 1);
        if init.len() == 0 {
            assert(ri.len() == 0);
            assert(r =~= last.map_values(|c: char| Some(c)));
            assert(init.flatten().len() == 0);
            assert(f =~= last);
            assert(r =~= f.map_values(|c: char| Some(c)));
        } else {
            assert(r =~= ri + seq![None] + last.map_values(|c: char| Some(c)));
            assert forall|k: int| 0 <= k < clusters.len() implies r[2 * k] == Some(
                #[trigger] f[k],
            ) by {
                if k < init.len() {
                    assert(r[2 * k] == ri[2 * k]);
                    assert(f[k] == init.flatten()[k]);
                } else {
                    assert(k == init.len());
                    assert(f[k] == last[0]);
                }
            }
            assert forall|k: int| 0 <= k < clusters.len() - 1 implies (#[trigger] r[2 * k
                + 1]).is_none() by {
                if k < init.len() - 1 {
                    assert(r[2 * k + 1] == ri[2 * k + 1]);
                } else {
                    assert(2 * k + 1 == ri.len());
                }
            }
        }
    }
}

/// One row: a code point, or `None` for the separator between two clusters.
#[derive(Clone, Copy, Debug, PartialEq, Eq)]
pub struct GraphemeRow {
    pub code_point: Option<char>,
}

impl GraphemeRow {
    pub fn new(chr: char) -> (r: Self)
        ensures
            r.code_point == Some(chr),
    {
        GraphemeRow { code_point: Some(chr) }
    }

    pub fn separator() -> (r: Self)
        ensures
            r.code_point.is_none(),
    {
        GraphemeRow { code_point: None }
    }
}

pub open spec fn row_views(rows: Seq<GraphemeRow>) -> Seq<Option<char>> {
    rows.map_values(|r: GraphemeRow| r.code_point)
}

/// The code point on the selected row, if a code point row is selected.
pub open spec fn selected_code_point(g: StatefulGraphemes) -> Option<char> {
    match g.selected_row() {
        Some(i) => if 0 <= i < g.rows_view().len() {
            g.rows_view()[i]
        } else {
            None
        },
        None => None,
    }
}

/// Which row of a list is selected, if any.
#[derive(Clone, Copy, Debug, PartialEq, Eq)]
pub struct ListState {
    pub selected: Option<usize>,
}

impl ListState {
    pub fn new() -> (r: Self)
        ensures
            r.selected.is_none(),
    {
        ListState { selected: None }
    }

    pub fn selected(&self) -> (r: Option<usize>)
        ensures
            r == self.selected,
    {
        self.selected
    }

    pub fn select(&mut self, index: Option<usize>)
        ensures
            final(self).selected == index,
    {
        self.selected = index;
    }
}

pub struct StatefulGraphemes {
    pub state: ListState,
    pub rows: Vec<GraphemeRow>,
    grapheme_start_row_indices: HashSet<usize>,
    grapheme_end_row_indices: HashSet<usize>,
}

impl StatefulGraphemes {
    /// What each row holds: a code point, or `None` for a separator.
    pub closed spec fn rows_view(&self) -> Seq<Option<char>> {
        row_views(self.rows@)
    }

    /// The selected row, if any.
    pub closed spec fn selected_row(&self) -> Option<int> {
        opt_int(self.state.selected)
    }

    /// The rows on which a cluster starts.
    pub closed spec fn starts(&self) -> Set<int> {
        int_set(self.grapheme_start_row_indices@)
    }

    /// The rows on which a cluster ends.
    pub closed spec fn ends(&self) -> Set<int> {
        int_set(self.grapheme_end_row_indices@)
    }

    /// Segments `s` into grapheme clusters and lays out their rows; the first
    /// row is selected when there is one.
    pub fn new(s: &str) -> (r: Self)
        ensures
            r.rows_view() == rows_of(graphemes_of(s@)),
            r.starts() == start_rows(graphemes_of(s@)),
            r.ends() == end_rows(graphemes_of(s@)),
            r.selected_row() == (if r.rows_view().len() > 0 { Some(0int) } else { None }),
    {
        let clusters = grapheme_clusters(s);
        Self::from_clusters(&clusters)
    }

    /// Lays out the rows of the given clusters; the first row is selected
    /// when there is one.
    pub fn from_clusters(clusters: &Vec<Vec<char>>) -> (r: Self)
        requires
            forall|k: int| 0 <= k < clusters@.len() ==> (#[trigger] clusters@[k])@.len() > 0,
        ensures
            r.rows_view() == rows_of(cluster_views(clusters@)),
            r.starts() == start_rows(cluster_views(clusters@)),
            r.ends() == end_rows(cluster_views(clusters@)),
            r.selected_row() == (if r.rows_view().len() > 0 { Some(0int) } else { None }),
    {
        let ghost cl = cluster_views(clusters@);
        let mut rows: Vec<GraphemeRow> = Vec::new();
        let mut starts: HashSet<usize> = HashSet::new();
        let mut ends: HashSet<usize> = HashSet::new();
        let mut i: usize = 0;
        while i < clusters.len()
            invariant
                0 <= i <= clusters@.len(),
                cl == cluster_views(clusters@),
                forall|k: int| 0 <= k < clusters@.len() ==> (#[trigger] clusters@[k])@.len() > 0,
                row_views(rows@) == rows_of(cl.take(i as int)),
                int_set(starts@) == start_rows(cl.take(i as int)),
                int_set(ends@) == end_rows(cl.take(i as int)),
            decreases clusters@.len() - i,
        {
            let cluster = &clusters[i];
            let ghost prev = cl.take(i as int);
            let ghost next = cl.take(i + 1);
            proof {
                assert(next.drop_last() =~= prev);
                assert(next.last() == cluster@);
            }
            if i > 0 {
                rows.push(GraphemeRow::separator());
            }
            let start = rows.len();
            let ghost base = rows@;
            let mut j: usize = 0;
            while j < cluster.len()
                invariant
                    0 <= j <= cluster@.len(),
                    rows@.len() == base.len() + j,
                    rows_of(next).len() == base.len() + cluster@.len(),
                    row_views(rows@) == row_views(base) + cluster@.take(j as int).map_values(
                        |c: char| Some(c),
                    ),
                decreases cluster@.len() - j,
            {
                let ghost pre = rows@;
                rows.push(GraphemeRow::new(cluster[j]));
                proof {
                    assert(row_views(rows@) =~= row_views(pre).push(Some(cluster@[j as int])));
                    assert(cluster@.take(j + 1) =~= cluster@.take(j as int).push(cluster@[j as int]));
                    assert(row_views(rows@) =~= row_views(base) + cluster@.take(j + 1).map_values(
                        |c: char| Some(c),
                    ));
                }
                j = j + 1;
            }
            let end = rows.len() - 1;
            let ghost old_starts = starts@;
            let ghost old_ends = ends@;
            starts.insert(start);
            ends.insert(end);
            proof {
                assert(cluster@.take(cluster@.len() as int) =~= cluster@);
                assert(row_views(rows@) =~= rows_of(next));
                lemma_int_set_insert(old_starts, start);
                lemma_int_set_insert(old_ends, end);
            }
            i = i + 1;
        }
        let state = ListState { selected: if rows.len() > 0 { Some(0) } else { None } };
        proof {
            assert(cl.take(clusters@.len() as int) =~= cl);
        }
        StatefulGraphemes {
            state,
            rows,
            grapheme_start_row_indices: starts,
            grapheme_end_row_indices: ends,
        }
    }
    /// The rows on which a cluster starts.
    pub fn grapheme_start_row_indices(&self) -> (r: &HashSet<usize>)
        ensures
            int_set(r@) == self.starts(),
    {
        &self.grapheme_start_row_indices
    }

    /// The rows on which a cluster ends.
    pub fn grapheme_end_row_indices(&self) -> (r: &HashSet<usize>)
        ensures
            int_set(r@) == self.ends(),
    {
        &self.grapheme_end_row_indices
    }

    /// The code point on the selected row, if a code point row is selected.
    pub fn selected_code_point(&self) -> (r: Option<char>)
        ensures
            r == selected_code_point(*self),
    {
        match self.state.selected {
            Some(i) => if i < self.rows.len() {
                self.rows[i].code_point
            } else {
                None
            },
            None => None,
        }
    }

    pub fn selected(&self) -> (r: Option<usize>)
        ensures
            opt_int(r) == self.selected_row(),
    {
        self.state.selected
    }

    pub fn select(&mut self, index: Option<usize>)
        ensures
            final(self).selected_row() == opt_int(index),
            final(self).rows_view() == old(self).rows_view(),
            final(self).starts() == old(self).starts(),
            final(self).ends() == old(self).ends(),
    {
        self.state.select(index);
    }

    /// Moves one row down, stepping over the separator after a cluster.
    pub fn select_next(&mut self)
        ensures
            final(self).selected_row() == next_row(
                old(self).rows_view().len(),
                old(self).ends(),
                old(self).selected_row(),
            ),
            final(self).rows_view() == old(self).rows_view(),
            final(self).starts() == old(self).starts(),
            final(self).ends() == old(self).ends(),
    {
        match self.state.selected {
            None => {
                if self.rows.len() == 0 {
                    return ;
                }
                self.state.select(Some(0));
            },
            Some(selected) => {
                if self.rows.len() == 0 || selected >= self.rows.len() - 1 {
                    return ;
                }
                let mut next = selected + 1;
                if self.grapheme_end_row_indices.contains(&selected) {
                    proof {
                        assert(int_set(self.grapheme_end_row_indices@).contains(selected as int));
                    }
                    next = next + 1;
                } else {
                    proof {
                        if int_set(self.grapheme_end_row_indices@).contains(selected as int) {
                            let x = choose|x: usize|
                                self.grapheme_end_row_indices@.contains(x) && x as int
                                    == selected as int;
                            assert(x == selected);
                        }
                    }
                }
                if next >= self.rows.len() {
                    next = self.rows.len() - 1;
                }
                self.state.select(Some(next));
            },
        }
    }

    /// Applies `select_next` `n` times.
    pub fn select_next_n(&mut self, n: usize)
        ensures
            final(self).selected_row() == next_rows(
                old(self).rows_view().len(),
                old(self).ends(),
                old(self).selected_row(),
                n as nat,
            ),
            final(self).rows_view() == old(self).rows_view(),
            final(self).starts() == old(self).starts(),
            final(self).ends() == old(self).ends(),
    {
        let mut k: usize = 0;
        while k < n
            invariant
                0 <= k <= n,
                self.selected_row() == next_rows(
                    old(self).rows_view().len(),
                    old(self).ends(),
                    old(self).selected_row(),
                    k as nat,
                ),
                self.rows_view() == old(self).rows_view(),
                self.starts() == old(self).starts(),
                self.ends() == old(self).ends(),
            decreases n - k,
        {
            self.select_next();
            k = k + 1;
        }
    }

    /// Moves one row up, stepping over the separator before a cluster.
    pub fn select_previous(&mut self)
        ensures
            final(self).selected_row() == previous_row(
                old(self).rows_view().len(),
                old(self).starts(),
                old(self).selected_row(),
            ),
            final(self).rows_view() == old(self).rows_view(),
            final(self).starts() == old(self).starts(),
            final(self).ends() == old(self).ends(),
    {
        match self.state.selected {
            None => {
                if self.rows.len() == 0 {
                    return ;
                }
                let last = self.rows.len() - 1;
                self.state.select(Some(last));
            },
            Some(selected) => {
                if selected == 0 {
                    return ;
                }
                let mut previous = selected - 1;
                if self.grapheme_start_row_indices.contains(&selected) {
                    proof {
                        assert(int_set(self.grapheme_start_row_indices@).contains(selected as int));
                    }
                    if previous > 0 {
                        previous = previous - 1;
                    }
                } else {
                    proof {
                        if int_set(self.grapheme_start_row_indices@).contains(selected as int) {
                            let x = choose|x: usize|
                                self.grapheme_start_row_indices@.contains(x) && x as int
                                    == selected as int;
                            assert(x == selected);
                        }
                    }
                }
                self.state.select(Some(previous));
            },
        }
    }

    /// Applies `select_previous` `n` times.
    pub fn select_previous_n(&mut self, n: usize)
        ensures
            final(self).selected_row() == previous_rows(
                old(self).rows_view().len(),
                old(self).starts(),
                old(self).selected_row(),
                n as nat,
            ),
            final(self).rows_view() == old(self).rows_view(),
            final(self).starts() == old(self).starts(),
            final(self).ends() == old(self).ends(),
    {
        let mut k: usize = 0;
        while k < n
            invariant
                0 <= k <= n,
                self.selected_row() == previous_rows(
                    old(self).rows_view().len(),
                    old(self).starts(),
                    old(self).selected_row(),
                    k as nat,
                ),
                self.rows_view() == old(self).rows_view(),
                self.starts() == old(self).starts(),
                self.ends() == old(self).ends(),
            decreases n - k,
        {
            self.select_previous();
            k = k + 1;
        }
    }
}

} // verus!
