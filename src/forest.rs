use vstd::prelude::*;
use rand::rngs::StdRng;

verus! {

#[verifier::external_type_specification]
#[verifier::external_body]
pub struct ExStdRng(StdRng);

/// Relies on rand's `Rng::gen_range` over `0..n`: a value below `n`
/// (it panics on an empty range, hence `n > 0`).
#[verifier::external_body]
fn gen_below(rng: &mut StdRng, n: u64) -> (r: u64)
    requires
        n > 0,
    ensures
        r < n,
{
    rand::Rng::gen_range(rng, 0..n)
}

/// Relies on rand's `SliceRandom::shuffle`: the elements are permuted in place.
#[verifier::external_body]
fn shuffle_indices(v: &mut Vec<usize>, rng: &mut StdRng)
    ensures
        final(v)@.to_multiset() == old(v)@.to_multiset(),
{
    rand::seq::SliceRandom::shuffle(v.as_mut_slice(), rng)
}

/// A node of an isolation tree. Feature values are fixed-point integers.
/// A node with children splits on `point[split_feature] < split_value`;
/// `size` is the number of training rows that reached the node.
pub struct IsolationTree {
    pub split_feature: Option<usize>,
    pub split_value: i64,
    pub left: Option<Box<IsolationTree>>,
    pub right: Option<Box<IsolationTree>>,
    pub size: usize,
}

/// Where a point's walk down a tree ends: edges traversed and the size of
/// the leaf reached.
#[derive(Clone, Copy, Debug, PartialEq, Eq, Structural)]
pub struct PathEnd {
    pub depth: usize,
    pub leaf_size: usize,
}

impl IsolationTree {
    pub open spec fn is_leaf(&self) -> bool {
        self.left is None && self.right is None
    }

    pub open spec fn height(&self) -> nat
        decreases self,
    {
        match (self.left, self.right) {
            (Some(l), Some(r)) => {
                let hl = l.height();
                let hr = r.height();
                1 + if hl > hr { hl } else { hr }
            },
            _ => 0,
        }
    }

    /// Each node is a leaf or has both children and a split feature below
    /// `dim`, and its size is the sum of its children's.
    pub open spec fn wf(&self, dim: nat) -> bool
        decreases self,
    {
        match (self.left, self.right) {
            (Some(l), Some(r)) => {
                &&& self.split_feature is Some
                &&& self.split_feature.unwrap() < dim
                &&& self.size == l.size + r.size
                &&& l.wf(dim)
                &&& r.wf(dim)
            },
            (None, None) => self.split_feature is None,
            _ => false,
        }
    }

    /// The walk of `point` from this node, entered at `depth`.
    pub open spec fn walk(&self, point: Seq<i64>, depth: nat) -> (nat, nat)
        decreases self,
    {
        match (self.left, self.right) {
            (Some(l), Some(r)) => {
                if point[self.split_feature.unwrap() as int] < self.split_value {
                    l.walk(point, depth + 1)
                } else {
                    r.walk(point, depth + 1)
                }
            },
            _ => (depth, self.size as nat),
        }
    }

    pub fn new() -> (r: Self)
        ensures
            r.is_leaf(),
            r.size == 0,
            r.wf(0),
    {
        IsolationTree { split_feature: None, split_value: 0, left: None, right: None, size: 0 }
    }
}

/// Every row of `data` has exactly `dim` columns.
pub open spec fn rectangular(data: Seq<Vec<i64>>, dim: nat) -> bool {
    forall|i: int| 0 <= i < data.len() ==> #[trigger] data[i]@.len() == dim
}

pub open spec fn valid_rows(rows: Seq<usize>, n: nat) -> bool {
    forall|i: int| 0 <= i < rows.len() ==> #[trigger] rows[i] < n
}

/// Column count of a matrix given as rows (0 when it has none).
pub open spec fn matrix_dim(data: Seq<Vec<i64>>) -> nat {
    if data.len() == 0 { 0 } else { data[0]@.len() }
}

pub open spec fn matrix_ok(data: Seq<Vec<i64>>) -> bool {
    rectangular(data, matrix_dim(data))
}

fn leaf(size: usize) -> (t: IsolationTree)
    ensures
        t.is_leaf(),
        t.split_feature is None,
        t.size == size,
        forall|d: nat| t.wf(d),
        t.height() == 0,
{
    IsolationTree { split_feature: None, split_value: 0, left: None, right: None, size }
}

/// Value of feature `f` in row `i` of `data`.
pub open spec fn cell(data: Seq<Vec<i64>>, i: usize, f: usize) -> i64 {
    data[i as int]@[f as int]
}

/// The rows of `rows`, in order, whose feature `f` is below `v` (when
/// `below`) or not below it (otherwise).
pub open spec fn rows_split(data: Seq<Vec<i64>>, rows: Seq<usize>, f: usize, v: i64, below: bool) -> Seq<usize>
    decreases rows.len(),
{
    if rows.len() == 0 {
        Seq::empty()
    } else {
        let rest = rows_split(data, rows.drop_last(), f, v, below);
        if (cell(data, rows.last(), f) < v) == below { rest.push(rows.last()) } else { rest }
    }
}

/// `v` lies in `[min, max)` of feature `f` over `rows`: some row's value is
/// at most `v` and some row's value is above it.
pub open spec fn threshold_in_range(data: Seq<Vec<i64>>, rows: Seq<usize>, f: usize, v: i64) -> bool {
    &&& exists|i: int| 0 <= i < rows.len() && cell(data, #[trigger] rows[i], f) <= v
    &&& exists|j: int| 0 <= j < rows.len() && cell(data, #[trigger] rows[j], f) > v
}

/// Feature `f` takes a single value over `rows`.
pub open spec fn constant_on(data: Seq<Vec<i64>>, rows: Seq<usize>, f: usize) -> bool {
    forall|i: int, j: int| 0 <= i < rows.len() && 0 <= j < rows.len()
        ==> cell(data, #[trigger] rows[i], f) == cell(data, #[trigger] rows[j], f)
}

impl IsolationTree {
    /// The tree is one that the isolation procedure can build on the rows
    /// `rows` of `data` (with `dim` features) within `depth` levels: a node
    /// holds as many rows as it was given; it splits only with two rows or
    /// more and depth left, on a feature below `dim` at a threshold in
    /// `[min, max)` of that feature over its rows, sending the rows below the
    /// threshold left and the others right; otherwise it is a leaf, which
    /// needs one row or none, no depth left, no features, or a feature that
    /// is constant over its rows.
    pub open spec fn built_from(&self, data: Seq<Vec<i64>>, rows: Seq<usize>, dim: nat, depth: nat) -> bool
        decreases self,
    {
        &&& self.size == rows.len()
        &&& match (self.left, self.right) {
            (Some(l), Some(r)) => {
                let f = self.split_feature.unwrap();
                &&& self.split_feature is Some
                &&& depth > 0
                &&& rows.len() >= 2
                &&& f < dim
                &&& threshold_in_range(data, rows, f, self.split_value)
                &&& l.built_from(data, rows_split(data, rows, f, self.split_value, true), dim, (depth - 1) as nat)
                &&& r.built_from(data, rows_split(data, rows, f, self.split_value, false), dim, (depth - 1) as nat)
            },
            (None, None) => self.split_feature is None && (rows.len() <= 1 || depth == 0 || dim == 0
                || exists|g: usize| g < dim && #[trigger] constant_on(data, rows, g)),
            _ => false,
        }
    }
}

impl IsolationTree {
    /// The tree is built, within `depth` levels, on rows of `data` drawn
    /// without replacement (distinct row indices).
    pub open spec fn built_from_sample(&self, data: Seq<Vec<i64>>, depth: nat) -> bool {
        exists|rows: Seq<usize>| {
            &&& rows.no_duplicates()
            &&& rows.len() == self.size
            &&& valid_rows(rows, data.len())
            &&& #[trigger] self.built_from(data, rows, matrix_dim(data), depth)
        }
    }
}

/// Builds a tree on the rows `rows` of `data`: at each node with more than
/// one row and depth left, a random feature and a random threshold in
/// `[min, max)` of that feature over the node's rows; rows below the
/// threshold go left. A constant feature ends the node as a leaf.
fn build(data: &Vec<Vec<i64>>, rows: &Vec<usize>, dim: usize, max_depth: usize, rng: &mut StdRng) -> (t: IsolationTree)
    requires
        rectangular(data@, dim as nat),
        valid_rows(rows@, data@.len()),
    ensures
        t.wf(dim as nat),
        t.size == rows@.len(),
        t.height() <= max_depth,
        rows@.len() <= 1 || max_depth == 0 ==> t.is_leaf(),
        t.built_from(data@, rows@, dim as nat, max_depth as nat),
    decreases max_depth,
{
    let n = rows.len();
    if n <= 1 || max_depth == 0 || dim == 0 {
        return leaf(n);
    }
    let f = gen_below(rng, dim as u64) as usize;
    let mut lo: i64 = data[rows[0]][f];
    let mut hi: i64 = lo;
    let ghost mut lo_at: int = 0;
    let ghost mut hi_at: int = 0;
    let mut i: usize = 1;
    while i < n
        invariant
            rectangular(data@, dim as nat),
            valid_rows(rows@, data@.len()),
            n == rows@.len(),
            f < dim,
            1 <= i <= n,
            lo <= hi,
            0 <= lo_at < i,
            0 <= hi_at < i,
            cell(data@, rows@[lo_at], f) == lo,
            cell(data@, rows@[hi_at], f) == hi,
            forall|k: int| 0 <= k < i ==> lo <= #[trigger] cell(data@, rows@[k], f) <= hi,
        decreases n - i,
    {
        let v = data[rows[i]][f];
        if v < lo {
            lo = v;
            proof {
                lo_at = i as int;
            }
        }
        if v > hi {
            hi = v;
            proof {
                hi_at = i as int;
            }
        }
        i = i + 1;
    }
    if lo == hi {
        let t = leaf(n);
        proof {
            assert(constant_on(data@, rows@, f));
        }
        return t;
    }
    let span = (hi as i128 - lo as i128) as u64;
    let threshold = (lo as i128 + gen_below(rng, span) as i128) as i64;
    proof {
        assert(cell(data@, rows@[lo_at], f) <= threshold);
        assert(cell(data@, rows@[hi_at], f) > threshold);
    }
    let mut left_rows: Vec<usize> = Vec::new();
    let mut right_rows: Vec<usize> = Vec::new();
    let mut j: usize = 0;
    while j < n
        invariant
            rectangular(data@, dim as nat),
            valid_rows(rows@, data@.len()),
            valid_rows(left_rows@, data@.len()),
            valid_rows(right_rows@, data@.len()),
            n == rows@.len(),
            f < dim,
            0 <= j <= n,
            left_rows@.len() + right_rows@.len() == j,
            left_rows@ == rows_split(data@, rows@.subrange(0, j as int), f, threshold, true),
            right_rows@ == rows_split(data@, rows@.subrange(0, j as int), f, threshold, false),
        decreases n - j,
    {
        let r = rows[j];
        proof {
            assert(rows@.subrange(0, j as int + 1).drop_last() =~= rows@.subrange(0, j as int));
        }
        if data[r][f] < threshold {
            left_rows.push(r);
        } else {
            right_rows.push(r);
        }
        j = j + 1;
    }
    assert(rows@.subrange(0, n as int) =~= rows@);
    let l = build(data, &left_rows, dim, max_depth - 1, rng);
    let r = build(data, &right_rows, dim, max_depth - 1, rng);
    IsolationTree {
        split_feature: Some(f),
        split_value: threshold,
        left: Some(Box::new(l)),
        right: Some(Box::new(r)),
        size: n,
    }
}

impl IsolationTree {
    /// Rebuilds this tree on all rows of `data`, splitting at most
    /// `max_depth` levels deep.
    pub fn fit(&mut self, data: &Vec<Vec<i64>>, max_depth: usize, rng: &mut StdRng)
        requires
            matrix_ok(data@),
        ensures
            final(self).wf(matrix_dim(data@)),
            final(self).size == data@.len(),
            final(self).height() <= max_depth,
            data@.len() <= 1 || max_depth == 0 ==> final(self).is_leaf(),
            final(self).built_from(data@, Seq::new(data@.len(), |i: int| i as usize), matrix_dim(data@), max_depth as nat),
    {
        let dim: usize = if data.len() == 0 { 0 } else { data[0].len() };
        let mut rows: Vec<usize> = Vec::new();
        let mut i: usize = 0;
        while i < data.len()
            invariant
                0 <= i <= data@.len(),
                rows@ == Seq::new(i as nat, |j: int| j as usize),
                valid_rows(rows@, data@.len()),
            decreases data@.len() - i,
        {
            rows.push(i);
            i = i + 1;
        }
        *self = build(data, &rows, dim, max_depth, rng);
    }

    /// Walks `point` down from this node, entered at `depth`.
    pub fn path_length(&self, point: &Vec<i64>, depth: usize) -> (r: PathEnd)
        requires
            self.wf(point@.len()),
            depth + self.height() <= usize::MAX,
        ensures
            (r.depth as nat, r.leaf_size as nat) == self.walk(point@, depth as nat),
        decreases self,
    {
        match (&self.left, &self.right) {
            (Some(l), Some(r)) => {
                let f = match self.split_feature {
                    Some(f) => f,
                    None => 0,
                };
                if point[f] < self.split_value {
                    l.path_length(point, depth + 1)
                } else {
                    r.path_length(point, depth + 1)
                }
            },
            _ => PathEnd { depth, leaf_size: self.size },
        }
    }
}

/// An ensemble of isolation trees, each built on its own random subsample
/// of at most `sample_size` rows. `n_features` is the column count of the
/// data it was last fitted on.
pub struct IsolationForestCustom {
    pub trees: Vec<IsolationTree>,
    pub n_trees: usize,
    pub max_depth: usize,
    pub sample_size: usize,
    pub n_features: usize,
}

impl IsolationForestCustom {
    pub open spec fn wf(&self) -> bool {
        forall|t: int| 0 <= t < self.trees@.len() ==> {
            &&& (#[trigger] self.trees@[t]).wf(self.n_features as nat)
            &&& self.trees@[t].height() <= self.max_depth
            &&& self.trees@[t].size <= self.sample_size
        }
    }

    pub fn new(n_trees: usize, max_depth: usize, sample_size: usize) -> (r: Self)
        ensures
            r.wf(),
            r.trees@.len() == 0,
            r.n_trees == n_trees,
            r.max_depth == max_depth,
            r.sample_size == sample_size,
            r.n_features == 0,
    {
        IsolationForestCustom { trees: Vec::new(), n_trees, max_depth, sample_size, n_features: 0 }
    }

    /// Replaces the trees by `n_trees` new ones, each built on
    /// `min(sample_size, rows)` rows drawn without replacement (distinct
    /// row indices).
    pub fn fit(&mut self, data: &Vec<Vec<i64>>, rng: &mut StdRng)
        requires
            matrix_ok(data@),
        ensures
            final(self).wf(),
            final(self).n_trees == old(self).n_trees,
            final(self).max_depth == old(self).max_depth,
            final(self).sample_size == old(self).sample_size,
            final(self).n_features == matrix_dim(data@),
            final(self).trees@.len() == old(self).n_trees,
            forall|t: int| 0 <= t < final(self).trees@.len() ==>
                (#[trigger] final(self).trees@[t]).size as int == if old(self).sample_size < data@.len() {
                    old(self).sample_size as int
                } else {
                    data@.len() as int
                },
            forall|t: int| 0 <= t < final(self).trees@.len() ==>
                (#[trigger] final(self).trees@[t]).built_from_sample(data@, old(self).max_depth as nat),
    {
        let dim: usize = if data.len() == 0 { 0 } else { data[0].len() };
        let n = data.len();
        let take: usize = if self.sample_size < n { self.sample_size } else { n };
        let mut trees: Vec<IsolationTree> = Vec::new();
        let ghost mut used: Seq<Seq<usize>> = Seq::empty();
        let mut k: usize = 0;
        while k < self.n_trees
            invariant
                matrix_ok(data@),
                dim == matrix_dim(data@),
                n == data@.len(),
                take <= n,
                take <= self.sample_size,
                *self == *old(self),
                0 <= k <= self.n_trees,
                trees@.len() == k,
                forall|t: int| 0 <= t < k ==> {
                    &&& (#[trigger] trees@[t]).wf(dim as nat)
                    &&& trees@[t].height() <= self.max_depth
                    &&& trees@[t].size == take
                },
                used.len() == k,
                forall|t: int| 0 <= t < k ==> {
                    &&& (#[trigger] used[t]).no_duplicates()
                    &&& used[t].len() == take
                    &&& valid_rows(used[t], data@.len())
                    &&& trees@[t].built_from(data@, used[t], dim as nat, self.max_depth as nat)
                },
            decreases self.n_trees - k,
        {
            let mut indices: Vec<usize> = Vec::new();
            let mut i: usize = 0;
            while i < n
                invariant
                    0 <= i <= n,
                    indices@ == Seq::new(i as nat, |j: int| j as usize),
                decreases n - i,
            {
                indices.push(i);
                i = i + 1;
            }
            let ghost before = indices@;
            shuffle_indices(&mut indices, rng);
            proof {
                before.to_multiset_ensures();
                indices@.to_multiset_ensures();
                assert forall|j: int| 0 <= j < indices@.len() implies #[trigger] indices@[j] < n by {
                    let x = indices@[j];
                    assert(indices@.contains(x));
                    assert(indices@.to_multiset().count(x) > 0);
                    assert(before.to_multiset().count(x) > 0);
                    assert(before.contains(x));
                    let m = choose|m: int| 0 <= m < before.len() && before[m] == indices@[j];
                }
                indices@.to_multiset_ensures();
                before.to_multiset_ensures();
                assert(indices@.len() == before.len());
                assert(before.no_duplicates());
                before.lemma_multiset_has_no_duplicates();
                assert forall|x: usize| indices@.to_multiset().contains(x) implies indices@.to_multiset().count(x) == 1 by {
                    assert(before.to_multiset().count(x) == indices@.to_multiset().count(x));
                }
                indices@.lemma_multiset_has_no_duplicates_conv();
            }
            let ghost shuffled = indices@;
            indices.truncate(take);
            proof {
                assert(indices@ == shuffled.subrange(0, take as int));
                assert(indices@.no_duplicates());
            }
            let tree = build(data, &indices, dim, self.max_depth, rng);
            let ghost rows_used = indices@;
            let ghost old_trees = trees@;
            trees.push(tree);
            proof {
                used = used.push(rows_used);
                assert forall|t: int| 0 <= t < k + 1 implies {
                    &&& (#[trigger] used[t]).no_duplicates()
                    &&& used[t].len() == take
                    &&& valid_rows(used[t], data@.len())
                    &&& trees@[t].built_from(data@, used[t], dim as nat, self.max_depth as nat)
                } by {
                    if t < k {
                        assert(old_trees[t] == trees@[t]);
                    }
                }
            }
            k = k + 1;
        }
        self.trees = trees;
        self.n_features = dim;
        proof {
            assert forall|t: int| 0 <= t < self.trees@.len() implies
                (#[trigger] self.trees@[t]).built_from_sample(data@, old(self).max_depth as nat) by {
                assert(used[t].no_duplicates());
                assert(self.trees@[t].built_from(data@, used[t], matrix_dim(data@), old(self).max_depth as nat));
            }
        }
    }

    /// Where `point` ends in each tree, in tree order.
    pub fn path_lengths(&self, point: &Vec<i64>) -> (r: Vec<PathEnd>)
        requires
            self.wf(),
            point@.len() == self.n_features,
            self.max_depth < usize::MAX,
        ensures
            r@.len() == self.trees@.len(),
            forall|t: int| 0 <= t < r@.len() ==>
                ((#[trigger] r@[t]).depth as nat, r@[t].leaf_size as nat) == self.trees@[t].walk(point@, 0),
    {
        let mut r: Vec<PathEnd> = Vec::new();
        let mut t: usize = 0;
        while t < self.trees.len()
            invariant
                self.wf(),
                point@.len() == self.n_features,
                0 <= t <= self.trees@.len(),
                r@.len() == t,
                forall|u: int| 0 <= u < t ==>
                    ((#[trigger] r@[u]).depth as nat, r@[u].leaf_size as nat) == self.trees@[u].walk(point@, 0),
            decreases self.trees@.len() - t,
        {
            let e = self.trees[t].path_length(point, 0);
            r.push(e);
            t = t + 1;
        }
        r
    }
}

/// A walk from the root of a well-formed tree ends at most its height deep,
/// in a leaf no larger than the tree.
pub proof fn lemma_walk_bounded(t: IsolationTree, point: Seq<i64>, depth: nat)
    requires
        t.wf(point.len()),
    ensures
        depth <= t.walk(point, depth).0 <= depth + t.height(),
        t.walk(point, depth).1 <= t.size,
    decreases t,
{
    match (t.left, t.right) {
        (Some(l), Some(r)) => {
            lemma_walk_bounded(*l, point, depth + 1);
            lemma_walk_bounded(*r, point, depth + 1);
        },
        _ => {},
    }
}

} // verus!
