//! The sketch: an ordered arena of primitives and constraints, and the flat
//! parameter/gradient vectors a solver works on.
//!
//! Points are registered first and own two slots each in the flat vector;
//! lines reference earlier point entries and own none, so the primitive
//! graph is acyclic by construction. `get_data`, `set_data` and
//! `read_gradient` all use one and the same insertion ordering, which is
//! what lets a solver treat the sketch as a stable finite-dimensional
//! optimization problem.

use vstd::prelude::*;

use crate::constraints::ConstraintType;
use crate::primitives::Point2;
use crate::primitives::SketchPrimitives;

verus! {

/// Errors a sketch reports; the sketch is left unchanged by every one.
#[derive(Clone, Copy, Debug, PartialEq, Eq)]
pub enum SketchError {
    /// A primitive or constraint referenced an arena entry that does not
    /// exist or has the wrong kind.
    InvalidReference,
    /// `set_data` was handed a vector whose length differs from the flat
    /// parameter vector's.
    DataLengthMismatch,
}

/// The flat parameter vector of an arena prefix: each primitive's owned
/// parameter words, concatenated in insertion order.
pub open spec fn flat_data(ps: Seq<SketchPrimitives>) -> Seq<u64>
    decreases ps.len(),
{
    if ps.len() == 0 {
        Seq::empty()
    } else {
        flat_data(ps.drop_last()) + ps.last().owned_data()
    }
}

/// The flat gradient vector, shaped and ordered exactly like `flat_data`.
pub open spec fn flat_gradient(ps: Seq<SketchPrimitives>) -> Seq<u64>
    decreases ps.len(),
{
    if ps.len() == 0 {
        Seq::empty()
    } else {
        flat_gradient(ps.drop_last()) + ps.last().owned_gradient()
    }
}

/// Offset of primitive `i`'s slot range in the flat vector: the number of
/// words owned by the primitives registered before it.
pub open spec fn data_offset(ps: Seq<SketchPrimitives>, i: int) -> int {
    flat_data(ps.take(i)).len() as int
}

/// The primitive `p` with its owned parameter words replaced by `d` and
/// its gradient words kept.
pub open spec fn with_data(p: SketchPrimitives, d: Seq<u64>) -> SketchPrimitives {
    match p {
        SketchPrimitives::Point2(pt) => SketchPrimitives::Point2(
            Point2 { x: d[0], y: d[1], gx: pt.gx, gy: pt.gy },
        ),
        SketchPrimitives::Line(l) => SketchPrimitives::Line(l),
    }
}

/// The primitive `p` with its gradient accumulator words zeroed and its
/// parameter words kept.
pub open spec fn with_zero_gradient(p: SketchPrimitives) -> SketchPrimitives {
    match p {
        SketchPrimitives::Point2(pt) => SketchPrimitives::Point2(
            Point2 { x: pt.x, y: pt.y, gx: 0, gy: 0 },
        ),
        SketchPrimitives::Line(l) => SketchPrimitives::Line(l),
    }
}

/// The primitive `p` with its gradient accumulator words replaced; a
/// composite owns no accumulators and is unchanged.
pub open spec fn with_gradient(p: SketchPrimitives, gx: u64, gy: u64) -> SketchPrimitives {
    match p {
        SketchPrimitives::Point2(pt) => SketchPrimitives::Point2(
            Point2 { x: pt.x, y: pt.y, gx, gy },
        ),
        SketchPrimitives::Line(l) => SketchPrimitives::Line(l),
    }
}

/// Two primitives of the same kind, with identical references; only the
/// scalar words of a point may differ.
pub open spec fn same_shape(p: SketchPrimitives, q: SketchPrimitives) -> bool {
    match (p, q) {
        (SketchPrimitives::Point2(_), SketchPrimitives::Point2(_)) => true,
        (SketchPrimitives::Line(l1), SketchPrimitives::Line(l2)) => l1 == l2,
        _ => false,
    }
}

/// A sequence of `n` zero words.
pub open spec fn zero_words(n: nat) -> Seq<u64> {
    Seq::new(n, |t: int| 0u64)
}

/// Peeling one primitive off the front of a flat-vector prefix.
proof fn lemma_flat_data_take_step(ps: Seq<SketchPrimitives>, i: int)
    requires
        0 <= i < ps.len(),
    ensures
        flat_data(ps.take(i + 1)) == flat_data(ps.take(i)) + ps[i].owned_data(),
{
    assert(ps.take(i + 1).drop_last() =~= ps.take(i));
    assert(ps.take(i + 1).last() == ps[i]);
}

/// Gradient analogue of `lemma_flat_data_take_step`.
proof fn lemma_flat_gradient_take_step(ps: Seq<SketchPrimitives>, i: int)
    requires
        0 <= i < ps.len(),
    ensures
        flat_gradient(ps.take(i + 1)) == flat_gradient(ps.take(i)) + ps[i].owned_gradient(),
{
    assert(ps.take(i + 1).drop_last() =~= ps.take(i));
    assert(ps.take(i + 1).last() == ps[i]);
}

/// Slot offsets grow with the arena index.
proof fn lemma_offsets_monotone(ps: Seq<SketchPrimitives>, i: int, j: int)
    requires
        0 <= i <= j <= ps.len(),
    ensures
        flat_data(ps.take(i)).len() <= flat_data(ps.take(j)).len(),
    decreases j - i,
{
    if i < j {
        lemma_offsets_monotone(ps, i, j - 1);
        lemma_flat_data_take_step(ps, j - 1);
    }
}

/// The flat vector of an arena prefix is the prefix of the flat vector.
proof fn lemma_flat_data_prefix(ps: Seq<SketchPrimitives>, j: int)
    requires
        0 <= j <= ps.len(),
    ensures
        data_offset(ps, j) <= flat_data(ps).len(),
        flat_data(ps.take(j)) == flat_data(ps).take(data_offset(ps, j)),
    decreases ps.len() - j,
{
    if j == ps.len() {
        assert(ps.take(j) =~= ps);
        assert(flat_data(ps).take(data_offset(ps, j)) =~= flat_data(ps));
    } else {
        lemma_flat_data_prefix(ps, j + 1);
        lemma_flat_data_take_step(ps, j);
        assert(flat_data(ps.take(j)) =~= flat_data(ps).take(data_offset(ps, j)));
    }
}

/// Each primitive owns a stable contiguous range of the flat parameter
/// vector: the words between its offset and its offset plus its owned
/// count are exactly its own, whatever else the sketch holds.
pub proof fn lemma_primitive_range(ps: Seq<SketchPrimitives>, i: int)
    requires
        0 <= i < ps.len(),
    ensures
        0 <= data_offset(ps, i),
        data_offset(ps, i) + ps[i].owned_data().len() <= flat_data(ps).len(),
        flat_data(ps).subrange(
            data_offset(ps, i),
            data_offset(ps, i) + ps[i].owned_data().len(),
        ) == ps[i].owned_data(),
{
    lemma_flat_data_take_step(ps, i);
    lemma_flat_data_prefix(ps, i);
    lemma_flat_data_prefix(ps, i + 1);
    let off = data_offset(ps, i);
    let k = ps[i].owned_data().len() as int;
    assert(data_offset(ps, i + 1) == off + k);
    assert forall|t: int| 0 <= t < k implies flat_data(ps)[off + t] == ps[i].owned_data()[t] by {
        assert(flat_data(ps).take(off + k)[off + t] == flat_data(ps)[off + t]);
        assert(flat_data(ps).take(off + k) == flat_data(ps.take(i)) + ps[i].owned_data());
        assert((flat_data(ps.take(i)) + ps[i].owned_data())[off + t] == ps[i].owned_data()[t]);
    }
    assert(flat_data(ps).subrange(off, off + k) =~= ps[i].owned_data());
}

/// The gradient vector is shaped exactly like the parameter vector: every
/// arena prefix owns the same number of words in both, so the two vectors
/// index the same slots in the same order.
pub proof fn lemma_gradient_data_aligned(ps: Seq<SketchPrimitives>, j: int)
    requires
        0 <= j <= ps.len(),
    ensures
        flat_gradient(ps.take(j)).len() == flat_data(ps.take(j)).len(),
    decreases j,
{
    if j > 0 {
        lemma_gradient_data_aligned(ps, j - 1);
        lemma_flat_data_take_step(ps, j - 1);
        lemma_flat_gradient_take_step(ps, j - 1);
    }
}

/// Whole-vector corollary of `lemma_gradient_data_aligned`.
pub proof fn lemma_gradient_data_same_length(ps: Seq<SketchPrimitives>)
    ensures
        flat_gradient(ps).len() == flat_data(ps).len(),
{
    lemma_gradient_data_aligned(ps, ps.len() as int);
    assert(ps.take(ps.len() as int) =~= ps);
}

/// Arenas whose entries own the same parameter words flatten identically.
proof fn lemma_flat_data_congruence(ps: Seq<SketchPrimitives>, qs: Seq<SketchPrimitives>)
    requires
        ps.len() == qs.len(),
        forall|i: int| 0 <= i < ps.len() ==> ps[i].owned_data() == qs[i].owned_data(),
    ensures
        flat_data(ps) == flat_data(qs),
    decreases ps.len(),
{
    if ps.len() > 0 {
        assert forall|i: int| 0 <= i < ps.drop_last().len() implies ps.drop_last()[i].owned_data()
            == qs.drop_last()[i].owned_data() by {
            assert(ps[i].owned_data() == qs[i].owned_data());
        }
        lemma_flat_data_congruence(ps.drop_last(), qs.drop_last());
        assert(ps.last().owned_data() == qs.last().owned_data());
    }
}

/// Writing a vector of the right length into the arena slot by slot
/// reproduces exactly that vector as the new flat data, and leaves the
/// flat gradient as it was.
proof fn lemma_flat_data_after_write(
    ps: Seq<SketchPrimitives>,
    qs: Seq<SketchPrimitives>,
    d: Seq<u64>,
)
    requires
        ps.len() == qs.len(),
        d.len() == flat_data(ps).len(),
        forall|k: int|
            0 <= k < ps.len() ==> qs[k] == with_data(
                ps[k],
                d.subrange(data_offset(ps, k), data_offset(ps, k) + ps[k].owned_data().len()),
            ),
    ensures
        flat_data(qs) == d,
        flat_gradient(qs) == flat_gradient(ps),
    decreases ps.len(),
{
    if ps.len() == 0 {
        assert(flat_data(qs) =~= d);
    } else {
        let m = ps.len() - 1;
        let ps1 = ps.drop_last();
        let qs1 = qs.drop_last();
        lemma_flat_data_take_step(ps, m as int);
        assert(ps.take(m as int) =~= ps1);
        assert(ps.take(ps.len() as int) =~= ps);
        lemma_flat_data_prefix(ps, m as int);
        let off = data_offset(ps, m as int);
        let d1 = d.take(off);
        assert(d1.len() == flat_data(ps1).len());
        assert forall|k: int| 0 <= k < ps1.len() implies qs1[k] == with_data(
            ps1[k],
            d1.subrange(data_offset(ps1, k), data_offset(ps1, k) + ps1[k].owned_data().len()),
        ) by {
            assert(ps1.take(k) =~= ps.take(k));
            assert(ps1.take(k + 1) =~= ps.take(k + 1));
            lemma_flat_data_take_step(ps, k);
            lemma_offsets_monotone(ps, k + 1, m as int);
            assert(d1.subrange(data_offset(ps, k), data_offset(ps, k) + ps[k].owned_data().len())
                =~= d.subrange(data_offset(ps, k), data_offset(ps, k) + ps[k].owned_data().len()));
            assert(qs[k] == with_data(
                ps[k],
                d.subrange(data_offset(ps, k), data_offset(ps, k) + ps[k].owned_data().len()),
            ));
        }
        lemma_flat_data_after_write(ps1, qs1, d1);
        let lastsub = d.subrange(off, off + ps[m as int].owned_data().len());
        assert(qs[m as int] == with_data(ps[m as int], lastsub));
        assert(off + ps[m as int].owned_data().len() == d.len());
        assert(qs.last().owned_data() =~= lastsub);
        assert(qs.last().owned_gradient() == ps.last().owned_gradient());
        assert(flat_data(qs) == flat_data(qs1) + qs.last().owned_data());
        assert(flat_data(qs) =~= d);
        assert(flat_gradient(qs) == flat_gradient(qs1) + qs.last().owned_gradient());
        assert(flat_gradient(ps) == flat_gradient(ps1) + ps.last().owned_gradient());
    }
}

/// Zeroing every accumulator leaves the parameter vector alone and makes
/// the gradient vector all zero words.
proof fn lemma_flat_gradient_after_zero(ps: Seq<SketchPrimitives>, qs: Seq<SketchPrimitives>)
    requires
        ps.len() == qs.len(),
        forall|k: int| 0 <= k < ps.len() ==> qs[k] == with_zero_gradient(ps[k]),
    ensures
        flat_gradient(qs) == zero_words(flat_gradient(ps).len()),
    decreases ps.len(),
{
    if ps.len() == 0 {
        assert(flat_gradient(qs) =~= zero_words(flat_gradient(ps).len()));
    } else {
        let ps1 = ps.drop_last();
        let qs1 = qs.drop_last();
        assert forall|k: int| 0 <= k < ps1.len() implies qs1[k] == with_zero_gradient(
            ps1[k],
        ) by {
            assert(qs[k] == with_zero_gradient(ps[k]));
        }
        lemma_flat_gradient_after_zero(ps1, qs1);
        assert(qs.last() == with_zero_gradient(ps.last()));
        assert(flat_gradient(qs) =~= zero_words(flat_gradient(ps).len()));
    }
}

/// Well-formedness and constraint validity depend only on the shape of the
/// arena entries, never on the scalar words a point holds.
proof fn lemma_wf_transfer(
    ps: Seq<SketchPrimitives>,
    qs: Seq<SketchPrimitives>,
    cs: Seq<ConstraintType>,
)
    requires
        ps.len() == qs.len(),
        forall|i: int| 0 <= i < ps.len() ==> same_shape(ps[i], qs[i]),
        forall|i: int| 0 <= i < ps.len() ==> prim_wf(ps, i),
        forall|j: int| 0 <= j < cs.len() ==> constr_wf(ps, cs[j]),
    ensures
        forall|i: int| 0 <= i < qs.len() ==> prim_wf(qs, i),
        forall|j: int| 0 <= j < cs.len() ==> constr_wf(qs, cs[j]),
{
    assert forall|i: int| 0 <= i < qs.len() implies prim_wf(qs, i) by {
        assert(prim_wf(ps, i));
        assert(same_shape(ps[i], qs[i]));
        match qs[i] {
            SketchPrimitives::Point2(_) => {},
            SketchPrimitives::Line(l) => {
                assert(same_shape(ps[l.start as int], qs[l.start as int]));
                assert(same_shape(ps[l.end as int], qs[l.end as int]));
            },
        }
    }
    assert forall|j: int| 0 <= j < cs.len() implies constr_wf(qs, cs[j]) by {
        assert(constr_wf(ps, cs[j]));
        match cs[j] {
            ConstraintType::VerticalLine(v) => {
                assert(same_shape(ps[v.line_id() as int], qs[v.line_id() as int]));
            },
        }
    }
}

/// Well-formedness of the arena entry at `i`: a line references point
/// entries registered strictly earlier.
pub open spec fn prim_wf(ps: Seq<SketchPrimitives>, i: int) -> bool {
    match ps[i] {
        SketchPrimitives::Point2(_) => true,
        SketchPrimitives::Line(l) => {
            &&& l.start < i
            &&& l.end < i
            &&& ps[l.start as int] is Point2
            &&& ps[l.end as int] is Point2
        },
    }
}

/// Validity of a newly registered primitive against the existing arena.
pub open spec fn new_prim_ok(ps: Seq<SketchPrimitives>, p: SketchPrimitives) -> bool {
    match p {
        SketchPrimitives::Point2(_) => true,
        SketchPrimitives::Line(l) => {
            &&& l.start < ps.len()
            &&& l.end < ps.len()
            &&& ps[l.start as int] is Point2
            &&& ps[l.end as int] is Point2
        },
    }
}

/// Validity of a constraint: it must pin a line entry of the arena.
pub open spec fn constr_wf(ps: Seq<SketchPrimitives>, c: ConstraintType) -> bool {
    match c {
        ConstraintType::VerticalLine(v) => {
            &&& v.line_id() < ps.len()
            &&& ps[v.line_id() as int] is Line
        },
    }
}

/// One optimization problem: primitives, constraints, and the index that
/// gives each primitive its contiguous range of the flat vector.
pub struct Sketch {
    primitives: Vec<SketchPrimitives>,
    constraints: Vec<ConstraintType>,
}

impl Sketch {
    /// The arena, in insertion order.
    pub closed spec fn prims(self) -> Seq<SketchPrimitives> {
        self.primitives@
    }

    /// The constraints, in insertion order.
    pub closed spec fn constrs(self) -> Seq<ConstraintType> {
        self.constraints@
    }

    /// Every arena entry and every constraint is well-formed.
    pub open spec fn wf(self) -> bool {
        &&& forall|i: int| 0 <= i < self.prims().len() ==> prim_wf(self.prims(), i)
        &&& forall|j: int|
            0 <= j < self.constrs().len() ==> constr_wf(self.prims(), self.constrs()[j])
    }

    /// An empty sketch.
    pub fn new() -> (s: Self)
        ensures
            s.prims() == Seq::<SketchPrimitives>::empty(),
            s.constrs() == Seq::<ConstraintType>::empty(),
            s.wf(),
    {
        Sketch { primitives: Vec::new(), constraints: Vec::new() }
    }

    /// How many primitives the sketch holds.
    pub fn num_primitives(&self) -> (n: usize)
        ensures
            n == self.prims().len(),
    {
        self.primitives.len()
    }

    /// How many constraints the sketch holds.
    pub fn num_constraints(&self) -> (n: usize)
        ensures
            n == self.constrs().len(),
    {
        self.constraints.len()
    }

    /// Whether arena entry `i` is a point.
    fn is_point(&self, i: usize) -> (r: bool)
        requires
            i < self.prims().len(),
        ensures
            r == self.prims()[i as int] is Point2,
    {
        match &self.primitives[i] {
            SketchPrimitives::Point2(_) => true,
            SketchPrimitives::Line(_) => false,
        }
    }

    /// Whether arena entry `i` is a line.
    fn is_line(&self, i: usize) -> (r: bool)
        requires
            i < self.prims().len(),
        ensures
            r == self.prims()[i as int] is Line,
    {
        match &self.primitives[i] {
            SketchPrimitives::Point2(_) => false,
            SketchPrimitives::Line(_) => true,
        }
    }

    /// Register a primitive, appending it to the arena and returning its
    /// stable index. A line must reference point entries already present;
    /// since every call appends a fresh entry, no entry can ever be
    /// registered twice, and the arena stays acyclic. On error the sketch
    /// is unchanged.
    pub fn add_primitive(&mut self, p: SketchPrimitives) -> (r: Result<usize, SketchError>)
        requires
            old(self).wf(),
        ensures
            final(self).wf(),
            r is Ok <==> new_prim_ok(old(self).prims(), p),
            r is Ok ==> {
                &&& r->Ok_0 == old(self).prims().len()
                &&& final(self).prims() == old(self).prims().push(p)
                &&& final(self).constrs() == old(self).constrs()
            },
            r is Err ==> *final(self) == *old(self) && r->Err_0
                == SketchError::InvalidReference,
    {
        let ok = match &p {
            SketchPrimitives::Point2(_) => true,
            SketchPrimitives::Line(l) => {
                l.start < self.primitives.len() && l.end < self.primitives.len()
                    && self.is_point(l.start) && self.is_point(l.end)
            },
        };
        if ok {
            let id = self.primitives.len();
            self.primitives.push(p);
            proof {
                let ps = old(self).prims();
                let qs = self.prims();
                assert forall|i: int| 0 <= i < qs.len() implies prim_wf(qs, i) by {
                    if i < ps.len() {
                        assert(prim_wf(ps, i));
                    }
                }
                assert forall|j: int|
                    0 <= j < self.constrs().len() implies constr_wf(
                    qs,
                    self.constrs()[j],
                ) by {
                    assert(constr_wf(ps, old(self).constrs()[j]));
                }
            }
            Ok(id)
        } else {
            Err(SketchError::InvalidReference)
        }
    }

    /// Register a constraint, appending it and returning its index. The
    /// constraint must pin a line entry of this sketch; on error the
    /// sketch is unchanged.
    pub fn add_constraint(&mut self, c: ConstraintType) -> (r: Result<usize, SketchError>)
        requires
            old(self).wf(),
        ensures
            final(self).wf(),
            r is Ok <==> constr_wf(old(self).prims(), c),
            r is Ok ==> {
                &&& r->Ok_0 == old(self).constrs().len()
                &&& final(self).constrs() == old(self).constrs().push(c)
                &&& final(self).prims() == old(self).prims()
            },
            r is Err ==> *final(self) == *old(self) && r->Err_0
                == SketchError::InvalidReference,
    {
        let ok = match &c {
            ConstraintType::VerticalLine(v) => {
                let id = v.line();
                id < self.primitives.len() && self.is_line(id)
            },
        };
        if ok {
            let id = self.constraints.len();
            self.constraints.push(c);
            proof {
                assert forall|j: int|
                    0 <= j < self.constrs().len() implies constr_wf(
                    self.prims(),
                    self.constrs()[j],
                ) by {
                    if j < old(self).constrs().len() {
                        assert(constr_wf(old(self).prims(), old(self).constrs()[j]));
                    }
                }
            }
            Ok(id)
        } else {
            Err(SketchError::InvalidReference)
        }
    }

    /// The flat parameter vector: each primitive's owned parameter words,
    /// concatenated in insertion order.
    pub fn get_data(&self) -> (d: Vec<u64>)
        ensures
            d@ == flat_data(self.prims()),
    {
        let mut d: Vec<u64> = Vec::new();
        let n = self.primitives.len();
        let mut i: usize = 0;
        while i < n
            invariant
                n == self.prims().len(),
                i <= n,
                d@ == flat_data(self.prims().take(i as int)),
            decreases n - i,
        {
            proof {
                lemma_flat_data_take_step(self.prims(), i as int);
            }
            match &self.primitives[i] {
                SketchPrimitives::Point2(p) => {
                    d.push(p.x);
                    d.push(p.y);
                },
                SketchPrimitives::Line(_) => {},
            }
            proof {
                assert(d@ =~= flat_data(self.prims().take(i as int + 1)));
            }
            i = i + 1;
        }
        proof {
            assert(self.prims().take(n as int) =~= self.prims());
        }
        d
    }

    /// The flat gradient vector, in exactly the ordering of `get_data`:
    /// slot `t` of the result is the accumulator for slot `t` of the
    /// parameter vector.
    pub fn read_gradient(&self) -> (g: Vec<u64>)
        ensures
            g@ == flat_gradient(self.prims()),
    {
        let mut g: Vec<u64> = Vec::new();
        let n = self.primitives.len();
        let mut i: usize = 0;
        while i < n
            invariant
                n == self.prims().len(),
                i <= n,
                g@ == flat_gradient(self.prims().take(i as int)),
            decreases n - i,
        {
            proof {
                lemma_flat_gradient_take_step(self.prims(), i as int);
            }
            match &self.primitives[i] {
                SketchPrimitives::Point2(p) => {
                    g.push(p.gx);
                    g.push(p.gy);
                },
                SketchPrimitives::Line(_) => {},
            }
            proof {
                assert(g@ =~= flat_gradient(self.prims().take(i as int + 1)));
            }
            i = i + 1;
        }
        proof {
            assert(self.prims().take(n as int) =~= self.prims());
        }
        g
    }

    /// Whether `data` has exactly the length of the flat parameter vector.
    fn data_len_matches(&self, data: &Vec<u64>) -> (r: bool)
        ensures
            r <==> data@.len() == flat_data(self.prims()).len(),
    {
        let ghost ps = self.prims();
        let n = self.primitives.len();
        let mut cursor: usize = 0;
        let mut i: usize = 0;
        while i < n
            invariant
                ps == self.prims(),
                n == ps.len(),
                i <= n,
                cursor == flat_data(ps.take(i as int)).len(),
                cursor <= data@.len(),
            decreases n - i,
        {
            proof {
                lemma_flat_data_take_step(ps, i as int);
            }
            match &self.primitives[i] {
                SketchPrimitives::Point2(_) => {
                    if data.len() - cursor < 2 {
                        proof {
                            lemma_offsets_monotone(ps, i as int + 1, n as int);
                            assert(ps.take(n as int) =~= ps);
                        }
                        return false;
                    }
                    cursor = cursor + 2;
                },
                SketchPrimitives::Line(_) => {},
            }
            i = i + 1;
        }
        proof {
            assert(ps.take(n as int) =~= ps);
        }
        cursor == data.len()
    }

    /// Overwrite the flat parameter vector, writing each primitive's slots
    /// back in exactly the ordering of `get_data`. Gradient accumulators,
    /// composite references and constraints are untouched. A vector of the
    /// wrong length is rejected and the sketch is left unchanged; writing
    /// back exactly what `get_data` reported is a no-op on every
    /// observable.
    #[verifier::rlimit(60)]
    pub fn set_data(&mut self, data: &Vec<u64>) -> (r: Result<(), SketchError>)
        requires
            old(self).wf(),
        ensures
            final(self).wf(),
            r is Ok <==> data@.len() == flat_data(old(self).prims()).len(),
            r is Err ==> *final(self) == *old(self) && r->Err_0
                == SketchError::DataLengthMismatch,
            r is Ok ==> {
                &&& final(self).constrs() == old(self).constrs()
                &&& final(self).prims().len() == old(self).prims().len()
                &&& forall|i: int|
                    0 <= i < old(self).prims().len() ==> final(self).prims()[i] == with_data(
                        old(self).prims()[i],
                        data@.subrange(
                            data_offset(old(self).prims(), i),
                            data_offset(old(self).prims(), i) + old(
                                self,
                            ).prims()[i].owned_data().len(),
                        ),
                    )
                &&& flat_data(final(self).prims()) == data@
                &&& flat_gradient(final(self).prims()) == flat_gradient(old(self).prims())
            },
            data@ == flat_data(old(self).prims()) ==> final(self).prims() == old(self).prims()
                && final(self).constrs() == old(self).constrs(),
    {
        if !self.data_len_matches(data) {
            return Err(SketchError::DataLengthMismatch);
        }
        let ghost ps = self.prims();
        let n = self.primitives.len();
        let total = data.len();
        let mut cursor: usize = 0;
        let mut i: usize = 0;
        while i < n
            invariant
                n == ps.len(),
                ps == old(self).prims(),
                self.constrs() == old(self).constrs(),
                self.prims().len() == n,
                total == data@.len(),
                data@.len() == flat_data(ps).len(),
                i <= n,
                cursor == flat_data(ps.take(i as int)).len(),
                forall|k: int|
                    0 <= k < i ==> self.prims()[k] == with_data(
                        ps[k],
                        data@.subrange(
                            data_offset(ps, k),
                            data_offset(ps, k) + ps[k].owned_data().len(),
                        ),
                    ),
                forall|k: int| i <= k < n ==> self.prims()[k] == ps[k],
            decreases n - i,
        {
            proof {
                lemma_flat_data_take_step(ps, i as int);
                lemma_offsets_monotone(ps, i as int + 1, n as int);
                assert(ps.take(n as int) =~= ps);
            }
            let entry = self.primitives[i];
            proof {
                assert(entry == ps[i as int]);
            }
            match entry {
                SketchPrimitives::Point2(pt) => {
                    proof {
                        assert(ps[i as int].owned_data().len() == 2);
                        assert(flat_data(ps.take(i as int + 1)).len() == cursor + 2);
                        assert(cursor + 2 <= data@.len());
                    }
                    let x = data[cursor];
                    let y = data[cursor + 1];
                    self.primitives[i] = SketchPrimitives::Point2(
                        Point2 { x, y, gx: pt.gx, gy: pt.gy },
                    );
                    proof {
                        assert(data@.subrange(
                            data_offset(ps, i as int),
                            data_offset(ps, i as int) + 2,
                        ) =~= seq![x, y]);
                    }
                    cursor = cursor + 2;
                },
                SketchPrimitives::Line(_) => {
                    proof {
                        assert(data@.subrange(
                            data_offset(ps, i as int),
                            data_offset(ps, i as int) + 0,
                        ) =~= Seq::<u64>::empty());
                    }
                },
            }
            i = i + 1;
        }
        proof {
            lemma_flat_data_after_write(ps, self.prims(), data@);
            // shape is preserved, so well-formedness carries over
            assert forall|k: int| 0 <= k < n implies same_shape(ps[k], self.prims()[k]) by {}
            lemma_wf_transfer(ps, self.prims(), old(self).constrs());
            // writing back what the sketch already held changes nothing
            if data@ == flat_data(ps) {
                assert forall|k: int| 0 <= k < n implies self.prims()[k] == ps[k] by {
                    lemma_primitive_range(ps, k);
                }
                assert(self.prims() =~= ps);
            }
        }
        Ok(())
    }

    /// Zero every gradient accumulator. Parameter words, composite
    /// references and constraints are untouched, so the loss a driver
    /// evaluates from `get_data` output is independent of gradient passes.
    pub fn zero_gradients(&mut self)
        requires
            old(self).wf(),
        ensures
            final(self).wf(),
            final(self).constrs() == old(self).constrs(),
            final(self).prims().len() == old(self).prims().len(),
            forall|i: int|
                0 <= i < old(self).prims().len() ==> final(self).prims()[i]
                    == with_zero_gradient(old(self).prims()[i]),
            flat_data(final(self).prims()) == flat_data(old(self).prims()),
            flat_gradient(final(self).prims()) == zero_words(
                flat_data(old(self).prims()).len(),
            ),
    {
        let ghost ps = self.prims();
        let n = self.primitives.len();
        let mut i: usize = 0;
        while i < n
            invariant
                n == ps.len(),
                ps == old(self).prims(),
                self.constrs() == old(self).constrs(),
                self.prims().len() == n,
                i <= n,
                forall|k: int| 0 <= k < i ==> self.prims()[k] == with_zero_gradient(ps[k]),
                forall|k: int| i <= k < n ==> self.prims()[k] == ps[k],
            decreases n - i,
        {
            let entry = self.primitives[i];
            match entry {
                SketchPrimitives::Point2(pt) => {
                    self.primitives[i] = SketchPrimitives::Point2(
                        Point2 { x: pt.x, y: pt.y, gx: 0, gy: 0 },
                    );
                },
                SketchPrimitives::Line(_) => {},
            }
            i = i + 1;
        }
        proof {
            assert forall|k: int| 0 <= k < n implies ps[k].owned_data()
                == self.prims()[k].owned_data() by {}
            lemma_flat_data_congruence(ps, self.prims());
            lemma_flat_gradient_after_zero(ps, self.prims());
            lemma_gradient_data_same_length(ps);
            assert forall|k: int| 0 <= k < n implies same_shape(ps[k], self.prims()[k]) by {}
            lemma_wf_transfer(ps, self.prims(), old(self).constrs());
        }
    }

    /// Overwrite the gradient accumulator of the point at `id`. The
    /// numeric driver adds a constraint's contribution by reading the
    /// accumulator, summing outside, and writing the sum back here.
    /// Parameter words and constraints are untouched.
    pub fn set_point_gradient(&mut self, id: usize, gx: u64, gy: u64) -> (r: Result<
        (),
        SketchError,
    >)
        requires
            old(self).wf(),
        ensures
            final(self).wf(),
            r is Ok <==> id < old(self).prims().len() && old(self).prims()[id as int] is Point2,
            r is Err ==> *final(self) == *old(self) && r->Err_0 == SketchError::InvalidReference,
            r is Ok ==> {
                &&& final(self).constrs() == old(self).constrs()
                &&& final(self).prims() == old(self).prims().update(
                    id as int,
                    with_gradient(old(self).prims()[id as int], gx, gy),
                )
                &&& flat_data(final(self).prims()) == flat_data(old(self).prims())
            },
    {
        let ghost ps = self.prims();
        if id >= self.primitives.len() {
            return Err(SketchError::InvalidReference);
        }
        let entry = self.primitives[id];
        match entry {
            SketchPrimitives::Point2(pt) => {
                self.primitives[id] = SketchPrimitives::Point2(
                    Point2 { x: pt.x, y: pt.y, gx, gy },
                );
                proof {
                    assert forall|k: int| 0 <= k < ps.len() implies ps[k].owned_data()
                        == self.prims()[k].owned_data() by {}
                    lemma_flat_data_congruence(ps, self.prims());
                    assert forall|k: int|
                        0 <= k < ps.len() implies same_shape(ps[k], self.prims()[k]) by {}
                    lemma_wf_transfer(ps, self.prims(), old(self).constrs());
                }
                Ok(())
            },
            SketchPrimitives::Line(_) => Err(SketchError::InvalidReference),
        }
    }

    /// The parameter words `(x, y)` of the point at `id`.
    pub fn point_data(&self, id: usize) -> (r: Result<(u64, u64), SketchError>)
        ensures
            r is Ok <==> id < self.prims().len() && self.prims()[id as int] is Point2,
            r is Ok ==> r->Ok_0 == (
                self.prims()[id as int]->Point2_0.x,
                self.prims()[id as int]->Point2_0.y,
            ),
            r is Err ==> r->Err_0 == SketchError::InvalidReference,
    {
        if id >= self.primitives.len() {
            return Err(SketchError::InvalidReference);
        }
        match &self.primitives[id] {
            SketchPrimitives::Point2(pt) => Ok((pt.x, pt.y)),
            SketchPrimitives::Line(_) => Err(SketchError::InvalidReference),
        }
    }

    /// The gradient accumulator words `(gx, gy)` of the point at `id`.
    pub fn point_gradient(&self, id: usize) -> (r: Result<(u64, u64), SketchError>)
        ensures
            r is Ok <==> id < self.prims().len() && self.prims()[id as int] is Point2,
            r is Ok ==> r->Ok_0 == (
                self.prims()[id as int]->Point2_0.gx,
                self.prims()[id as int]->Point2_0.gy,
            ),
            r is Err ==> r->Err_0 == SketchError::InvalidReference,
    {
        if id >= self.primitives.len() {
            return Err(SketchError::InvalidReference);
        }
        match &self.primitives[id] {
            SketchPrimitives::Point2(pt) => Ok((pt.gx, pt.gy)),
            SketchPrimitives::Line(_) => Err(SketchError::InvalidReference),
        }
    }

    /// The arena indices of the endpoints of the line at `id`; on a
    /// well-formed sketch both are point entries registered before the
    /// line.
    pub fn line_points(&self, id: usize) -> (r: Result<(usize, usize), SketchError>)
        ensures
            r is Ok <==> id < self.prims().len() && self.prims()[id as int] is Line,
            r is Ok ==> r->Ok_0 == (
                self.prims()[id as int]->Line_0.start,
                self.prims()[id as int]->Line_0.end,
            ),
            r is Err ==> r->Err_0 == SketchError::InvalidReference,
            self.wf() && r is Ok ==> r->Ok_0.0 < id && r->Ok_0.1 < id
                && self.prims()[r->Ok_0.0 as int] is Point2
                && self.prims()[r->Ok_0.1 as int] is Point2,
    {
        if id >= self.primitives.len() {
            return Err(SketchError::InvalidReference);
        }
        match &self.primitives[id] {
            SketchPrimitives::Point2(_) => Err(SketchError::InvalidReference),
            SketchPrimitives::Line(l) => {
                proof {
                    if self.wf() {
                        assert(prim_wf(self.prims(), id as int));
                    }
                }
                Ok((l.start, l.end))
            },
        }
    }

    /// The constraint list, in insertion order.
    pub fn constraints(&self) -> (r: &Vec<ConstraintType>)
        ensures
            r@ == self.constrs(),
    {
        &self.constraints
    }

    /// The arena entry at `id`, if there is one.
    pub fn primitive(&self, id: usize) -> (r: Option<SketchPrimitives>)
        ensures
            r is Some <==> id < self.prims().len(),
            r is Some ==> r->0 == self.prims()[id as int],
    {
        if id < self.primitives.len() {
            Some(self.primitives[id])
        } else {
            None
        }
    }
}

} // verus!
