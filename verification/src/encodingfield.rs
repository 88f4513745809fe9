//! Encoding fields: a spatial scalar field given as an explicit expression
//! over the position's axes, with either a supplied analytic gradient or a
//! centered-difference derivative computed at query time.

use crate::errors::KError;
use crate::fixed::{fix_div_raw, fix_mul_raw, in_i64, Fix, FIX_SCALE};
use crate::kspace::{copy_row, fix_raws};
use crate::spatialdims::SpatialDims;
use vstd::arithmetic::div_mod::{
    lemma_div_is_ordered_by_denominator, lemma_div_multiples_vanish, lemma_div_pos_is_pos,
    lemma_multiply_divide_lt,
};
use vstd::prelude::*;

verus! {

/// Default raw step of the centered difference.
pub const FD_STEP_RAW: i64 = 10;

/// A scalar field over a spatial position, as an explicit expression:
/// an axis coordinate, a constant, or sums, differences, products and
/// negations of fields.
#[derive(Debug)]
pub enum FieldExpr {
    /// The coordinate of the given axis (0, 1 or 2).
    Coord(usize),
    /// A constant.
    Lit(Fix),
    /// The sum of two fields.
    Sum(Box<FieldExpr>, Box<FieldExpr>),
    /// The difference of two fields.
    Diff(Box<FieldExpr>, Box<FieldExpr>),
    /// The product of two fields.
    Prod(Box<FieldExpr>, Box<FieldExpr>),
    /// The negation of a field.
    Neg(Box<FieldExpr>),
}

/// The raw value of a field expression at a position, given as the raw values
/// of its axes. Total; meaningful where `expr_ok` holds.
pub open spec fn expr_val(e: FieldExpr, pos: Seq<int>) -> int
    decreases e,
{
    match e {
        FieldExpr::Coord(a) => if a < pos.len() {
            pos[a as int]
        } else {
            0
        },
        FieldExpr::Lit(f) => f.0 as int,
        FieldExpr::Sum(l, r) => expr_val(*l, pos) + expr_val(*r, pos),
        FieldExpr::Diff(l, r) => expr_val(*l, pos) - expr_val(*r, pos),
        FieldExpr::Prod(l, r) => fix_mul_raw(expr_val(*l, pos), expr_val(*r, pos)),
        FieldExpr::Neg(b) => 0 - expr_val(*b, pos),
    }
}

/// Whether a field expression can be evaluated at a position: every axis it
/// names exists and every intermediate value is representable.
pub open spec fn expr_ok(e: FieldExpr, pos: Seq<int>) -> bool
    decreases e,
{
    match e {
        FieldExpr::Coord(a) => a < pos.len(),
        FieldExpr::Lit(_) => true,
        FieldExpr::Sum(l, r) => expr_ok(*l, pos) && expr_ok(*r, pos) && in_i64(
            expr_val(*l, pos) + expr_val(*r, pos),
        ),
        FieldExpr::Diff(l, r) => expr_ok(*l, pos) && expr_ok(*r, pos) && in_i64(
            expr_val(*l, pos) - expr_val(*r, pos),
        ),
        FieldExpr::Prod(l, r) => expr_ok(*l, pos) && expr_ok(*r, pos) && in_i64(
            fix_mul_raw(expr_val(*l, pos), expr_val(*r, pos)),
        ),
        FieldExpr::Neg(b) => expr_ok(*b, pos) && in_i64(0 - expr_val(*b, pos)),
    }
}

/// Evaluate a field expression at a position.
pub fn eval(e: &FieldExpr, pos: &Vec<Fix>) -> (r: Option<Fix>)
    ensures
        r is Some <==> expr_ok(*e, fix_raws(pos@)),
        r matches Some(f) ==> f.0 == expr_val(*e, fix_raws(pos@)),
    decreases *e,
{
    match e {
        FieldExpr::Coord(a) => {
            if *a < pos.len() {
                Some(pos[*a])
            } else {
                None
            }
        },
        FieldExpr::Lit(f) => Some(*f),
        FieldExpr::Sum(l, r) => {
            match (eval(l, pos), eval(r, pos)) {
                (Some(x), Some(y)) => x.add(y),
                _ => None,
            }
        },
        FieldExpr::Diff(l, r) => {
            match (eval(l, pos), eval(r, pos)) {
                (Some(x), Some(y)) => x.sub(y),
                _ => None,
            }
        },
        FieldExpr::Prod(l, r) => {
            match (eval(l, pos), eval(r, pos)) {
                (Some(x), Some(y)) => x.mul(y),
                _ => None,
            }
        },
        FieldExpr::Neg(b) => {
            match eval(b, pos) {
                Some(x) => x.neg(),
                None => None,
            }
        },
    }
}

/// The raw values of a position's axes, in order.
pub open spec fn dims_raws(d: SpatialDims<Fix>) -> Seq<int> {
    match d {
        SpatialDims::OneD(x) => seq![x.0 as int],
        SpatialDims::TwoD(x, y) => seq![x.0 as int, y.0 as int],
        SpatialDims::ThreeD(x, y, z) => seq![x.0 as int, y.0 as int, z.0 as int],
    }
}

/// Lay a position's axes out as a vector.
pub fn dims_to_vec(d: &SpatialDims<Fix>) -> (v: Vec<Fix>)
    ensures
        v@.len() == d.spec_len(),
        fix_raws(v@) == dims_raws(*d),
{
    let mut v: Vec<Fix> = Vec::new();
    match d {
        SpatialDims::OneD(x) => {
            v.push(*x);
        },
        SpatialDims::TwoD(x, y) => {
            v.push(*x);
            v.push(*y);
        },
        SpatialDims::ThreeD(x, y, z) => {
            v.push(*x);
            v.push(*y);
            v.push(*z);
        },
    }
    proof {
        assert(fix_raws(v@) =~= dims_raws(*d));
    }
    v
}

/// Gather one, two or three values back into a position.
pub fn vec_to_dims(v: &Vec<Fix>) -> (d: SpatialDims<Fix>)
    requires
        1 <= v@.len() <= 3,
    ensures
        d.spec_len() == v@.len(),
        dims_raws(d) == fix_raws(v@),
{
    let d = if v.len() == 1 {
        SpatialDims::OneD(v[0])
    } else if v.len() == 2 {
        SpatialDims::TwoD(v[0], v[1])
    } else {
        SpatialDims::ThreeD(v[0], v[1], v[2])
    };
    proof {
        assert(dims_raws(d) =~= fix_raws(v@));
    }
    d
}

/// Axis `a` of a gradient; meaningful for `a` below the gradient's arity.
pub open spec fn grad_axis(g: SpatialDims<FieldExpr>, a: int) -> FieldExpr {
    match g {
        SpatialDims::OneD(x) => x,
        SpatialDims::TwoD(x, y) => if a == 1 {
            y
        } else {
            x
        },
        SpatialDims::ThreeD(x, y, z) => if a == 1 {
            y
        } else if a == 2 {
            z
        } else {
            x
        },
    }
}

/// Raw value of the centered difference along axis `a` with step `h`:
/// the field at the position shifted by `+h` minus the field at the position
/// shifted by `-h`, divided by `2 h`.
pub open spec fn fd_axis_val(e: FieldExpr, pos: Seq<int>, a: int, h: int) -> int {
    fix_div_raw(
        expr_val(e, pos.update(a, pos[a] + h)) - expr_val(e, pos.update(a, pos[a] - h)),
        2 * h,
    )
}

/// Whether the centered difference along axis `a` is representable.
pub open spec fn fd_axis_ok(e: FieldExpr, pos: Seq<int>, a: int, h: int) -> bool {
    &&& in_i64(2 * h)
    &&& in_i64(pos[a] + h)
    &&& in_i64(pos[a] - h)
    &&& expr_ok(e, pos.update(a, pos[a] + h))
    &&& expr_ok(e, pos.update(a, pos[a] - h))
    &&& in_i64(expr_val(e, pos.update(a, pos[a] + h)) - expr_val(e, pos.update(a, pos[a] - h)))
    &&& in_i64(fd_axis_val(e, pos, a, h))
}

/// Law: for the coordinate field the centered difference is exact at every
/// positive step — it returns the fixed-point one, the field's true
/// derivative, with no step-dependent error. (For fields with curvature the
/// difference carries an error that the truncated arithmetic bounds only
/// step by step; tests exercise its quadratic shrinking on a concrete field.)
pub proof fn lemma_fd_exact_for_coordinate(pos: Seq<int>, a: usize, h: int)
    requires
        0 <= a < pos.len(),
        h > 0,
        in_i64(2 * h),
        in_i64(pos[a as int] + h),
        in_i64(pos[a as int] - h),
    ensures
        fd_axis_val(FieldExpr::Coord(a), pos, a as int, h) == FIX_SCALE,
        fd_axis_ok(FieldExpr::Coord(a), pos, a as int, h),
{
    let e = FieldExpr::Coord(a);
    let up = pos.update(a as int, pos[a as int] + h);
    let dn = pos.update(a as int, pos[a as int] - h);
    assert(expr_val(e, up) == pos[a as int] + h);
    assert(expr_val(e, dn) == pos[a as int] - h);
    assert(expr_val(e, up) - expr_val(e, dn) == 2 * h);
    assert(fix_div_raw(2 * h, 2 * h) == FIX_SCALE) by {
        lemma_div_multiples_vanish(FIX_SCALE as int, 2 * h);
        assert((2 * h) * (FIX_SCALE as int) == (2 * h) * FIX_SCALE) by (nonlinear_arith);
        assert(2 * h * FIX_SCALE > 0) by (nonlinear_arith)
            requires
                h > 0,
                FIX_SCALE == 1_000_000,
        ;
    }
}

/// How a field's derivative is produced: a centered difference with a fixed
/// step, or a supplied analytic gradient.
#[derive(Debug)]
enum EncodingFieldDerivative {
    FiniteDiff(Fix),
    Func(SpatialDims<FieldExpr>),
}

/// A spatial scalar field with a derivative mode.
#[derive(Debug)]
pub struct EncodingField {
    field: FieldExpr,
    derivative: EncodingFieldDerivative,
}

/// The arity of the derivative a field returns at a position: the gradient's
/// own arity in analytic mode, the position's arity in finite-difference mode.
pub open spec fn deriv_arity(f: EncodingField, pos: SpatialDims<Fix>) -> int {
    if f.is_analytic() {
        f.spec_gradient().spec_len()
    } else {
        pos.spec_len()
    }
}

/// Whether the derivative at a position is representable on every axis.
pub open spec fn deriv_ok(f: EncodingField, pos: SpatialDims<Fix>) -> bool {
    if f.is_analytic() {
        forall|a: int|
            0 <= a < f.spec_gradient().spec_len() ==> expr_ok(
                #[trigger] grad_axis(f.spec_gradient(), a),
                dims_raws(pos),
            )
    } else {
        forall|a: int|
            0 <= a < pos.spec_len() ==> #[trigger] fd_axis_ok(
                f.spec_field(),
                dims_raws(pos),
                a,
                f.spec_step(),
            )
    }
}

/// Raw value of axis `a` of the derivative at a position.
pub open spec fn deriv_axis_val(f: EncodingField, pos: SpatialDims<Fix>, a: int) -> int {
    if f.is_analytic() {
        expr_val(grad_axis(f.spec_gradient(), a), dims_raws(pos))
    } else {
        fd_axis_val(f.spec_field(), dims_raws(pos), a, f.spec_step())
    }
}

impl EncodingField {
    /// The stored field expression.
    pub closed spec fn spec_field(&self) -> FieldExpr {
        self.field
    }

    /// Whether the derivative mode is a supplied analytic gradient.
    pub closed spec fn is_analytic(&self) -> bool {
        self.derivative is Func
    }

    /// The supplied gradient, in analytic mode.
    pub closed spec fn spec_gradient(&self) -> SpatialDims<FieldExpr>
        recommends
            self.is_analytic(),
    {
        match self.derivative {
            EncodingFieldDerivative::Func(g) => g,
            EncodingFieldDerivative::FiniteDiff(_) => SpatialDims::OneD(FieldExpr::Lit(Fix(0))),
        }
    }

    /// The raw step of the centered difference, in finite-difference mode.
    pub closed spec fn spec_step(&self) -> int
        recommends
            !self.is_analytic(),
    {
        match self.derivative {
            EncodingFieldDerivative::FiniteDiff(h) => h.0 as int,
            EncodingFieldDerivative::Func(_) => 0,
        }
    }

    /// In finite-difference mode the step is positive.
    pub closed spec fn wf(&self) -> bool {
        !self.is_analytic() ==> self.spec_step() > 0
    }

    /// A field in finite-difference mode with the default step.
    pub fn new(field: FieldExpr) -> (f: EncodingField)
        ensures
            f.wf(),
            f.spec_field() == field,
            !f.is_analytic(),
            f.spec_step() == FD_STEP_RAW,
    {
        EncodingField { field, derivative: EncodingFieldDerivative::FiniteDiff(Fix(FD_STEP_RAW)) }
    }

    /// Supply an analytic gradient, replacing the derivative mode.
    pub fn derivative(&mut self, deriv: SpatialDims<FieldExpr>)
        ensures
            final(self).wf(),
            final(self).spec_field() == old(self).spec_field(),
            final(self).is_analytic(),
            final(self).spec_gradient() == deriv,
    {
        self.derivative = EncodingFieldDerivative::Func(deriv);
    }

    /// Switch to finite-difference mode with the given positive step.
    pub fn finite_difference(&mut self, h: Fix)
        requires
            h.0 > 0,
        ensures
            final(self).wf(),
            final(self).spec_field() == old(self).spec_field(),
            !final(self).is_analytic(),
            final(self).spec_step() == h.0,
    {
        self.derivative = EncodingFieldDerivative::FiniteDiff(h);
    }

    /// Evaluate the field at a position.
    pub fn at(&self, pos: &SpatialDims<Fix>) -> (r: Option<Fix>)
        ensures
            r is Some <==> expr_ok(self.spec_field(), dims_raws(*pos)),
            r matches Some(f) ==> f.0 == expr_val(self.spec_field(), dims_raws(*pos)),
    {
        let pv = dims_to_vec(pos);
        eval(&self.field, &pv)
    }

    /// Evaluate the derivative at a position: the supplied gradient in
    /// analytic mode, the centered difference per axis otherwise. Absent
    /// exactly when some axis is not representable.
    pub fn deriv_at(&self, pos: &SpatialDims<Fix>) -> (r: Option<SpatialDims<Fix>>)
        requires
            self.wf(),
        ensures
            r is Some <==> deriv_ok(*self, *pos),
            r matches Some(d) ==> d.spec_len() == deriv_arity(*self, *pos) && (forall|a: int|
                0 <= a < d.spec_len() ==> dims_raws(d)[a] == deriv_axis_val(*self, *pos, a)),
    {
        match &self.derivative {
            EncodingFieldDerivative::Func(g) => analytic_deriv(g, pos),
            EncodingFieldDerivative::FiniteDiff(h) => fd_deriv(&self.field, *h, pos),
        }
    }
}

/// A supplied analytic gradient, evaluated axis by axis.
fn analytic_deriv(g: &SpatialDims<FieldExpr>, pos: &SpatialDims<Fix>) -> (r: Option<
    SpatialDims<Fix>,
>)
    ensures
        r is Some <==> (forall|a: int|
            0 <= a < g.spec_len() ==> expr_ok(#[trigger] grad_axis(*g, a), dims_raws(*pos))),
        r matches Some(d) ==> d.spec_len() == g.spec_len() && (forall|a: int|
            0 <= a < g.spec_len() ==> dims_raws(d)[a] == expr_val(
                grad_axis(*g, a),
                dims_raws(*pos),
            )),
{
    let pv = dims_to_vec(pos);
    match g {
        SpatialDims::OneD(e0) => {
            proof {
                assert(grad_axis(*g, 0) == *e0);
            }
            match eval(e0, &pv) {
                Some(v0) => {
                    let d = SpatialDims::OneD(v0);
                    proof {
                        assert(dims_raws(d) =~= seq![v0.0 as int]);
                    }
                    Some(d)
                },
                None => None,
            }
        },
        SpatialDims::TwoD(e0, e1) => {
            proof {
                assert(grad_axis(*g, 0) == *e0);
                assert(grad_axis(*g, 1) == *e1);
            }
            match eval(e0, &pv) {
                Some(v0) => {
                    match eval(e1, &pv) {
                        Some(v1) => {
                            let d = SpatialDims::TwoD(v0, v1);
                            proof {
                                assert(dims_raws(d) =~= seq![v0.0 as int, v1.0 as int]);
                            }
                            Some(d)
                        },
                        None => None,
                    }
                },
                None => None,
            }
        },
        SpatialDims::ThreeD(e0, e1, e2) => {
            proof {
                assert(grad_axis(*g, 0) == *e0);
                assert(grad_axis(*g, 1) == *e1);
                assert(grad_axis(*g, 2) == *e2);
            }
            match eval(e0, &pv) {
                Some(v0) => {
                    match eval(e1, &pv) {
                        Some(v1) => {
                            match eval(e2, &pv) {
                                Some(v2) => {
                                    let d = SpatialDims::ThreeD(v0, v1, v2);
                                    proof {
                                        assert(dims_raws(d) =~= seq![
                                            v0.0 as int,
                                            v1.0 as int,
                                            v2.0 as int,
                                        ]);
                                    }
                                    Some(d)
                                },
                                None => None,
                            }
                        },
                        None => None,
                    }
                },
                None => None,
            }
        },
    }
}

/// The centered difference of a field at a position, axis by axis.
fn fd_deriv(e: &FieldExpr, h: Fix, pos: &SpatialDims<Fix>) -> (r: Option<SpatialDims<Fix>>)
    requires
        h.0 > 0,
    ensures
        r is Some <==> (forall|a: int|
            0 <= a < pos.spec_len() ==> #[trigger] fd_axis_ok(*e, dims_raws(*pos), a, h.0 as int)),
        r matches Some(d) ==> d.spec_len() == pos.spec_len() && (forall|a: int|
            0 <= a < pos.spec_len() ==> dims_raws(d)[a] == fd_axis_val(
                *e,
                dims_raws(*pos),
                a,
                h.0 as int,
            )),
{
    let pv = dims_to_vec(pos);
    let two_h = match h.add(h) {
        Some(t) => t,
        None => {
            proof {
                assert(!fd_axis_ok(*e, dims_raws(*pos), 0, h.0 as int));
            }
            return None;
        },
    };
    let mut out: Vec<Fix> = Vec::new();
    let mut a: usize = 0;
    while a < pv.len()
        invariant
            a <= pv@.len(),
            h.0 > 0,
            two_h.0 == 2 * h.0,
            pv@.len() == pos.spec_len(),
            fix_raws(pv@) == dims_raws(*pos),
            out@.len() == a,
            forall|t: int|
                0 <= t < a ==> #[trigger] fd_axis_ok(*e, dims_raws(*pos), t, h.0 as int),
            forall|t: int|
                0 <= t < a ==> #[trigger] out@[t].0 == fd_axis_val(
                    *e,
                    dims_raws(*pos),
                    t,
                    h.0 as int,
                ),
        decreases pv@.len() - a,
    {
        let base = pv[a];
        proof {
            assert(base.0 == dims_raws(*pos)[a as int]);
        }
        let xp = match base.add(h) {
            Some(v) => v,
            None => {
                proof {
                    assert(!fd_axis_ok(*e, dims_raws(*pos), a as int, h.0 as int));
                }
                return None;
            },
        };
        let xm = match base.sub(h) {
            Some(v) => v,
            None => {
                proof {
                    assert(!fd_axis_ok(*e, dims_raws(*pos), a as int, h.0 as int));
                }
                return None;
            },
        };
        let mut pp = copy_row(&pv);
        pp.set(a, xp);
        proof {
            assert(fix_raws(pp@) =~= dims_raws(*pos).update(
                a as int,
                dims_raws(*pos)[a as int] + h.0,
            ));
        }
        let vp = match eval(e, &pp) {
            Some(v) => v,
            None => {
                proof {
                    assert(!fd_axis_ok(*e, dims_raws(*pos), a as int, h.0 as int));
                }
                return None;
            },
        };
        let mut pm = copy_row(&pv);
        pm.set(a, xm);
        proof {
            assert(fix_raws(pm@) =~= dims_raws(*pos).update(
                a as int,
                dims_raws(*pos)[a as int] - h.0,
            ));
        }
        let vm = match eval(e, &pm) {
            Some(v) => v,
            None => {
                proof {
                    assert(!fd_axis_ok(*e, dims_raws(*pos), a as int, h.0 as int));
                }
                return None;
            },
        };
        let diff = match vp.sub(vm) {
            Some(v) => v,
            None => {
                proof {
                    assert(!fd_axis_ok(*e, dims_raws(*pos), a as int, h.0 as int));
                }
                return None;
            },
        };
        let da = match diff.div(two_h) {
            Some(v) => v,
            None => {
                proof {
                    assert(!fd_axis_ok(*e, dims_raws(*pos), a as int, h.0 as int));
                }
                return None;
            },
        };
        out.push(da);
        a = a + 1;
    }
    let d = vec_to_dims(&out);
    Some(d)
}

/// Raw value of half of one, the centering offset of a linear field.
pub const HALF_RAW: i64 = 500_000;

/// Raw step of a linear field sampled at `n` grid points: `1 / n`.
pub open spec fn lin_step(n: int) -> int {
    fix_div_raw(FIX_SCALE as int, n * FIX_SCALE)
}

/// Raw value of a linear field at grid index `x`: the extent times
/// `x · step - 1/2`.
pub open spec fn lin_val(fv: int, step: int, x: int) -> int {
    fix_mul_raw(fv, x * step - HALF_RAW)
}

/// Whether the linear-field value at grid index `x` is representable.
pub open spec fn lin_ok(fv: int, step: int, x: int) -> bool {
    &&& in_i64(x * step)
    &&& in_i64(x * step - HALF_RAW)
    &&& in_i64(lin_val(fv, step, x))
}

/// Whether every grid value of a linear field with extent `fv` over `n`
/// points is representable.
pub open spec fn lin_fits(fv: int, n: int) -> bool {
    forall|x: int| 0 <= x < n ==> #[trigger] lin_ok(fv, lin_step(n), x)
}

/// The grid count along the given axis; zero beyond the arity.
pub open spec fn axis_count(dims: SpatialDims<usize>, axis: int) -> int {
    match dims {
        SpatialDims::OneD(x) => if axis == 0 {
            x as int
        } else {
            0
        },
        SpatialDims::TwoD(x, y) => if axis == 0 {
            x as int
        } else if axis == 1 {
            y as int
        } else {
            0
        },
        SpatialDims::ThreeD(x, y, z) => if axis == 0 {
            x as int
        } else if axis == 1 {
            y as int
        } else if axis == 2 {
            z as int
        } else {
            0
        },
    }
}

/// The raw extent along the given axis; zero beyond the arity.
pub open spec fn axis_extent(fov: SpatialDims<Fix>, axis: int) -> int {
    match fov {
        SpatialDims::OneD(x) => if axis == 0 {
            x.0 as int
        } else {
            0
        },
        SpatialDims::TwoD(x, y) => if axis == 0 {
            x.0 as int
        } else if axis == 1 {
            y.0 as int
        } else {
            0
        },
        SpatialDims::ThreeD(x, y, z) => if axis == 0 {
            x.0 as int
        } else if axis == 1 {
            y.0 as int
        } else if axis == 2 {
            z.0 as int
        } else {
            0
        },
    }
}

/// The first-axis count, with absent axes counted as one.
pub open spec fn pad_nx(dims: SpatialDims<usize>) -> int {
    match dims {
        SpatialDims::OneD(x) => x as int,
        SpatialDims::TwoD(x, _) => x as int,
        SpatialDims::ThreeD(x, _, _) => x as int,
    }
}

/// The second-axis count, with absent axes counted as one.
pub open spec fn pad_ny(dims: SpatialDims<usize>) -> int {
    match dims {
        SpatialDims::OneD(_) => 1,
        SpatialDims::TwoD(_, y) => y as int,
        SpatialDims::ThreeD(_, y, _) => y as int,
    }
}

/// Which grid index along `axis` the `m`-th row-major entry carries.
pub open spec fn grid_sel(m: int, nx: int, ny: int, axis: int) -> int {
    if axis == 0 {
        m % nx
    } else if axis == 1 {
        (m / nx) % ny
    } else {
        (m / nx) / ny
    }
}

/// What a discrete linear field holds: one value per grid point in row-major
/// order, each the linear-field value at its index along the varying axis.
pub open spec fn lin_field_ok(
    f: Seq<Fix>,
    fov: SpatialDims<Fix>,
    dims: SpatialDims<usize>,
    axis: int,
) -> bool {
    let n = axis_count(dims, axis);
    let step = lin_step(n);
    let fv = axis_extent(fov, axis);
    &&& f.len() == dims.spec_product()
    &&& forall|m: int|
        0 <= m < f.len() ==> (#[trigger] f[m]).0 == lin_val(
            fv,
            step,
            grid_sel(m, pad_nx(dims), pad_ny(dims), axis),
        )
}

/// The values of one linear axis: `fv · (x · (1/n) - 1/2)` for each grid
/// index `x`.
fn linear_axis_vals(fv: Fix, n: usize) -> (r: Result<Vec<Fix>, KError>)
    ensures
        r == Err::<Vec<Fix>, KError>(KError::ZeroDivisor) <==> n == 0,
        r == Err::<Vec<Fix>, KError>(KError::Overflow) <==> (n > 0 && ((n as int) * FIX_SCALE
            > i64::MAX || !lin_fits(fv.0 as int, n as int))),
        r is Ok <==> (n > 0 && (n as int) * FIX_SCALE <= i64::MAX && lin_fits(
            fv.0 as int,
            n as int,
        )),
        r matches Ok(v) ==> v@.len() == n && (forall|x: int|
            0 <= x < n ==> (#[trigger] v@[x]).0 == lin_val(
                fv.0 as int,
                lin_step(n as int),
                x,
            )),
{
    if n == 0 {
        return Err(KError::ZeroDivisor);
    }
    if n as u64 > i64::MAX as u64 {
        proof {
            assert((n as int) * FIX_SCALE > i64::MAX) by (nonlinear_arith)
                requires
                    n > i64::MAX,
                    FIX_SCALE == 1_000_000,
            ;
        }
        return Err(KError::Overflow);
    }
    let nf = match Fix::from_int(n as i64) {
        Some(v) => v,
        None => {
            return Err(KError::Overflow);
        },
    };
    proof {
        assert(nf.0 >= FIX_SCALE) by (nonlinear_arith)
            requires
                nf.0 == (n as int) * FIX_SCALE,
                n >= 1,
                FIX_SCALE == 1_000_000,
        ;
        let s = FIX_SCALE as int;
        lemma_div_is_ordered_by_denominator(s * s, s, nf.0 as int);
        lemma_div_multiples_vanish(s, s);
        lemma_div_pos_is_pos(s * s, nf.0 as int);
        assert(in_i64(fix_div_raw(s, nf.0 as int)));
    }
    let step = match Fix::one().div(nf) {
        Some(s) => s,
        None => {
            proof {
                assert(false);
            }
            return Err(KError::Overflow);
        },
    };
    let mut out: Vec<Fix> = Vec::new();
    let mut x: usize = 0;
    while x < n
        invariant
            x <= n,
            n >= 1,
            n <= i64::MAX,
            step.0 == lin_step(n as int),
            out@.len() == x,
            forall|t: int|
                0 <= t < x ==> (#[trigger] out@[t]).0 == lin_val(fv.0 as int, lin_step(n as int), t),
            forall|t: int| 0 <= t < x ==> #[trigger] lin_ok(fv.0 as int, lin_step(n as int), t),
        decreases n - x,
    {
        let t1 = match step.mul_int(x as i64) {
            Some(v) => v,
            None => {
                proof {
                    assert(!lin_ok(fv.0 as int, lin_step(n as int), x as int));
                }
                return Err(KError::Overflow);
            },
        };
        let t2 = match t1.sub(Fix(HALF_RAW)) {
            Some(v) => v,
            None => {
                proof {
                    assert(!lin_ok(fv.0 as int, lin_step(n as int), x as int));
                }
                return Err(KError::Overflow);
            },
        };
        let val = match fv.mul(t2) {
            Some(v) => v,
            None => {
                proof {
                    assert(!lin_ok(fv.0 as int, lin_step(n as int), x as int));
                }
                return Err(KError::Overflow);
            },
        };
        out.push(val);
        x = x + 1;
    }
    Ok(out)
}

/// Replicate one axis's values over a row-major grid, the first axis varying
/// fastest.
fn grid_from_axis(vals: &Vec<Fix>, nx: usize, ny: usize, nz: usize, axis: usize) -> (r: Vec<Fix>)
    requires
        axis < 3,
        vals@.len() == (if axis == 0 {
            nx as int
        } else if axis == 1 {
            ny as int
        } else {
            nz as int
        }),
        (nx as int) * (ny as int) <= usize::MAX,
        (nx as int) * (ny as int) * (nz as int) <= usize::MAX,
    ensures
        r@.len() == (nx as int) * (ny as int) * (nz as int),
        forall|m: int|
            0 <= m < r@.len() ==> (#[trigger] r@[m]) == vals@[grid_sel(
                m,
                nx as int,
                ny as int,
                axis as int,
            )],
        forall|m: int|
            0 <= m < r@.len() ==> 0 <= #[trigger] grid_sel(m, nx as int, ny as int, axis as int)
                < vals@.len(),
{
    let nxy = nx * ny;
    let total = nxy * nz;
    let mut out: Vec<Fix> = Vec::new();
    let mut m: usize = 0;
    while m < total
        invariant
            m <= total,
            axis < 3,
            total == (nx as int) * (ny as int) * (nz as int),
            vals@.len() == (if axis == 0 {
                nx as int
            } else if axis == 1 {
                ny as int
            } else {
                nz as int
            }),
            out@.len() == m,
            forall|t: int|
                0 <= t < m ==> (#[trigger] out@[t]) == vals@[grid_sel(
                    t,
                    nx as int,
                    ny as int,
                    axis as int,
                )],
            forall|t: int|
                0 <= t < m ==> 0 <= #[trigger] grid_sel(t, nx as int, ny as int, axis as int)
                    < vals@.len(),
        decreases total - m,
    {
        proof {
            assert(nx > 0 && ny > 0 && nz > 0) by (nonlinear_arith)
                requires
                    m < total,
                    0 <= m,
                    total == (nx as int) * (ny as int) * (nz as int),
                    0 <= nx,
                    0 <= ny,
                    0 <= nz,
            ;
            assert((m as int) < ((ny as int) * (nz as int)) * (nx as int)) by (nonlinear_arith)
                requires
                    m < total,
                    total == (nx as int) * (ny as int) * (nz as int),
            ;
            lemma_multiply_divide_lt(m as int, nx as int, (ny as int) * (nz as int));
            lemma_multiply_divide_lt((m as int) / (nx as int), ny as int, nz as int);
            lemma_div_pos_is_pos(m as int, nx as int);
        }
        let idx: usize = if axis == 0 {
            m % nx
        } else if axis == 1 {
            (m / nx) % ny
        } else {
            (m / nx) / ny
        };
        out.push(vals[idx]);
        m = m + 1;
    }
    out
}

/// A scalar field stored as one value per grid point, in row-major order.
#[derive(Debug)]
pub struct EncodingFieldDiscrete {
    /// The stored values, the first axis varying fastest.
    pub field: Vec<Fix>,
    dimensions: SpatialDims<usize>,
    fov: SpatialDims<Fix>,
}

impl EncodingFieldDiscrete {
    /// The stored values.
    pub closed spec fn spec_field_vals(&self) -> Seq<Fix> {
        self.field@
    }

    /// The stored grid counts.
    pub closed spec fn spec_dimensions(&self) -> SpatialDims<usize> {
        self.dimensions
    }

    /// The stored field of view.
    pub closed spec fn spec_fov(&self) -> SpatialDims<Fix> {
        self.fov
    }

    /// A field linear in the first axis: at grid index `x` the value is
    /// `fov_x · (x / n_x - 1/2)`, replicated over the other axes.
    pub fn linear_x(fov: SpatialDims<Fix>, dimensions: SpatialDims<usize>) -> (r: Result<
        EncodingFieldDiscrete,
        KError,
    >)
        ensures
            r == Err::<EncodingFieldDiscrete, KError>(KError::ArityMismatch) <==> fov.spec_len()
                != dimensions.spec_len(),
            r == Err::<EncodingFieldDiscrete, KError>(KError::ZeroDivisor) <==> (fov.spec_len()
                == dimensions.spec_len() && axis_count(dimensions, 0) == 0),
            r == Err::<EncodingFieldDiscrete, KError>(KError::Overflow) <==> (fov.spec_len()
                == dimensions.spec_len() && axis_count(dimensions, 0) != 0 && (
            !dimensions.product_fits() || axis_count(dimensions, 0) * FIX_SCALE > i64::MAX
                || !lin_fits(axis_extent(fov, 0), axis_count(dimensions, 0)))),
            r is Ok <==> (fov.spec_len() == dimensions.spec_len() && axis_count(dimensions, 0) != 0
                && dimensions.product_fits() && axis_count(dimensions, 0) * FIX_SCALE <= i64::MAX
                && lin_fits(axis_extent(fov, 0), axis_count(dimensions, 0))),
            r matches Ok(f) ==> lin_field_ok(f.spec_field_vals(), fov, dimensions, 0)
                && f.spec_dimensions() == dimensions && f.spec_fov() == fov,
    {
        linear_axis(fov, dimensions, 0)
    }

    /// A field linear in the second axis; refused in one dimension.
    pub fn linear_y(fov: SpatialDims<Fix>, dimensions: SpatialDims<usize>) -> (r: Result<
        EncodingFieldDiscrete,
        KError,
    >)
        ensures
            r == Err::<EncodingFieldDiscrete, KError>(KError::ArityMismatch) <==> fov.spec_len()
                != dimensions.spec_len(),
            r == Err::<EncodingFieldDiscrete, KError>(KError::MissingAxis) <==> (fov.spec_len()
                == dimensions.spec_len() && dimensions.spec_len() < 2),
            r == Err::<EncodingFieldDiscrete, KError>(KError::ZeroDivisor) <==> (fov.spec_len()
                == dimensions.spec_len() && dimensions.spec_len() >= 2 && axis_count(dimensions, 1)
                == 0),
            r == Err::<EncodingFieldDiscrete, KError>(KError::Overflow) <==> (fov.spec_len()
                == dimensions.spec_len() && dimensions.spec_len() >= 2 && axis_count(dimensions, 1)
                != 0 && (!dimensions.product_fits() || axis_count(dimensions, 1) * FIX_SCALE
                > i64::MAX || !lin_fits(axis_extent(fov, 1), axis_count(dimensions, 1)))),
            r is Ok <==> (fov.spec_len() == dimensions.spec_len() && dimensions.spec_len() >= 2
                && axis_count(dimensions, 1) != 0 && dimensions.product_fits() && axis_count(
                dimensions,
                1,
            ) * FIX_SCALE <= i64::MAX && lin_fits(axis_extent(fov, 1), axis_count(dimensions, 1))),
            r matches Ok(f) ==> lin_field_ok(f.spec_field_vals(), fov, dimensions, 1)
                && f.spec_dimensions() == dimensions && f.spec_fov() == fov,
    {
        if dimensions.len() >= 2 || fov.len() != dimensions.len() {
            linear_axis(fov, dimensions, 1)
        } else {
            Err(KError::MissingAxis)
        }
    }

    /// A field linear in the third axis; refused below three dimensions.
    pub fn linear_z(fov: SpatialDims<Fix>, dimensions: SpatialDims<usize>) -> (r: Result<
        EncodingFieldDiscrete,
        KError,
    >)
        ensures
            r == Err::<EncodingFieldDiscrete, KError>(KError::ArityMismatch) <==> fov.spec_len()
                != dimensions.spec_len(),
            r == Err::<EncodingFieldDiscrete, KError>(KError::MissingAxis) <==> (fov.spec_len()
                == dimensions.spec_len() && dimensions.spec_len() < 3),
            r == Err::<EncodingFieldDiscrete, KError>(KError::ZeroDivisor) <==> (fov.spec_len()
                == dimensions.spec_len() && dimensions.spec_len() >= 3 && axis_count(dimensions, 2)
                == 0),
            r == Err::<EncodingFieldDiscrete, KError>(KError::Overflow) <==> (fov.spec_len()
                == dimensions.spec_len() && dimensions.spec_len() >= 3 && axis_count(dimensions, 2)
                != 0 && (!dimensions.product_fits() || axis_count(dimensions, 2) * FIX_SCALE
                > i64::MAX || !lin_fits(axis_extent(fov, 2), axis_count(dimensions, 2)))),
            r is Ok <==> (fov.spec_len() == dimensions.spec_len() && dimensions.spec_len() >= 3
                && axis_count(dimensions, 2) != 0 && dimensions.product_fits() && axis_count(
                dimensions,
                2,
            ) * FIX_SCALE <= i64::MAX && lin_fits(axis_extent(fov, 2), axis_count(dimensions, 2))),
            r matches Ok(f) ==> lin_field_ok(f.spec_field_vals(), fov, dimensions, 2)
                && f.spec_dimensions() == dimensions && f.spec_fov() == fov,
    {
        if dimensions.len() >= 3 || fov.len() != dimensions.len() {
            linear_axis(fov, dimensions, 2)
        } else {
            Err(KError::MissingAxis)
        }
    }

    /// Return the grid counts.
    pub fn dimensions(&self) -> (d: SpatialDims<usize>)
        ensures
            d == self.spec_dimensions(),
    {
        self.dimensions
    }

    /// Return the field of view.
    pub fn fov(&self) -> (d: SpatialDims<Fix>)
        ensures
            d == self.spec_fov(),
    {
        self.fov
    }
}

/// A field linear in the given axis, which the arity covers.
fn linear_axis(fov: SpatialDims<Fix>, dimensions: SpatialDims<usize>, axis: usize) -> (r: Result<
    EncodingFieldDiscrete,
    KError,
>)
    requires
        axis < 3,
        fov.spec_len() == dimensions.spec_len() ==> axis < dimensions.spec_len(),
    ensures
        r == Err::<EncodingFieldDiscrete, KError>(KError::ArityMismatch) <==> fov.spec_len()
            != dimensions.spec_len(),
        r == Err::<EncodingFieldDiscrete, KError>(KError::ZeroDivisor) <==> (fov.spec_len()
            == dimensions.spec_len() && axis_count(dimensions, axis as int) == 0),
        r == Err::<EncodingFieldDiscrete, KError>(KError::Overflow) <==> (fov.spec_len()
            == dimensions.spec_len() && axis_count(dimensions, axis as int) != 0 && (
        !dimensions.product_fits() || axis_count(dimensions, axis as int) * FIX_SCALE > i64::MAX
            || !lin_fits(axis_extent(fov, axis as int), axis_count(dimensions, axis as int)))),
        r is Ok <==> (fov.spec_len() == dimensions.spec_len() && axis_count(
            dimensions,
            axis as int,
        ) != 0 && dimensions.product_fits() && axis_count(dimensions, axis as int) * FIX_SCALE
            <= i64::MAX && lin_fits(
            axis_extent(fov, axis as int),
            axis_count(dimensions, axis as int),
        )),
        r matches Ok(f) ==> lin_field_ok(f.spec_field_vals(), fov, dimensions, axis as int)
            && f.spec_dimensions() == dimensions && f.spec_fov() == fov,
{
    if fov.len() != dimensions.len() {
        return Err(KError::ArityMismatch);
    }
    let (nx, ny, nz): (usize, usize, usize) = match dimensions {
        SpatialDims::OneD(x) => (x, 1, 1),
        SpatialDims::TwoD(x, y) => (x, y, 1),
        SpatialDims::ThreeD(x, y, z) => (x, y, z),
    };
    let n: usize = if axis == 0 {
        nx
    } else if axis == 1 {
        ny
    } else {
        nz
    };
    let fv: Fix = match fov {
        SpatialDims::OneD(x) => if axis == 0 {
            x
        } else {
            Fix(0)
        },
        SpatialDims::TwoD(x, y) => if axis == 0 {
            x
        } else {
            y
        },
        SpatialDims::ThreeD(x, y, z) => if axis == 0 {
            x
        } else if axis == 1 {
            y
        } else {
            z
        },
    };
    if n == 0 {
        return Err(KError::ZeroDivisor);
    }
    let total = match dimensions.checked_product() {
        Some(t) => t,
        None => {
            return Err(KError::Overflow);
        },
    };
    let vals = match linear_axis_vals(fv, n) {
        Ok(v) => v,
        Err(e) => {
            return Err(e);
        },
    };
    proof {
        assert((nx as int) * (ny as int) * (nz as int) == dimensions.spec_product())
            by (nonlinear_arith)
            requires
                (dimensions is OneD ==> nx == axis_count(dimensions, 0) && ny == 1 && nz == 1)
                    && (dimensions is TwoD ==> nz == 1),
                dimensions matches SpatialDims::OneD(x) ==> nx == x && ny == 1 && nz == 1,
                dimensions matches SpatialDims::TwoD(x, y) ==> nx == x && ny == y && nz == 1,
                dimensions matches SpatialDims::ThreeD(x, y, z) ==> nx == x && ny == y && nz == z,
                dimensions.spec_product() == (match dimensions {
                    SpatialDims::OneD(x) => x as int,
                    SpatialDims::TwoD(x, y) => (x as int) * (y as int),
                    SpatialDims::ThreeD(x, y, z) => (x as int) * (y as int) * (z as int),
                }),
        ;
        assert((nx as int) * (ny as int) <= usize::MAX) by {
            match dimensions {
                SpatialDims::OneD(_) => {
                    assert((nx as int) * 1 == nx as int) by (nonlinear_arith);
                },
                SpatialDims::TwoD(_, _) => {},
                SpatialDims::ThreeD(_, _, _) => {},
            }
        }
    }
    let field = grid_from_axis(&vals, nx, ny, nz, axis);
    Ok(EncodingFieldDiscrete { field, dimensions, fov })
}

} // verus!
