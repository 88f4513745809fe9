//! The local k-space: a trajectory bound to one encoding field per channel.
//! Querying at a position evaluates each field's gradient there and projects
//! every trajectory sample through the resulting gradient matrix, yielding a
//! new explicit trajectory.

use crate::encodingfield::{deriv_arity, deriv_axis_val, deriv_ok, dims_to_vec, EncodingField};
use crate::errors::KError;
use crate::fixed::{fix_mul_raw, in_i64, Fix, FIX_SCALE};
use crate::kspace::{fix_raws, rows_raws, KSpace};
use crate::parameterized::KSpaceParameterizedProjections;
use crate::projections::KSpaceProjections;
use crate::spatialdims::SpatialDims;
use vstd::prelude::*;

verus! {

/// One of the three trajectory representations, behind one surface.
#[derive(Debug)]
pub enum Trajectory {
    /// An explicit sample list.
    Samples(KSpace),
    /// Spokes of explicit samples.
    Projections(KSpaceProjections),
    /// Parameterized spokes whose samples are generated on demand.
    Parameterized(KSpaceParameterizedProjections),
}

impl Trajectory {
    /// The wrapped trajectory is well-formed.
    pub open spec fn wf(&self) -> bool {
        match self {
            Trajectory::Samples(k) => k.wf(),
            Trajectory::Projections(p) => p.wf(),
            Trajectory::Parameterized(q) => q.wf(),
        }
    }

    /// The channel count.
    pub open spec fn spec_channels(&self) -> int {
        match self {
            Trajectory::Samples(k) => k.spec_channels(),
            Trajectory::Projections(p) => p.spec_channels(),
            Trajectory::Parameterized(q) => q.spec_channels(),
        }
    }

    /// The total number of samples.
    pub open spec fn spec_total(&self) -> int {
        match self {
            Trajectory::Samples(k) => k.spec_len(),
            Trajectory::Projections(p) => p.spec_total(),
            Trajectory::Parameterized(q) => q.spec_total(),
        }
    }

    /// The number of units: samples for an explicit list, spokes otherwise.
    pub open spec fn spec_units(&self) -> int {
        match self {
            Trajectory::Samples(k) => k.spec_len(),
            Trajectory::Projections(p) => p.spec_units(),
            Trajectory::Parameterized(q) => q.spec_units(),
        }
    }

    /// The raw values of all samples, flattened in order.
    pub open spec fn spec_flat(&self) -> Seq<Seq<int>> {
        match self {
            Trajectory::Samples(k) => k.spec_rows(),
            Trajectory::Projections(p) => p.spec_flat(),
            Trajectory::Parameterized(q) => q.spec_flat(),
        }
    }

    /// Whether flattening succeeds: always, except for a parameterized
    /// trajectory some generated sample of which is not representable.
    pub open spec fn samples_ok(&self) -> bool {
        match self {
            Trajectory::Samples(_) => true,
            Trajectory::Projections(_) => true,
            Trajectory::Parameterized(q) => q.gen_ok(),
        }
    }

    /// A well-formed trajectory's flattened samples number the total and all
    /// have the channel count.
    pub proof fn lemma_wf_flat(&self)
        requires
            self.wf(),
        ensures
            self.spec_flat().len() == self.spec_total(),
            forall|m: int|
                0 <= m < self.spec_flat().len() ==> (#[trigger] self.spec_flat()[m]).len()
                    == self.spec_channels(),
    {
        match self {
            Trajectory::Samples(k) => k.lemma_wf_rows(),
            Trajectory::Projections(p) => p.lemma_wf_flat(),
            Trajectory::Parameterized(q) => q.lemma_wf_flat(),
        }
    }

    /// Return the channel count.
    pub fn num_channels(&self) -> (n: usize)
        ensures
            n == self.spec_channels(),
    {
        match self {
            Trajectory::Samples(k) => k.num_channels(),
            Trajectory::Projections(p) => p.num_channels(),
            Trajectory::Parameterized(q) => q.num_channels(),
        }
    }

    /// Return the total number of samples.
    pub fn num_samples(&self) -> (n: usize)
        requires
            self.wf(),
        ensures
            n == self.spec_total(),
    {
        match self {
            Trajectory::Samples(k) => k.num_samples(),
            Trajectory::Projections(p) => p.num_samples(),
            Trajectory::Parameterized(q) => q.num_samples(),
        }
    }

    /// Return the number of units.
    pub fn num_units(&self) -> (n: usize)
        requires
            self.wf(),
        ensures
            n == self.spec_units(),
    {
        match self {
            Trajectory::Samples(k) => k.num_units(),
            Trajectory::Projections(p) => p.num_units(),
            Trajectory::Parameterized(q) => q.num_units(),
        }
    }

    /// Return every sample, flattened in order.
    pub fn samples(&self) -> (r: Result<Vec<Vec<Fix>>, KError>)
        requires
            self.wf(),
        ensures
            r is Ok <==> self.samples_ok(),
            r matches Ok(v) ==> rows_raws(v@) == self.spec_flat() && v@.len() == self.spec_total()
                && (forall|m: int|
                0 <= m < v@.len() ==> (#[trigger] v@[m])@.len() == self.spec_channels()),
            r matches Err(e) ==> e == KError::Overflow,
    {
        match self {
            Trajectory::Samples(k) => Ok(k.samples()),
            Trajectory::Projections(p) => Ok(p.samples()),
            Trajectory::Parameterized(q) => q.samples(),
        }
    }
}

/// Whether every field's derivative at the position is representable.
pub open spec fn derivs_ok(fields: Seq<EncodingField>, pos: SpatialDims<Fix>) -> bool {
    forall|c: int| 0 <= c < fields.len() ==> deriv_ok(#[trigger] fields[c], pos)
}

/// Whether every field's derivative covers the position's axes.
pub open spec fn derivs_arity_ok(fields: Seq<EncodingField>, pos: SpatialDims<Fix>) -> bool {
    forall|c: int| 0 <= c < fields.len() ==> deriv_arity(#[trigger] fields[c], pos) >= pos.spec_len()
}

/// One row of the gradient matrix: the per-channel derivative values along
/// axis `a`.
pub open spec fn grad_row(fields: Seq<EncodingField>, pos: SpatialDims<Fix>, a: int) -> Seq<int> {
    Seq::new(fields.len(), |c: int| deriv_axis_val(fields[c], pos, a))
}

/// Raw dot product of the first `k` channels of a sample with a gradient row,
/// each term a truncated fixed-point product, summed left to right.
pub open spec fn dot_prefix(s: Seq<int>, g: Seq<int>, k: int) -> int
    decreases k,
{
    if k <= 0 {
        0
    } else {
        dot_prefix(s, g, k - 1) + fix_mul_raw(s[k - 1], g[k - 1])
    }
}

/// Whether every term and every partial sum of the dot product is
/// representable.
pub open spec fn dot_ok(s: Seq<int>, g: Seq<int>, k: int) -> bool
    decreases k,
{
    if k <= 0 {
        true
    } else {
        dot_ok(s, g, k - 1) && in_i64(fix_mul_raw(s[k - 1], g[k - 1])) && in_i64(
            dot_prefix(s, g, k),
        )
    }
}

/// A failed prefix stays failed as the dot product extends.
proof fn lemma_dot_ok_extends(s: Seq<int>, g: Seq<int>, k1: int, k2: int)
    requires
        k1 <= k2,
        !dot_ok(s, g, k1),
    ensures
        !dot_ok(s, g, k2),
    decreases k2,
{
    if k1 < k2 {
        lemma_dot_ok_extends(s, g, k1, k2 - 1);
    }
}

/// Whether projecting every flattened sample through the gradient matrix
/// stays representable.
pub open spec fn transform_ok(
    flat: Seq<Seq<int>>,
    fields: Seq<EncodingField>,
    pos: SpatialDims<Fix>,
) -> bool {
    forall|m: int, a: int|
        0 <= m < flat.len() && 0 <= a < pos.spec_len() ==> #[trigger] dot_ok(
            flat[m],
            grad_row(fields, pos, a),
            fields.len() as int,
        )
}

/// Law: the identity gradient reproduces a sample. Dotting a sample with the
/// unit row of axis `a` — the fixed-point one at channel `a`, zero elsewhere —
/// returns the sample's `a`-th channel unchanged, without overflow. So a
/// local k-space whose channel gradients form the identity matrix returns
/// every trajectory sample unchanged.
pub proof fn lemma_identity_gradient(s: Seq<int>, g: Seq<int>, a: int, n: int)
    requires
        0 <= a < n,
        n <= s.len(),
        n <= g.len(),
        in_i64(s[a]),
        forall|c: int| 0 <= c < n ==> g[c] == (if c == a {
            FIX_SCALE as int
        } else {
            0
        }),
    ensures
        dot_prefix(s, g, n) == s[a],
        dot_ok(s, g, n),
{
    lemma_identity_gradient_prefix(s, g, a, n);
}

/// Law: a field set whose per-channel gradients at a position form the
/// fixed-point identity matrix reproduces every flattened trajectory sample
/// unchanged through the local transform, and the transform cannot overflow.
/// Together with the contract of `LocalKSpace::at`, whose output samples are
/// exactly these dot products, the local trajectory then equals the original.
pub proof fn lemma_identity_fields_reproduce_samples(
    flat: Seq<Seq<int>>,
    fields: Seq<EncodingField>,
    pos: SpatialDims<Fix>,
    m: int,
    a: int,
)
    requires
        0 <= m < flat.len(),
        0 <= a < pos.spec_len(),
        flat[m].len() == fields.len(),
        pos.spec_len() == fields.len(),
        in_i64(flat[m][a]),
        forall|c: int, a2: int|
            0 <= c < fields.len() && 0 <= a2 < pos.spec_len() ==> #[trigger] deriv_axis_val(
                fields[c],
                pos,
                a2,
            ) == (if c == a2 {
                FIX_SCALE as int
            } else {
                0
            }),
    ensures
        dot_prefix(flat[m], grad_row(fields, pos, a), fields.len() as int) == flat[m][a],
        dot_ok(flat[m], grad_row(fields, pos, a), fields.len() as int),
{
    let g = grad_row(fields, pos, a);
    assert(forall|c: int|
        0 <= c < fields.len() ==> g[c] == (if c == a {
            FIX_SCALE as int
        } else {
            0
        }));
    lemma_identity_gradient(flat[m], g, a, fields.len() as int);
}

/// Induction for [`lemma_identity_gradient`]: the partial dot is zero before
/// channel `a` is reached and the sample's `a`-th channel afterwards.
proof fn lemma_identity_gradient_prefix(s: Seq<int>, g: Seq<int>, a: int, k: int)
    requires
        0 <= a,
        k <= s.len(),
        k <= g.len(),
        in_i64(s[a]),
        forall|c: int| 0 <= c < k ==> g[c] == (if c == a {
            FIX_SCALE as int
        } else {
            0
        }),
    ensures
        dot_prefix(s, g, k) == (if a < k {
            s[a]
        } else {
            0
        }),
        dot_ok(s, g, k),
    decreases k,
{
    if k > 0 {
        lemma_identity_gradient_prefix(s, g, a, k - 1);
        if k - 1 == a {
            crate::fixed::lemma_fix_mul_one(s[a]);
        } else {
            crate::fixed::lemma_fix_mul_zero(s[k - 1]);
        }
    }
}

/// A trajectory bound to one encoding field per channel.
#[derive(Debug)]
pub struct LocalKSpace {
    kspace: Trajectory,
    fields: Vec<EncodingField>,
}

impl LocalKSpace {
    /// The bound trajectory.
    pub closed spec fn spec_trajectory(&self) -> Trajectory {
        self.kspace
    }

    /// The bound fields, one per channel.
    pub closed spec fn spec_fields(&self) -> Seq<EncodingField> {
        self.fields@
    }

    /// The trajectory is well-formed, the fields match its channels one to
    /// one, and each field is well-formed.
    pub closed spec fn wf(&self) -> bool {
        &&& self.kspace.wf()
        &&& self.kspace.spec_channels() == self.fields@.len()
        &&& forall|c: int| 0 <= c < self.fields@.len() ==> (#[trigger] self.fields@[c]).wf()
    }

    /// Bind a trajectory to its fields; a field count differing from the
    /// trajectory's channel count is refused.
    pub fn new(kspace: Trajectory, fields: Vec<EncodingField>) -> (r: Result<LocalKSpace, KError>)
        requires
            kspace.wf(),
            forall|c: int| 0 <= c < fields@.len() ==> (#[trigger] fields@[c]).wf(),
        ensures
            r is Ok <==> kspace.spec_channels() == fields@.len(),
            r matches Err(e) ==> e == KError::ChannelMismatch,
            r matches Ok(l) ==> l.wf() && l.spec_trajectory() == kspace && l.spec_fields()
                == fields@,
    {
        if kspace.num_channels() == fields.len() {
            Ok(LocalKSpace { kspace, fields })
        } else {
            Err(KError::ChannelMismatch)
        }
    }

    /// The local trajectory at a position: every field's gradient is
    /// evaluated there, assembled into a channels-by-axes matrix, and every
    /// flattened trajectory sample is dotted with each axis column, giving a
    /// new explicit trajectory with one channel per axis of the position.
    pub fn at(&self, pos: &SpatialDims<Fix>) -> (r: Result<KSpace, KError>)
        requires
            self.wf(),
        ensures
            r == Err::<KSpace, KError>(KError::EvalFailed) <==> !derivs_ok(
                self.spec_fields(),
                *pos,
            ),
            r == Err::<KSpace, KError>(KError::MissingAxis) <==> (derivs_ok(
                self.spec_fields(),
                *pos,
            ) && !derivs_arity_ok(self.spec_fields(), *pos)),
            r == Err::<KSpace, KError>(KError::Overflow) <==> (derivs_ok(self.spec_fields(), *pos)
                && derivs_arity_ok(self.spec_fields(), *pos) && (
            !self.spec_trajectory().samples_ok() || !transform_ok(
                self.spec_trajectory().spec_flat(),
                self.spec_fields(),
                *pos,
            ))),
            r is Ok <==> (derivs_ok(self.spec_fields(), *pos) && derivs_arity_ok(
                self.spec_fields(),
                *pos,
            ) && self.spec_trajectory().samples_ok() && transform_ok(
                self.spec_trajectory().spec_flat(),
                self.spec_fields(),
                *pos,
            )),
            r matches Ok(out) ==> out.wf() && out.spec_len() == self.spec_trajectory().spec_total()
                && (out.spec_len() > 0 ==> out.spec_channels() == pos.spec_len()) && (out.spec_len()
                == 0 ==> out.spec_channels() == 0) && (forall|m: int, a: int|
                0 <= m < out.spec_len() && 0 <= a < pos.spec_len()
                    ==> #[trigger] out.spec_rows()[m][a] == dot_prefix(
                    self.spec_trajectory().spec_flat()[m],
                    grad_row(self.spec_fields(), *pos, a),
                    self.spec_fields().len() as int,
                )),
    {
        let ghost fseq = self.fields@;
        let nc = self.fields.len();
        let mut derivs: Vec<Vec<Fix>> = Vec::new();
        let mut c: usize = 0;
        while c < nc
            invariant
                self.wf(),
                fseq == self.fields@,
                nc == fseq.len(),
                c <= nc,
                derivs@.len() == c,
                forall|c2: int| 0 <= c2 < c ==> deriv_ok(#[trigger] fseq[c2], *pos),
                forall|c2: int|
                    0 <= c2 < c ==> (#[trigger] derivs@[c2])@.len() == deriv_arity(fseq[c2], *pos),
                forall|c2: int, a: int|
                    #![trigger derivs@[c2]@[a]]
                    0 <= c2 < c && 0 <= a < derivs@[c2]@.len() ==> derivs@[c2]@[a].0
                        == deriv_axis_val(fseq[c2], *pos, a),
            decreases nc - c,
        {
            let f = &self.fields[c];
            match f.deriv_at(pos) {
                Some(d) => {
                    let dv = dims_to_vec(&d);
                    derivs.push(dv);
                    c = c + 1;
                },
                None => {
                    proof {
                        assert(!deriv_ok(fseq[c as int], *pos));
                        assert(!derivs_ok(fseq, *pos));
                    }
                    return Err(KError::EvalFailed);
                },
            }
        }
        let pa = pos.len();
        let mut c2: usize = 0;
        while c2 < nc
            invariant
                self.wf(),
                fseq == self.fields@,
                nc == fseq.len(),
                pa == pos.spec_len(),
                c2 <= nc,
                derivs@.len() == nc,
                derivs_ok(fseq, *pos),
                forall|t: int|
                    0 <= t < nc ==> (#[trigger] derivs@[t])@.len() == deriv_arity(fseq[t], *pos),
                forall|t: int, a: int|
                    #![trigger derivs@[t]@[a]]
                    0 <= t < nc && 0 <= a < derivs@[t]@.len() ==> derivs@[t]@[a].0
                        == deriv_axis_val(fseq[t], *pos, a),
                forall|t: int| 0 <= t < c2 ==> deriv_arity(#[trigger] fseq[t], *pos) >= pa,
            decreases nc - c2,
        {
            if derivs[c2].len() < pa {
                proof {
                    assert(deriv_arity(fseq[c2 as int], *pos) < pos.spec_len());
                    assert(!derivs_arity_ok(fseq, *pos));
                }
                return Err(KError::MissingAxis);
            }
            c2 = c2 + 1;
        }
        let ghost fl = self.kspace.spec_flat();
        let flat = match self.kspace.samples() {
            Ok(v) => v,
            Err(_) => {
                return Err(KError::Overflow);
            },
        };
        proof {
            self.kspace.lemma_wf_flat();
        }
        let mut out = KSpace::new();
        let mut m: usize = 0;
        while m < flat.len()
            invariant
                self.wf(),
                fseq == self.fields@,
                nc == fseq.len(),
                pa == pos.spec_len(),
                derivs@.len() == nc,
                derivs_ok(fseq, *pos),
                derivs_arity_ok(fseq, *pos),
                forall|t: int|
                    0 <= t < nc ==> (#[trigger] derivs@[t])@.len() == deriv_arity(fseq[t], *pos),
                forall|t: int, a: int|
                    #![trigger derivs@[t]@[a]]
                    0 <= t < nc && 0 <= a < derivs@[t]@.len() ==> derivs@[t]@[a].0
                        == deriv_axis_val(fseq[t], *pos, a),
                forall|t: int| 0 <= t < nc ==> deriv_arity(#[trigger] fseq[t], *pos) >= pa,
                self.kspace.samples_ok(),
                fl == self.kspace.spec_flat(),
                rows_raws(flat@) == fl,
                flat@.len() == fl.len(),
                forall|t: int| 0 <= t < flat@.len() ==> (#[trigger] flat@[t])@.len() == nc,
                m <= flat@.len(),
                out.wf(),
                out.spec_len() == m,
                m > 0 ==> out.spec_channels() == pa,
                m == 0 ==> out.spec_channels() == 0,
                forall|t: int, a: int|
                    0 <= t < m && 0 <= a < pa ==> #[trigger] dot_ok(
                        fl[t],
                        grad_row(fseq, *pos, a),
                        nc as int,
                    ),
                forall|t: int, a: int|
                    #![trigger out.spec_rows()[t][a]]
                    0 <= t < m && 0 <= a < pa ==> out.spec_rows()[t][a] == dot_prefix(
                        fl[t],
                        grad_row(fseq, *pos, a),
                        nc as int,
                    ),
            decreases flat@.len() - m,
        {
            let mut orow: Vec<Fix> = Vec::new();
            let mut a: usize = 0;
            while a < pa
                invariant
                    self.wf(),
                    fseq == self.fields@,
                    nc == fseq.len(),
                    pa == pos.spec_len(),
                    derivs@.len() == nc,
                    forall|t: int|
                        0 <= t < nc ==> (#[trigger] derivs@[t])@.len() == deriv_arity(
                            fseq[t],
                            *pos,
                        ),
                    forall|t: int, a2: int|
                        #![trigger derivs@[t]@[a2]]
                        0 <= t < nc && 0 <= a2 < derivs@[t]@.len() ==> derivs@[t]@[a2].0
                            == deriv_axis_val(fseq[t], *pos, a2),
                    forall|t: int| 0 <= t < nc ==> deriv_arity(#[trigger] fseq[t], *pos) >= pa,
                    derivs_ok(fseq, *pos),
                    derivs_arity_ok(fseq, *pos),
                    self.kspace.samples_ok(),
                    fl == self.kspace.spec_flat(),
                    m < flat@.len(),
                    rows_raws(flat@) == fl,
                    flat@.len() == fl.len(),
                    forall|t: int| 0 <= t < flat@.len() ==> (#[trigger] flat@[t])@.len() == nc,
                    a <= pa,
                    orow@.len() == a,
                    forall|a2: int|
                        0 <= a2 < a ==> #[trigger] dot_ok(
                            fl[m as int],
                            grad_row(fseq, *pos, a2),
                            nc as int,
                        ),
                    forall|a2: int|
                        0 <= a2 < a ==> (#[trigger] orow@[a2]).0 == dot_prefix(
                            fl[m as int],
                            grad_row(fseq, *pos, a2),
                            nc as int,
                        ),
                decreases pa - a,
            {
                let mut acc = Fix(0);
                let mut cc: usize = 0;
                while cc < nc
                    invariant
                        self.wf(),
                        fseq == self.fields@,
                        nc == fseq.len(),
                        pa == pos.spec_len(),
                        a < pa,
                        derivs@.len() == nc,
                        forall|t: int|
                            0 <= t < nc ==> (#[trigger] derivs@[t])@.len() == deriv_arity(
                                fseq[t],
                                *pos,
                            ),
                        forall|t: int, a2: int|
                            #![trigger derivs@[t]@[a2]]
                            0 <= t < nc && 0 <= a2 < derivs@[t]@.len() ==> derivs@[t]@[a2].0
                                == deriv_axis_val(fseq[t], *pos, a2),
                        forall|t: int| 0 <= t < nc ==> deriv_arity(#[trigger] fseq[t], *pos) >= pa,
                        derivs_ok(fseq, *pos),
                        derivs_arity_ok(fseq, *pos),
                        self.kspace.samples_ok(),
                        fl == self.kspace.spec_flat(),
                        m < flat@.len(),
                        rows_raws(flat@) == fl,
                        flat@.len() == fl.len(),
                        forall|t: int| 0 <= t < flat@.len() ==> (#[trigger] flat@[t])@.len() == nc,
                        cc <= nc,
                        acc.0 == dot_prefix(fl[m as int], grad_row(fseq, *pos, a as int), cc as int),
                        dot_ok(fl[m as int], grad_row(fseq, *pos, a as int), cc as int),
                    decreases nc - cc,
                {
                    proof {
                        assert(fl[m as int][cc as int] == flat@[m as int]@[cc as int].0);
                        assert(grad_row(fseq, *pos, a as int)[cc as int] == deriv_axis_val(
                            fseq[cc as int],
                            *pos,
                            a as int,
                        ));
                    }
                    let term = match flat[m][cc].mul(derivs[cc][a]) {
                        Some(v) => v,
                        None => {
                            proof {
                                lemma_dot_ok_extends(
                                    fl[m as int],
                                    grad_row(fseq, *pos, a as int),
                                    cc + 1,
                                    nc as int,
                                );
                                assert(!dot_ok(
                                    fl[m as int],
                                    grad_row(fseq, *pos, a as int),
                                    nc as int,
                                ));
                                assert(!transform_ok(fl, fseq, *pos));
                            }
                            return Err(KError::Overflow);
                        },
                    };
                    let acc2 = match acc.add(term) {
                        Some(v) => v,
                        None => {
                            proof {
                                lemma_dot_ok_extends(
                                    fl[m as int],
                                    grad_row(fseq, *pos, a as int),
                                    cc + 1,
                                    nc as int,
                                );
                                assert(!dot_ok(
                                    fl[m as int],
                                    grad_row(fseq, *pos, a as int),
                                    nc as int,
                                ));
                                assert(!transform_ok(fl, fseq, *pos));
                            }
                            return Err(KError::Overflow);
                        },
                    };
                    acc = acc2;
                    cc = cc + 1;
                }
                orow.push(acc);
                a = a + 1;
            }
            proof {
                out.lemma_wf_rows();
            }
            let ghost prev_rows = out.spec_rows();
            match out.add(orow) {
                Ok(()) => {},
                Err(_) => {
                    proof {
                        assert(false);
                    }
                },
            }
            proof {
                assert forall|t: int, a2: int| 0 <= t < m + 1 && 0 <= a2 < pa implies #[trigger] out.spec_rows()[t][a2] == dot_prefix(
                    fl[t],
                    grad_row(fseq, *pos, a2),
                    nc as int,
                ) by {
                    if t < m {
                        assert(out.spec_rows()[t] == prev_rows[t]);
                    } else {
                        assert(out.spec_rows()[t][a2] == orow@[a2].0);
                    }
                }
            }
            m = m + 1;
        }
        Ok(out)
    }
}

} // verus!
