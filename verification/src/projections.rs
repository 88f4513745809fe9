//! A k-space trajectory stored as spokes: each spoke is a list of samples
//! sharing one orientation, produced by rigidly rotating one canonical
//! centered spoke.

use crate::errors::KError;
use crate::fixed::{fix_mul_raw, fix_recip_raw, in_i64, Fix, FIX_SCALE};
use crate::kspace::{
    axis_coords, axis_coords_fit, cart_coord, copy_row, fix_raws, half_count, lemma_rows_push,
    rows_raws,
};
use vstd::prelude::*;

verus! {

/// A plane rotation, stored as the cosine and sine of its angle.
#[derive(Clone, Copy, PartialEq, Eq, Structural, Debug)]
pub struct Rotation {
    /// Cosine of the rotation angle.
    pub cos: Fix,
    /// Sine of the rotation angle.
    pub sin: Fix,
}

/// Raw first coordinate of a rotated sample: `x cos - y sin`.
pub open spec fn rot_x_raw(x: int, y: int, c: int, s: int) -> int {
    fix_mul_raw(x, c) - fix_mul_raw(y, s)
}

/// Raw second coordinate of a rotated sample: `x sin + y cos`.
pub open spec fn rot_y_raw(x: int, y: int, c: int, s: int) -> int {
    fix_mul_raw(x, s) + fix_mul_raw(y, c)
}

/// Whether rotating `(x, y)` stays within the raw representation.
pub open spec fn rotate_ok(x: int, y: int, c: int, s: int) -> bool {
    &&& in_i64(fix_mul_raw(x, c))
    &&& in_i64(fix_mul_raw(y, s))
    &&& in_i64(fix_mul_raw(x, s))
    &&& in_i64(fix_mul_raw(y, c))
    &&& in_i64(rot_x_raw(x, y, c, s))
    &&& in_i64(rot_y_raw(x, y, c, s))
}

/// Rotate one two-channel sample.
fn rotate_sample(x: Fix, y: Fix, rot: &Rotation) -> (r: Option<(Fix, Fix)>)
    ensures
        r is Some <==> rotate_ok(x.0 as int, y.0 as int, rot.cos.0 as int, rot.sin.0 as int),
        r matches Some(p) ==> p.0.0 == rot_x_raw(
            x.0 as int,
            y.0 as int,
            rot.cos.0 as int,
            rot.sin.0 as int,
        ) && p.1.0 == rot_y_raw(x.0 as int, y.0 as int, rot.cos.0 as int, rot.sin.0 as int),
{
    let xc = match x.mul(rot.cos) {
        Some(v) => v,
        None => {
            return None;
        },
    };
    let ys = match y.mul(rot.sin) {
        Some(v) => v,
        None => {
            return None;
        },
    };
    let xs = match x.mul(rot.sin) {
        Some(v) => v,
        None => {
            return None;
        },
    };
    let yc = match y.mul(rot.cos) {
        Some(v) => v,
        None => {
            return None;
        },
    };
    let rx = match xc.sub(ys) {
        Some(v) => v,
        None => {
            return None;
        },
    };
    let ry = match xs.add(yc) {
        Some(v) => v,
        None => {
            return None;
        },
    };
    Some((rx, ry))
}

/// Law: the identity rotation (cosine one, sine zero) leaves every sample
/// unchanged, and never overflows on representable coordinates.
pub proof fn lemma_rotate_identity(x: int, y: int)
    requires
        in_i64(x),
        in_i64(y),
    ensures
        rot_x_raw(x, y, FIX_SCALE as int, 0) == x,
        rot_y_raw(x, y, FIX_SCALE as int, 0) == y,
        rotate_ok(x, y, FIX_SCALE as int, 0),
{
    crate::fixed::lemma_fix_mul_one(x);
    crate::fixed::lemma_fix_mul_one(y);
    crate::fixed::lemma_fix_mul_zero(x);
    crate::fixed::lemma_fix_mul_zero(y);
}

/// How many samples the canonical spoke holds: the exact center sample of the
/// centered axis is excluded, a fixed policy choice of this trajectory kind.
pub open spec fn canonical_count(n: int) -> int {
    if n == 0 {
        0
    } else {
        n - 1
    }
}

/// Which centered-axis index the `k`-th canonical-spoke sample carries: the
/// indices run over the axis with the center skipped.
pub open spec fn spoke_index(k: int, c: int) -> int {
    if k < c {
        k
    } else {
        k + 1
    }
}

/// Raw first coordinate of the `k`-th canonical-spoke sample.
pub open spec fn can_coord(k: int, n: int, dk: int) -> int {
    cart_coord(spoke_index(k, half_count(n)), n, dk)
}

/// Whether every rotated sample of every spoke stays representable.
pub open spec fn radial_rot_ok(n: int, dk: int, rots: Seq<Rotation>) -> bool {
    forall|i: int, k: int|
        0 <= i < rots.len() && 0 <= k < canonical_count(n) ==> #[trigger] rotate_ok(
            can_coord(k, n, dk),
            0,
            rots[i].cos.0 as int,
            rots[i].sin.0 as int,
        )
}

/// Total number of samples over a list of spokes.
pub open spec fn total_len(s: Seq<Vec<Vec<Fix>>>) -> int
    decreases s.len(),
{
    if s.len() == 0 {
        0
    } else {
        total_len(s.drop_last()) + s.last()@.len()
    }
}

/// The samples of a list of spokes, flattened in spoke order.
pub open spec fn flat_rows(s: Seq<Vec<Vec<Fix>>>) -> Seq<Seq<int>>
    decreases s.len(),
{
    if s.len() == 0 {
        Seq::empty()
    } else {
        flat_rows(s.drop_last()) + rows_raws(s.last()@)
    }
}

/// A total over spokes is never negative.
pub proof fn lemma_total_len_nonneg(s: Seq<Vec<Vec<Fix>>>)
    ensures
        total_len(s) >= 0,
    decreases s.len(),
{
    if s.len() > 0 {
        lemma_total_len_nonneg(s.drop_last());
    }
}

/// The flattened samples number exactly the total over spokes.
pub proof fn lemma_flat_len(s: Seq<Vec<Vec<Fix>>>)
    ensures
        flat_rows(s).len() == total_len(s),
    decreases s.len(),
{
    if s.len() > 0 {
        lemma_flat_len(s.drop_last());
    }
}

/// Appending a spoke extends the total and the flattened samples.
pub proof fn lemma_flat_push(s: Seq<Vec<Vec<Fix>>>, v: Vec<Vec<Fix>>)
    ensures
        total_len(s.push(v)) == total_len(s) + v@.len(),
        flat_rows(s.push(v)) == flat_rows(s) + rows_raws(v@),
{
    assert(s.push(v).drop_last() =~= s);
    assert(s.push(v).last() == v);
}

/// Replacing a spoke adjusts the total by the length difference.
pub proof fn lemma_total_len_update(s: Seq<Vec<Vec<Fix>>>, i: int, v: Vec<Vec<Fix>>)
    requires
        0 <= i < s.len(),
    ensures
        total_len(s.update(i, v)) == total_len(s) - s[i]@.len() + v@.len(),
    decreases s.len(),
{
    let t = s.update(i, v);
    if i == s.len() - 1 {
        assert(t.drop_last() =~= s.drop_last());
        assert(t.last() == v);
    } else {
        assert(t.drop_last() =~= s.drop_last().update(i, v));
        assert(t.last() == s.last());
        lemma_total_len_update(s.drop_last(), i, v);
    }
}

/// A single spoke never holds more samples than the whole trajectory.
pub proof fn lemma_total_len_at(s: Seq<Vec<Vec<Fix>>>, i: int)
    requires
        0 <= i < s.len(),
    ensures
        total_len(s) >= s[i]@.len(),
    decreases s.len(),
{
    if i == s.len() - 1 {
        lemma_total_len_nonneg(s.drop_last());
    } else {
        lemma_total_len_at(s.drop_last(), i);
    }
}

/// What a radial trajectory holds: one spoke per rotation, each the canonical
/// centered spoke rigidly rotated by its rotation, over two channels.
pub open spec fn radial_spokes_ok(
    k: KSpaceProjections,
    fov: Fix,
    samples: usize,
    rots: Seq<Rotation>,
) -> bool {
    let dk = fix_recip_raw(fov.0 as int);
    &&& k.spec_channels() == 2
    &&& k.spec_units() == rots.len()
    &&& k.spec_total() == canonical_count(samples as int) * rots.len()
    &&& (forall|i: int|
        0 <= i < rots.len() ==> (#[trigger] k.spec_spokes()[i]).len() == canonical_count(
            samples as int,
        ))
    &&& (forall|i: int, kk: int|
        #![trigger k.spec_spokes()[i][kk]]
        0 <= i < rots.len() && 0 <= kk < canonical_count(samples as int) ==> (
        k.spec_spokes()[i][kk].len() == 2 && k.spec_spokes()[i][kk][0] == rot_x_raw(
            can_coord(kk, samples as int, dk),
            0,
            rots[i].cos.0 as int,
            rots[i].sin.0 as int,
        ) && k.spec_spokes()[i][kk][1] == rot_y_raw(
            can_coord(kk, samples as int, dk),
            0,
            rots[i].cos.0 as int,
            rots[i].sin.0 as int,
        )))
}

/// Law: in a radial trajectory, the spoke of an identity rotation — in
/// particular the first spoke, whose angle is zero — equals the canonical
/// unrotated spoke exactly.
pub proof fn lemma_radial_identity_spoke(
    k: KSpaceProjections,
    fov: Fix,
    samples: usize,
    rots: Seq<Rotation>,
    i: int,
    kk: int,
)
    requires
        radial_spokes_ok(k, fov, samples, rots),
        0 <= i < rots.len(),
        rots[i].cos.0 == FIX_SCALE,
        rots[i].sin.0 == 0,
        0 <= kk < canonical_count(samples as int),
    ensures
        k.spec_spokes()[i][kk][0] == can_coord(kk, samples as int, fix_recip_raw(fov.0 as int)),
        k.spec_spokes()[i][kk][1] == 0,
{
    let x = can_coord(kk, samples as int, fix_recip_raw(fov.0 as int));
    crate::fixed::lemma_fix_mul_one(x);
    crate::fixed::lemma_fix_mul_zero(x);
    crate::fixed::lemma_fix_mul_zero(0);
    crate::fixed::lemma_fix_mul_zero(FIX_SCALE as int);
}

/// A k-space trajectory stored as rotated spokes.
#[derive(Debug)]
pub struct KSpaceProjections {
    projections: Vec<Vec<Vec<Fix>>>,
    num_channels: usize,
    num_samples: usize,
    num_projections: usize,
}

impl KSpaceProjections {
    /// The raw values of the stored spokes, spoke by spoke.
    pub closed spec fn spec_spokes(&self) -> Seq<Seq<Seq<int>>> {
        Seq::new(self.projections@.len(), |i: int| rows_raws(self.projections@[i]@))
    }

    /// The raw values of all samples, flattened in spoke order.
    pub closed spec fn spec_flat(&self) -> Seq<Seq<int>> {
        flat_rows(self.projections@)
    }

    /// The established channel count.
    pub closed spec fn spec_channels(&self) -> int {
        self.num_channels as int
    }

    /// The number of spokes.
    pub closed spec fn spec_units(&self) -> int {
        self.projections@.len() as int
    }

    /// The total number of samples over all spokes.
    pub closed spec fn spec_total(&self) -> int {
        total_len(self.projections@)
    }

    /// Counters agree with the stored spokes and every sample has the
    /// established channel count.
    pub closed spec fn wf(&self) -> bool {
        &&& self.num_projections == self.projections@.len()
        &&& self.num_samples == total_len(self.projections@)
        &&& forall|i: int, k: int|
            0 <= i < self.projections@.len() && 0 <= k < self.projections@[i]@.len()
                ==> (#[trigger] self.projections@[i]@[k])@.len() == self.num_channels
    }

    /// A well-formed trajectory's flattened samples all have the established
    /// channel count.
    pub proof fn lemma_wf_flat(&self)
        requires
            self.wf(),
        ensures
            self.spec_flat().len() == self.spec_total(),
            forall|m: int|
                0 <= m < self.spec_flat().len() ==> (#[trigger] self.spec_flat()[m]).len()
                    == self.spec_channels(),
    {
        lemma_flat_lens(self.projections@, self.num_channels as int);
    }

    /// An empty trajectory with no established channel count.
    pub fn new() -> (k: KSpaceProjections)
        ensures
            k.wf(),
            k.spec_units() == 0,
            k.spec_total() == 0,
            k.spec_channels() == 0,
    {
        KSpaceProjections { projections: Vec::new(), num_channels: 0, num_samples: 0, num_projections: 0 }
    }

    /// Build a radial trajectory: one canonical centered spoke along the
    /// first axis with step `1 / fov` — its exact center sample excluded, a
    /// fixed policy choice of this trajectory kind — rigidly rotated by each
    /// given rotation in turn. Two channels.
    pub fn radial(fov: Fix, samples: usize, rotations: &Vec<Rotation>) -> (r: Result<
        KSpaceProjections,
        KError,
    >)
        ensures
            r == Err::<KSpaceProjections, KError>(KError::ZeroDivisor) <==> fov.0 == 0,
            r == Err::<KSpaceProjections, KError>(KError::Overflow) <==> (fov.0 != 0 && (
            !axis_coords_fit(samples as int, fix_recip_raw(fov.0 as int)) || canonical_count(
                samples as int,
            ) * rotations@.len() > usize::MAX || !radial_rot_ok(
                samples as int,
                fix_recip_raw(fov.0 as int),
                rotations@,
            ))),
            r is Ok <==> (fov.0 != 0 && axis_coords_fit(
                samples as int,
                fix_recip_raw(fov.0 as int),
            ) && canonical_count(samples as int) * rotations@.len() <= usize::MAX && radial_rot_ok(
                samples as int,
                fix_recip_raw(fov.0 as int),
                rotations@,
            )),
            r matches Ok(k) ==> k.wf() && radial_spokes_ok(k, fov, samples, rotations@),
    {
        let dk = match fov.recip() {
            Some(v) => v,
            None => {
                return Err(KError::ZeroDivisor);
            },
        };
        let axis = match axis_coords(samples, dk) {
            Ok(v) => v,
            Err(e) => {
                return Err(e);
            },
        };
        let c: usize = samples / 2;
        let mut spoke: Vec<Vec<Fix>> = Vec::new();
        let mut ii: usize = 0;
        while ii < samples
            invariant
                ii <= samples,
                c == samples as int / 2,
                axis@.len() == samples,
                forall|t: int| 0 <= t < samples ==> axis@[t].0 == cart_coord(t, samples as int, dk.0 as int),
                spoke@.len() == (if ii <= c {
                    ii as int
                } else {
                    ii - 1
                }),
                forall|k: int|
                    0 <= k < spoke@.len() ==> (#[trigger] spoke@[k])@.len() == 2 && spoke@[k]@[0].0
                        == can_coord(k, samples as int, dk.0 as int) && spoke@[k]@[1].0 == 0,
            decreases samples - ii,
        {
            if ii != c {
                let mut row: Vec<Fix> = Vec::new();
                row.push(axis[ii]);
                row.push(Fix(0));
                spoke.push(row);
            }
            ii = ii + 1;
        }
        proof {
            if samples > 0 {
                vstd::arithmetic::div_mod::lemma_div_decreases(samples as int, 2);
            }
            assert(spoke@.len() == canonical_count(samples as int));
        }
        let total = match spoke.len().checked_mul(rotations.len()) {
            Some(t) => t,
            None => {
                return Err(KError::Overflow);
            },
        };
        let cc: Ghost<int> = Ghost(canonical_count(samples as int));
        let mut projections: Vec<Vec<Vec<Fix>>> = Vec::new();
        let mut i: usize = 0;
        while i < rotations.len()
            invariant
                i <= rotations@.len(),
                cc@ == canonical_count(samples as int),
                spoke@.len() == cc@,
                forall|k: int|
                    0 <= k < spoke@.len() ==> (#[trigger] spoke@[k])@.len() == 2 && spoke@[k]@[0].0
                        == can_coord(k, samples as int, dk.0 as int) && spoke@[k]@[1].0 == 0,
                fov.0 != 0,
                dk.0 == fix_recip_raw(fov.0 as int),
                projections@.len() == i,
                total_len(projections@) == i * cc@,
                forall|i2: int| 0 <= i2 < i ==> (#[trigger] projections@[i2])@.len() == cc@,
                forall|i2: int, k: int|
                    0 <= i2 < i && 0 <= k < cc@ ==> #[trigger] rotate_ok(
                        can_coord(k, samples as int, dk.0 as int),
                        0,
                        rotations@[i2].cos.0 as int,
                        rotations@[i2].sin.0 as int,
                    ),
                forall|i2: int, k: int|
                    #![trigger projections@[i2]@[k]]
                    0 <= i2 < i && 0 <= k < cc@ ==> (projections@[i2]@[k]@.len() == 2
                        && projections@[i2]@[k]@[0].0 == rot_x_raw(
                        can_coord(k, samples as int, dk.0 as int),
                        0,
                        rotations@[i2].cos.0 as int,
                        rotations@[i2].sin.0 as int,
                    ) && projections@[i2]@[k]@[1].0 == rot_y_raw(
                        can_coord(k, samples as int, dk.0 as int),
                        0,
                        rotations@[i2].cos.0 as int,
                        rotations@[i2].sin.0 as int,
                    )),
            decreases rotations@.len() - i,
        {
            let rot = rotations[i];
            let mut spoke_n: Vec<Vec<Fix>> = Vec::new();
            let mut k: usize = 0;
            while k < spoke.len()
                invariant
                    k <= spoke@.len(),
                    i < rotations@.len(),
                    rot == rotations@[i as int],
                    cc@ == canonical_count(samples as int),
                    fov.0 != 0,
                    dk.0 == fix_recip_raw(fov.0 as int),
                    spoke@.len() == cc@,
                    forall|k2: int|
                        0 <= k2 < spoke@.len() ==> (#[trigger] spoke@[k2])@.len() == 2
                            && spoke@[k2]@[0].0 == can_coord(k2, samples as int, dk.0 as int)
                            && spoke@[k2]@[1].0 == 0,
                    spoke_n@.len() == k,
                    forall|k2: int|
                        0 <= k2 < k ==> #[trigger] rotate_ok(
                            can_coord(k2, samples as int, dk.0 as int),
                            0,
                            rot.cos.0 as int,
                            rot.sin.0 as int,
                        ),
                    forall|k2: int|
                        0 <= k2 < k ==> (#[trigger] spoke_n@[k2])@.len() == 2 && spoke_n@[k2]@[0].0
                            == rot_x_raw(
                            can_coord(k2, samples as int, dk.0 as int),
                            0,
                            rot.cos.0 as int,
                            rot.sin.0 as int,
                        ) && spoke_n@[k2]@[1].0 == rot_y_raw(
                            can_coord(k2, samples as int, dk.0 as int),
                            0,
                            rot.cos.0 as int,
                            rot.sin.0 as int,
                        ),
                decreases spoke@.len() - k,
            {
                let s0 = spoke[k][0];
                let s1 = spoke[k][1];
                match rotate_sample(s0, s1, &rot) {
                    Some(p) => {
                        let mut row: Vec<Fix> = Vec::new();
                        row.push(p.0);
                        row.push(p.1);
                        spoke_n.push(row);
                        k = k + 1;
                    },
                    None => {
                        proof {
                            assert(!rotate_ok(
                                can_coord(k as int, samples as int, dk.0 as int),
                                0,
                                rotations@[i as int].cos.0 as int,
                                rotations@[i as int].sin.0 as int,
                            ));
                            assert(!radial_rot_ok(samples as int, dk.0 as int, rotations@));
                        }
                        return Err(KError::Overflow);
                    },
                }
            }
            proof {
                lemma_flat_push(projections@, spoke_n);
                assert((i + 1) * cc@ == i * cc@ + cc@) by (nonlinear_arith);
            }
            projections.push(spoke_n);
            i = i + 1;
        }
        let res = KSpaceProjections {
            projections,
            num_channels: 2,
            num_samples: total,
            num_projections: rotations.len(),
        };
        proof {
            assert(total == cc@ * rotations@.len()) by (nonlinear_arith)
                requires
                    total == spoke@.len() * rotations@.len(),
                    spoke@.len() == cc@,
            ;
            assert(total_len(res.projections@) == rotations@.len() * cc@);
            assert(rotations@.len() * cc@ == cc@ * rotations@.len()) by (nonlinear_arith);
            assert(res.wf());
            assert(forall|i2: int, kk: int|
                #![trigger res.spec_spokes()[i2][kk]]
                0 <= i2 < rotations@.len() && 0 <= kk < cc@ ==> (res.spec_spokes()[i2][kk]
                    == fix_raws(res.projections@[i2]@[kk]@)));
        }
        Ok(res)
    }

    /// Append a spoke. The first spoke added to an empty trajectory
    /// establishes the channel count; afterwards a spoke whose samples have
    /// any other width — or a spoke whose own samples disagree in width — is
    /// refused and the trajectory is left unchanged.
    pub fn add(&mut self, proj: Vec<Vec<Fix>>) -> (r: Result<(), KError>)
        requires
            old(self).wf(),
            proj@.len() > 0,
        ensures
            final(self).wf(),
            r == Err::<(), KError>(KError::ChannelMismatch) <==> !((forall|k: int|
                0 <= k < proj@.len() ==> (#[trigger] proj@[k])@.len() == proj@[0]@.len()) && (
            proj@[0]@.len() == old(self).spec_channels() || (old(self).spec_channels() == 0 && old(self).spec_units() == 0))),
            r == Err::<(), KError>(KError::Overflow) <==> ((forall|k: int|
                0 <= k < proj@.len() ==> (#[trigger] proj@[k])@.len() == proj@[0]@.len()) && (
            proj@[0]@.len() == old(self).spec_channels() || (old(self).spec_channels() == 0 && old(self).spec_units() == 0)) && old(self).spec_total() + proj@.len() > usize::MAX),
            r is Ok <==> ((forall|k: int|
                0 <= k < proj@.len() ==> (#[trigger] proj@[k])@.len() == proj@[0]@.len()) && (
            proj@[0]@.len() == old(self).spec_channels() || (old(self).spec_channels() == 0 && old(self).spec_units() == 0)) && old(self).spec_total() + proj@.len() <= usize::MAX),
            r is Ok ==> final(self).spec_units() == old(self).spec_units() + 1 && final(self).spec_channels() == proj@[0]@.len() && final(self).spec_total() == old(self).spec_total() + proj@.len() && final(self).spec_spokes() == old(self).spec_spokes().push(rows_raws(proj@)) && final(self).spec_flat() == old(self).spec_flat() + rows_raws(proj@),
            old(self).spec_units() > 0 ==> final(self).spec_channels() == old(self).spec_channels(),
            r is Err ==> *final(self) == *old(self),
    {
        let w = proj[0].len();
        let mut k: usize = 1;
        while k < proj.len()
            invariant
                1 <= k <= proj@.len(),
                old(self) == self,
                old(self).wf(),
                w == proj@[0]@.len(),
                forall|t: int| 0 <= t < k ==> (#[trigger] proj@[t])@.len() == w,
            decreases proj@.len() - k,
        {
            if proj[k].len() != w {
                return Err(KError::ChannelMismatch);
            }
            k = k + 1;
        }
        if !(w == self.num_channels || (self.num_channels == 0 && self.num_projections == 0)) {
            return Err(KError::ChannelMismatch);
        }
        let new_total = match self.num_samples.checked_add(proj.len()) {
            Some(t) => t,
            None => {
                return Err(KError::Overflow);
            },
        };
        proof {
            lemma_flat_push(self.projections@, proj);
        }
        if self.num_projections == 0 {
            self.num_channels = w;
        }
        self.projections.push(proj);
        self.num_projections = self.projections.len();
        self.num_samples = new_total;
        proof {
            assert(final(self).spec_spokes() =~= old(self).spec_spokes().push(
                rows_raws(final(self).projections@[old(self).spec_units()]@),
            ));
        }
        Ok(())
    }

    /// Return a copy of the spoke at `idx`.
    pub fn sample_at(&self, idx: usize) -> (r: Vec<Vec<Fix>>)
        requires
            self.wf(),
            idx < self.spec_units(),
        ensures
            rows_raws(r@) == self.spec_spokes()[idx as int],
            r@.len() == self.spec_spokes()[idx as int].len(),
            forall|k: int| 0 <= k < r@.len() ==> (#[trigger] r@[k])@.len() == self.spec_channels(),
    {
        let mut out: Vec<Vec<Fix>> = Vec::new();
        let mut k: usize = 0;
        while k < self.projections[idx].len()
            invariant
                self.wf(),
                idx < self.projections@.len(),
                k <= self.projections@[idx as int]@.len(),
                out@.len() == k,
                forall|t: int|
                    0 <= t < k ==> (#[trigger] out@[t])@ == self.projections@[idx as int]@[t]@,
            decreases self.projections@[idx as int]@.len() - k,
        {
            out.push(copy_row(&self.projections[idx][k]));
            k = k + 1;
        }
        proof {
            assert(rows_raws(out@) =~= self.spec_spokes()[idx as int]);
        }
        out
    }

    /// Replace the spoke at `idx`. A spoke whose samples do not all have the
    /// established channel count is refused and the trajectory is left
    /// unchanged.
    pub fn set_sample(&mut self, idx: usize, proj: Vec<Vec<Fix>>) -> (r: Result<(), KError>)
        requires
            old(self).wf(),
            idx < old(self).spec_units(),
        ensures
            final(self).wf(),
            r == Err::<(), KError>(KError::ChannelMismatch) <==> !(forall|k: int|
                0 <= k < proj@.len() ==> (#[trigger] proj@[k])@.len() == old(self).spec_channels()),
            r == Err::<(), KError>(KError::Overflow) <==> ((forall|k: int|
                0 <= k < proj@.len() ==> (#[trigger] proj@[k])@.len() == old(self).spec_channels()) && old(self).spec_total() - old(self).spec_spokes()[
                idx as int].len() + proj@.len() > usize::MAX),
            r is Ok <==> ((forall|k: int|
                0 <= k < proj@.len() ==> (#[trigger] proj@[k])@.len() == old(self).spec_channels()) && old(self).spec_total() - old(self).spec_spokes()[
                idx as int].len() + proj@.len() <= usize::MAX),
            r is Ok ==> final(self).spec_units() == old(self).spec_units() && final(self).spec_channels() == old(self).spec_channels() && final(self).spec_total() == old(self).spec_total() - old(self).spec_spokes()[idx as int].len() + proj@.len() && final(self).spec_spokes() == old(self).spec_spokes().update(idx as int, rows_raws(proj@)),
            r is Err ==> *final(self) == *old(self),
    {
        let mut k: usize = 0;
        while k < proj.len()
            invariant
                k <= proj@.len(),
                old(self) == self,
                old(self).wf(),
                forall|t: int|
                    0 <= t < k ==> (#[trigger] proj@[t])@.len() == old(self).spec_channels(),
            decreases proj@.len() - k,
        {
            if proj[k].len() != self.num_channels {
                return Err(KError::ChannelMismatch);
            }
            k = k + 1;
        }
        proof {
            lemma_total_len_at(self.projections@, idx as int);
            lemma_total_len_nonneg(self.projections@);
        }
        let old_len = self.projections[idx].len();
        let reduced = self.num_samples - old_len;
        let new_total = match reduced.checked_add(proj.len()) {
            Some(t) => t,
            None => {
                return Err(KError::Overflow);
            },
        };
        proof {
            lemma_total_len_update(self.projections@, idx as int, proj);
        }
        self.projections.set(idx, proj);
        self.num_samples = new_total;
        proof {
            assert(final(self).spec_spokes() =~= old(self).spec_spokes().update(
                idx as int,
                rows_raws(final(self).projections@[idx as int]@),
            ));
        }
        Ok(())
    }

    /// Return the established channel count.
    pub fn num_channels(&self) -> (n: usize)
        ensures
            n == self.spec_channels(),
    {
        self.num_channels
    }

    /// Return the total number of samples over all spokes.
    pub fn num_samples(&self) -> (n: usize)
        requires
            self.wf(),
        ensures
            n == self.spec_total(),
    {
        self.num_samples
    }

    /// Return the number of units; for this trajectory kind each spoke is one
    /// unit.
    pub fn num_units(&self) -> (n: usize)
        requires
            self.wf(),
        ensures
            n == self.spec_units(),
    {
        self.num_projections
    }

    /// Return a copy of every sample, flattened in spoke order.
    pub fn samples(&self) -> (r: Vec<Vec<Fix>>)
        requires
            self.wf(),
        ensures
            rows_raws(r@) == self.spec_flat(),
            r@.len() == self.spec_total(),
            forall|m: int| 0 <= m < r@.len() ==> (#[trigger] r@[m])@.len() == self.spec_channels(),
    {
        let mut out: Vec<Vec<Fix>> = Vec::new();
        let mut i: usize = 0;
        while i < self.projections.len()
            invariant
                self.wf(),
                i <= self.projections@.len(),
                rows_raws(out@) == flat_rows(self.projections@.subrange(0, i as int)),
                out@.len() == total_len(self.projections@.subrange(0, i as int)),
                forall|m: int|
                    0 <= m < out@.len() ==> (#[trigger] out@[m])@.len() == self.num_channels,
            decreases self.projections@.len() - i,
        {
            let mut k: usize = 0;
            while k < self.projections[i].len()
                invariant
                    self.wf(),
                    i < self.projections@.len(),
                    k <= self.projections@[i as int]@.len(),
                    rows_raws(out@) == flat_rows(self.projections@.subrange(0, i as int))
                        + rows_raws(self.projections@[i as int]@.subrange(0, k as int)),
                    out@.len() == total_len(self.projections@.subrange(0, i as int)) + k,
                    forall|m: int|
                        0 <= m < out@.len() ==> (#[trigger] out@[m])@.len() == self.num_channels,
                decreases self.projections@[i as int]@.len() - k,
            {
                let row = copy_row(&self.projections[i][k]);
                proof {
                    lemma_rows_push(out@, row);
                    let p = self.projections@[i as int]@;
                    assert(rows_raws(p.subrange(0, k + 1)) =~= rows_raws(p.subrange(0, k as int)).push(
                        fix_raws(p[k as int]@),
                    ));
                    assert(flat_rows(self.projections@.subrange(0, i as int)) + rows_raws(
                        p.subrange(0, k + 1),
                    ) =~= (flat_rows(self.projections@.subrange(0, i as int)) + rows_raws(
                        p.subrange(0, k as int),
                    )).push(fix_raws(p[k as int]@)));
                }
                out.push(row);
                k = k + 1;
            }
            proof {
                let s = self.projections@;
                assert(s[i as int]@.subrange(0, s[i as int]@.len() as int) =~= s[i as int]@);
                assert(s.subrange(0, i + 1).drop_last() =~= s.subrange(0, i as int));
                assert(s.subrange(0, i + 1).last() == s[i as int]);
            }
            i = i + 1;
        }
        proof {
            assert(self.projections@.subrange(0, self.projections@.len() as int)
                =~= self.projections@);
        }
        out
    }
}

/// In a list of spokes whose samples all have width `nc`, every flattened
/// sample has width `nc`.
proof fn lemma_flat_lens(s: Seq<Vec<Vec<Fix>>>, nc: int)
    requires
        forall|i: int, k: int|
            0 <= i < s.len() && 0 <= k < s[i]@.len() ==> (#[trigger] s[i]@[k])@.len() == nc,
    ensures
        flat_rows(s).len() == total_len(s),
        forall|m: int| 0 <= m < flat_rows(s).len() ==> (#[trigger] flat_rows(s)[m]).len() == nc,
    decreases s.len(),
{
    lemma_flat_len(s);
    if s.len() > 0 {
        let d = s.drop_last();
        assert(forall|i: int, k: int|
            0 <= i < d.len() && 0 <= k < d[i]@.len() ==> (#[trigger] d[i]@[k])@.len() == nc);
        lemma_flat_lens(d, nc);
        assert(forall|k: int|
            0 <= k < s.last()@.len() ==> (#[trigger] rows_raws(s.last()@)[k]).len() == nc);
    }
}

} // verus!
