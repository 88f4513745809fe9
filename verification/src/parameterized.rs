//! A k-space trajectory stored compactly: each spoke is a position and a
//! direction, and its samples are generated on demand as
//! `position + offset · direction · dk` over a shared list of integer
//! offsets. Updates whose generated samples leave a fixed symmetric spatial
//! bound are rejected and leave the spoke unchanged.

use crate::errors::KError;
use crate::fixed::{fix_mul_raw, fix_recip_raw, in_i64, Fix, FIX_SCALE};
use crate::kspace::{copy_row, fix_raws, half_count, rows_raws, zero_row};
use crate::projections::Rotation;
use vstd::arithmetic::div_mod::lemma_fundamental_div_mod_converse;
use vstd::prelude::*;

verus! {

/// Raw value of the default spatial bound: generated coordinates must lie
/// strictly inside the open interval from minus this value to this value.
pub const LIMIT_RAW: i64 = 165 * FIX_SCALE;

/// Raw value of one generated coordinate: `pos + (offset · dir) · dk`, the
/// integer product exact and the fixed-point product truncated.
pub open spec fn param_coord(p: int, d: int, ind: int, dk: int) -> int {
    p + fix_mul_raw(ind * d, dk)
}

/// Whether generating that coordinate stays representable.
pub open spec fn param_coord_ok(p: int, d: int, ind: int, dk: int) -> bool {
    &&& in_i64(ind * d)
    &&& in_i64(fix_mul_raw(ind * d, dk))
    &&& in_i64(param_coord(p, d, ind, dk))
}

/// A k-space trajectory of parameterized spokes.
#[derive(Debug)]
pub struct KSpaceParameterizedProjections {
    positions: Vec<Vec<Fix>>,
    directions: Vec<Vec<Fix>>,
    num_channels: usize,
    num_samples: usize,
    num_samples_per_spoke: usize,
    num_projections: usize,
    dk: Fix,
    limit_lo: Fix,
    limit_hi: Fix,
    spoke_ind: Vec<i64>,
}

impl KSpaceParameterizedProjections {
    /// The raw values of the stored spoke positions.
    pub closed spec fn spec_positions(&self) -> Seq<Seq<int>> {
        rows_raws(self.positions@)
    }

    /// The raw values of the stored spoke directions.
    pub closed spec fn spec_directions(&self) -> Seq<Seq<int>> {
        rows_raws(self.directions@)
    }

    /// The channel count.
    pub closed spec fn spec_channels(&self) -> int {
        self.num_channels as int
    }

    /// The number of spokes.
    pub closed spec fn spec_units(&self) -> int {
        self.positions@.len() as int
    }

    /// The number of samples generated per spoke.
    pub closed spec fn spec_per_spoke(&self) -> int {
        self.spoke_ind@.len() as int
    }

    /// The total number of generated samples.
    pub closed spec fn spec_total(&self) -> int {
        self.num_samples as int
    }

    /// The raw frequency-domain step.
    pub closed spec fn spec_dk(&self) -> int {
        self.dk.0 as int
    }

    /// The raw lower spatial bound.
    pub closed spec fn spec_limit_lo(&self) -> int {
        self.limit_lo.0 as int
    }

    /// The raw upper spatial bound.
    pub closed spec fn spec_limit_hi(&self) -> int {
        self.limit_hi.0 as int
    }

    /// The shared integer offsets.
    pub closed spec fn spec_inds(&self) -> Seq<int> {
        self.spoke_ind@.map_values(|x: i64| x as int)
    }

    /// Raw value of sample `i`, channel `d`, of spoke `s`.
    pub closed spec fn spec_coord(&self, s: int, i: int, d: int) -> int {
        param_coord(
            self.positions@[s]@[d].0 as int,
            self.directions@[s]@[d].0 as int,
            self.spoke_ind@[i] as int,
            self.dk.0 as int,
        )
    }

    /// Whether generating sample `i`, channel `d`, of spoke `s` stays
    /// representable.
    pub closed spec fn coord_ok(&self, s: int, i: int, d: int) -> bool {
        param_coord_ok(
            self.positions@[s]@[d].0 as int,
            self.directions@[s]@[d].0 as int,
            self.spoke_ind@[i] as int,
            self.dk.0 as int,
        )
    }

    /// Whether every generated sample of every spoke stays representable.
    pub closed spec fn gen_ok(&self) -> bool {
        forall|s: int, i: int, d: int|
            0 <= s < self.spec_units() && 0 <= i < self.spec_per_spoke() && 0 <= d
                < self.spec_channels() ==> #[trigger] self.coord_ok(s, i, d)
    }

    /// The generated samples, flattened spoke by spoke.
    pub closed spec fn spec_flat(&self) -> Seq<Seq<int>> {
        Seq::new(
            (self.positions@.len() * self.spoke_ind@.len()) as nat,
            |m: int|
                Seq::new(
                    self.num_channels as nat,
                    |d: int|
                        self.spec_coord(
                            m / self.spoke_ind@.len() as int,
                            m % self.spoke_ind@.len() as int,
                            d,
                        ),
                ),
        )
    }

    /// A well-formed trajectory's flattened samples number the total and all
    /// have the channel count.
    pub proof fn lemma_wf_flat(&self)
        requires
            self.wf(),
        ensures
            self.spec_flat().len() == self.spec_total(),
            forall|m: int|
                0 <= m < self.spec_flat().len() ==> (#[trigger] self.spec_flat()[m]).len()
                    == self.spec_channels(),
    {
    }

    /// Counters agree with the stored spokes, and every position and
    /// direction has the channel count.
    pub closed spec fn wf(&self) -> bool {
        &&& self.num_projections == self.positions@.len()
        &&& self.directions@.len() == self.positions@.len()
        &&& self.num_samples_per_spoke == self.spoke_ind@.len()
        &&& self.num_samples == self.positions@.len() * self.spoke_ind@.len()
        &&& forall|s: int|
            0 <= s < self.positions@.len() ==> (#[trigger] self.positions@[s])@.len()
                == self.num_channels
        &&& forall|s: int|
            0 <= s < self.directions@.len() ==> (#[trigger] self.directions@[s])@.len()
                == self.num_channels
    }

    /// Whether a candidate spoke's generated coordinates are all
    /// representable.
    pub closed spec fn candidate_ok(&self, pos: Seq<Fix>, dir: Seq<Fix>) -> bool {
        forall|i: int, d: int|
            0 <= i < self.spec_per_spoke() && 0 <= d < self.spec_channels()
                ==> #[trigger] param_coord_ok(
                pos[d].0 as int,
                dir[d].0 as int,
                self.spoke_ind@[i] as int,
                self.dk.0 as int,
            )
    }

    /// Whether a candidate spoke's generated coordinates all lie strictly
    /// inside the spatial bounds.
    pub closed spec fn candidate_inside(&self, pos: Seq<Fix>, dir: Seq<Fix>) -> bool {
        forall|i: int, d: int|
            0 <= i < self.spec_per_spoke() && 0 <= d < self.spec_channels() ==> (
            self.spec_limit_lo() < #[trigger] param_coord(
                pos[d].0 as int,
                dir[d].0 as int,
                self.spoke_ind@[i] as int,
                self.dk.0 as int,
            ) < self.spec_limit_hi())
    }

    /// Build a radial trajectory: every spoke starts at the origin, its
    /// direction is the first-axis unit vector rotated by the matching
    /// rotation (only the first two channels are used), and the shared
    /// offsets run over a centered axis. The spatial bound is the default
    /// symmetric one.
    pub fn radial(fov: Fix, num_channels: usize, samples: usize, rotations: &Vec<Rotation>) -> (r:
        Result<KSpaceParameterizedProjections, KError>)
        ensures
            r == Err::<KSpaceParameterizedProjections, KError>(KError::ChannelMismatch)
                <==> num_channels < 2,
            r == Err::<KSpaceParameterizedProjections, KError>(KError::ZeroDivisor) <==> (
            num_channels >= 2 && fov.0 == 0),
            r == Err::<KSpaceParameterizedProjections, KError>(KError::Overflow) <==> (num_channels
                >= 2 && fov.0 != 0 && (samples > i64::MAX || (rotations@.len() as int) * (
            samples as int) > usize::MAX)),
            r is Ok <==> (num_channels >= 2 && fov.0 != 0 && samples <= i64::MAX && (
            rotations@.len() as int) * (samples as int) <= usize::MAX),
            r matches Ok(k) ==> k.wf() && k.spec_channels() == num_channels && k.spec_units()
                == rotations@.len() && k.spec_per_spoke() == samples && k.spec_total() == (
            rotations@.len() as int) * (samples as int) && k.spec_dk() == fix_recip_raw(
                fov.0 as int,
            ) && k.spec_limit_lo() == -(LIMIT_RAW as int) && k.spec_limit_hi() == LIMIT_RAW as int,
            r matches Ok(k) ==> (forall|i: int|
                0 <= i < samples ==> #[trigger] k.spec_inds()[i] == i - half_count(samples as int)),
            r matches Ok(k) ==> (forall|s: int, d: int|
                0 <= s < rotations@.len() && 0 <= d < num_channels
                    ==> #[trigger] k.spec_positions()[s][d] == 0),
            r matches Ok(k) ==> (forall|s: int, d: int|
                #![trigger k.spec_directions()[s][d]]
                0 <= s < rotations@.len() && 0 <= d < num_channels ==> k.spec_directions()[s][d]
                    == (if d == 0 {
                    rotations@[s].cos.0 as int
                } else if d == 1 {
                    rotations@[s].sin.0 as int
                } else {
                    0
                })),
    {
        if num_channels < 2 {
            return Err(KError::ChannelMismatch);
        }
        let dk = match fov.recip() {
            Some(v) => v,
            None => {
                return Err(KError::ZeroDivisor);
            },
        };
        if samples as u64 > i64::MAX as u64 {
            return Err(KError::Overflow);
        }
        let total = match rotations.len().checked_mul(samples) {
            Some(t) => t,
            None => {
                return Err(KError::Overflow);
            },
        };
        let c_exec: usize = samples / 2;
        let c: i64 = c_exec as i64;
        let mut spoke_ind: Vec<i64> = Vec::new();
        let mut ii: usize = 0;
        while ii < samples
            invariant
                ii <= samples,
                samples <= i64::MAX,
                c == half_count(samples as int),
                spoke_ind@.len() == ii,
                forall|t: int|
                    0 <= t < ii ==> #[trigger] spoke_ind@[t] == t - half_count(samples as int),
            decreases samples - ii,
        {
            spoke_ind.push(ii as i64 - c);
            ii = ii + 1;
        }
        let mut positions: Vec<Vec<Fix>> = Vec::new();
        let mut s: usize = 0;
        while s < rotations.len()
            invariant
                s <= rotations@.len(),
                positions@.len() == s,
                forall|t: int|
                    0 <= t < s ==> (#[trigger] positions@[t])@.len() == num_channels,
                forall|t: int, d: int|
                    0 <= t < s && 0 <= d < num_channels ==> #[trigger] positions@[t]@[d].0 == 0,
            decreases rotations@.len() - s,
        {
            positions.push(zero_row(num_channels));
            s = s + 1;
        }
        let mut directions: Vec<Vec<Fix>> = Vec::new();
        let mut s2: usize = 0;
        while s2 < rotations.len()
            invariant
                s2 <= rotations@.len(),
                num_channels >= 2,
                directions@.len() == s2,
                forall|t: int|
                    0 <= t < s2 ==> (#[trigger] directions@[t])@.len() == num_channels,
                forall|t: int, d: int|
                    #![trigger directions@[t]@[d]]
                    0 <= t < s2 && 0 <= d < num_channels ==> directions@[t]@[d].0 == (if d == 0 {
                        rotations@[t].cos.0 as int
                    } else if d == 1 {
                        rotations@[t].sin.0 as int
                    } else {
                        0
                    }),
            decreases rotations@.len() - s2,
        {
            let rot = rotations[s2];
            let mut row: Vec<Fix> = Vec::new();
            row.push(rot.cos);
            row.push(rot.sin);
            let mut d: usize = 2;
            while d < num_channels
                invariant
                    2 <= d <= num_channels || (num_channels < 2 && d == 2),
                    row@.len() == d,
                    row@[0] == rot.cos,
                    row@[1] == rot.sin,
                    forall|t: int| 2 <= t < d ==> #[trigger] row@[t].0 == 0,
                decreases num_channels - d,
            {
                row.push(Fix(0));
                d = d + 1;
            }
            directions.push(row);
            s2 = s2 + 1;
        }
        let res = KSpaceParameterizedProjections {
            positions,
            directions,
            num_channels,
            num_samples: total,
            num_samples_per_spoke: samples,
            num_projections: rotations.len(),
            dk,
            limit_lo: Fix(-LIMIT_RAW),
            limit_hi: Fix(LIMIT_RAW),
            spoke_ind,
        };
        proof {
            assert(res.wf());
            assert(forall|i: int|
                0 <= i < samples ==> #[trigger] res.spec_inds()[i] == i - half_count(
                    samples as int,
                ));
        }
        Ok(res)
    }

    /// Generate the samples of one candidate spoke.
    fn calc_projection(&self, pos: &Vec<Fix>, dir: &Vec<Fix>) -> (r: Result<Vec<Vec<Fix>>, KError>)
        requires
            self.wf(),
            pos@.len() == self.spec_channels(),
            dir@.len() == self.spec_channels(),
        ensures
            r is Ok <==> self.candidate_ok(pos@, dir@),
            r matches Ok(v) ==> v@.len() == self.spec_per_spoke() && (forall|i: int|
                0 <= i < v@.len() ==> (#[trigger] v@[i])@.len() == self.spec_channels()) && (
            forall|i: int, d: int|
                #![trigger v@[i]@[d]]
                0 <= i < v@.len() && 0 <= d < self.spec_channels() ==> v@[i]@[d].0 == param_coord(
                    pos@[d].0 as int,
                    dir@[d].0 as int,
                    self.spec_inds()[i],
                    self.spec_dk(),
                )),
            r matches Err(e) ==> e == KError::Overflow,
    {
        let mut out: Vec<Vec<Fix>> = Vec::new();
        let mut i: usize = 0;
        while i < self.spoke_ind.len()
            invariant
                self.wf(),
                pos@.len() == self.spec_channels(),
                dir@.len() == self.spec_channels(),
                i <= self.spoke_ind@.len(),
                out@.len() == i,
                forall|t: int|
                    0 <= t < i ==> (#[trigger] out@[t])@.len() == self.spec_channels(),
                forall|t: int, d: int|
                    #![trigger out@[t]@[d]]
                    0 <= t < i && 0 <= d < self.spec_channels() ==> out@[t]@[d].0 == param_coord(
                        pos@[d].0 as int,
                        dir@[d].0 as int,
                        self.spoke_ind@[t] as int,
                        self.dk.0 as int,
                    ),
                forall|t: int, d: int|
                    0 <= t < i && 0 <= d < self.spec_channels() ==> #[trigger] param_coord_ok(
                        pos@[d].0 as int,
                        dir@[d].0 as int,
                        self.spoke_ind@[t] as int,
                        self.dk.0 as int,
                    ),
            decreases self.spoke_ind@.len() - i,
        {
            let ind = self.spoke_ind[i];
            let mut row: Vec<Fix> = Vec::new();
            let mut d: usize = 0;
            while d < self.num_channels
                invariant
                    self.wf(),
                    pos@.len() == self.spec_channels(),
                    dir@.len() == self.spec_channels(),
                    i < self.spoke_ind@.len(),
                    ind == self.spoke_ind@[i as int],
                    d <= self.num_channels,
                    row@.len() == d,
                    forall|t: int|
                        #![trigger row@[t]]
                        0 <= t < d ==> row@[t].0 == param_coord(
                            pos@[t].0 as int,
                            dir@[t].0 as int,
                            self.spoke_ind@[i as int] as int,
                            self.dk.0 as int,
                        ),
                    forall|t: int|
                        0 <= t < d ==> #[trigger] param_coord_ok(
                            pos@[t].0 as int,
                            dir@[t].0 as int,
                            self.spoke_ind@[i as int] as int,
                            self.dk.0 as int,
                        ),
                decreases self.num_channels - d,
            {
                let t1 = match dir[d].mul_int(ind) {
                    Some(v) => v,
                    None => {
                        proof {
                            assert(!param_coord_ok(
                                pos@[d as int].0 as int,
                                dir@[d as int].0 as int,
                                self.spoke_ind@[i as int] as int,
                                self.dk.0 as int,
                            ));
                            assert(!self.candidate_ok(pos@, dir@));
                        }
                        return Err(KError::Overflow);
                    },
                };
                let t2 = match t1.mul(self.dk) {
                    Some(v) => v,
                    None => {
                        proof {
                            assert(!param_coord_ok(
                                pos@[d as int].0 as int,
                                dir@[d as int].0 as int,
                                self.spoke_ind@[i as int] as int,
                                self.dk.0 as int,
                            ));
                            assert(!self.candidate_ok(pos@, dir@));
                        }
                        return Err(KError::Overflow);
                    },
                };
                let cd = match pos[d].add(t2) {
                    Some(v) => v,
                    None => {
                        proof {
                            assert(!param_coord_ok(
                                pos@[d as int].0 as int,
                                dir@[d as int].0 as int,
                                self.spoke_ind@[i as int] as int,
                                self.dk.0 as int,
                            ));
                            assert(!self.candidate_ok(pos@, dir@));
                        }
                        return Err(KError::Overflow);
                    },
                };
                row.push(cd);
                d = d + 1;
            }
            out.push(row);
            i = i + 1;
        }
        Ok(out)
    }

    /// Append a spoke, given as a position and a direction.
    pub fn add(&mut self, sample: (Vec<Fix>, Vec<Fix>)) -> (r: Result<(), KError>)
        requires
            old(self).wf(),
        ensures
            final(self).wf(),
            r == Err::<(), KError>(KError::ChannelMismatch) <==> !(sample.0@.len() == old(self).spec_channels() && sample.1@.len() == old(self).spec_channels()),
            r == Err::<(), KError>(KError::Overflow) <==> (sample.0@.len() == old(self).spec_channels() && sample.1@.len() == old(self).spec_channels() && old(self).spec_total() + old(self).spec_per_spoke() > usize::MAX),
            r is Ok <==> (sample.0@.len() == old(self).spec_channels() && sample.1@.len() == old(self).spec_channels() && old(self).spec_total() + old(self).spec_per_spoke()
                <= usize::MAX),
            r is Ok ==> final(self).spec_units() == old(self).spec_units() + 1 && final(self).spec_total() == old(self).spec_total() + old(self).spec_per_spoke() && final(self).spec_positions() == old(self).spec_positions().push(fix_raws(sample.0@)) && final(self).spec_directions() == old(self).spec_directions().push(fix_raws(sample.1@)) && final(self).spec_channels() == old(self).spec_channels() && final(self).spec_per_spoke() == old(self).spec_per_spoke() && final(self).spec_dk() == old(self).spec_dk() && final(self).spec_inds() == old(self).spec_inds() && final(self).spec_limit_lo() == old(self).spec_limit_lo() && final(self).spec_limit_hi() == old(self).spec_limit_hi(),
            r is Err ==> *final(self) == *old(self),
    {
        if !(sample.0.len() == self.num_channels && sample.1.len() == self.num_channels) {
            return Err(KError::ChannelMismatch);
        }
        let new_total = match self.num_samples.checked_add(self.num_samples_per_spoke) {
            Some(t) => t,
            None => {
                return Err(KError::Overflow);
            },
        };
        proof {
            crate::kspace::lemma_rows_push(self.positions@, sample.0);
            crate::kspace::lemma_rows_push(self.directions@, sample.1);
            let u = old(self).spec_units();
            let per = old(self).spec_per_spoke();
            assert((u + 1) * per == u * per + per) by (nonlinear_arith);
        }
        let (p, q) = sample;
        self.positions.push(p);
        self.directions.push(q);
        self.num_projections = self.positions.len();
        self.num_samples = new_total;
        Ok(())
    }

    /// Return a copy of the spoke at `idx`: its position and its direction.
    pub fn sample_at(&self, idx: usize) -> (r: (Vec<Fix>, Vec<Fix>))
        requires
            self.wf(),
            idx < self.spec_units(),
        ensures
            fix_raws(r.0@) == self.spec_positions()[idx as int],
            fix_raws(r.1@) == self.spec_directions()[idx as int],
            r.0@.len() == self.spec_channels(),
            r.1@.len() == self.spec_channels(),
    {
        let p = copy_row(&self.positions[idx]);
        let q = copy_row(&self.directions[idx]);
        (p, q)
    }

    /// Replace the spoke at `idx` if and only if every sample the update
    /// would generate is representable and lies strictly inside the spatial
    /// bounds; otherwise retain the previous position and direction
    /// unchanged. Returns whether the update was applied.
    pub fn set_sample(&mut self, idx: usize, sample: (Vec<Fix>, Vec<Fix>)) -> (applied: bool)
        requires
            old(self).wf(),
            idx < old(self).spec_units(),
            sample.0@.len() == old(self).spec_channels(),
            sample.1@.len() == old(self).spec_channels(),
        ensures
            final(self).wf(),
            applied <==> (old(self).candidate_ok(sample.0@, sample.1@) && old(self).candidate_inside(sample.0@, sample.1@)),
            applied ==> final(self).spec_positions() == old(self).spec_positions().update(
                idx as int,
                fix_raws(sample.0@),
            ) && final(self).spec_directions() == old(self).spec_directions().update(
                idx as int,
                fix_raws(sample.1@),
            ) && final(self).spec_units() == old(self).spec_units() && final(self).spec_total()
                == old(self).spec_total() && final(self).spec_channels() == old(self).spec_channels() && final(self).spec_per_spoke() == old(self).spec_per_spoke()
                && final(self).spec_dk() == old(self).spec_dk() && final(self).spec_inds() == old(self).spec_inds() && final(self).spec_limit_lo() == old(self).spec_limit_lo() && final(self).spec_limit_hi() == old(self).spec_limit_hi(),
            !applied ==> *final(self) == *old(self),
    {
        let spoke = match self.calc_projection(&sample.0, &sample.1) {
            Ok(v) => v,
            Err(_) => {
                return false;
            },
        };
        let mut i: usize = 0;
        while i < spoke.len()
            invariant
                old(self) == self,
                old(self).wf(),
                sample.0@.len() == self.spec_channels(),
                sample.1@.len() == self.spec_channels(),
                i <= spoke@.len(),
                spoke@.len() == self.spec_per_spoke(),
                forall|t: int|
                    0 <= t < spoke@.len() ==> (#[trigger] spoke@[t])@.len()
                        == self.spec_channels(),
                forall|t: int, d: int|
                    #![trigger spoke@[t]@[d]]
                    0 <= t < spoke@.len() && 0 <= d < self.spec_channels() ==> spoke@[t]@[d].0
                        == param_coord(
                        sample.0@[d].0 as int,
                        sample.1@[d].0 as int,
                        self.spec_inds()[t],
                        self.spec_dk(),
                    ),
                self.candidate_ok(sample.0@, sample.1@),
                forall|t: int, d: int|
                    0 <= t < i && 0 <= d < self.spec_channels() ==> (self.spec_limit_lo()
                        < #[trigger] param_coord(
                        sample.0@[d].0 as int,
                        sample.1@[d].0 as int,
                        self.spoke_ind@[t] as int,
                        self.dk.0 as int,
                    ) < self.spec_limit_hi()),
            decreases spoke@.len() - i,
        {
            let mut d: usize = 0;
            while d < self.num_channels
                invariant
                    old(self) == self,
                    old(self).wf(),
                    sample.0@.len() == self.spec_channels(),
                    sample.1@.len() == self.spec_channels(),
                    i < spoke@.len(),
                    spoke@.len() == self.spec_per_spoke(),
                    d <= self.num_channels,
                    forall|t: int|
                        0 <= t < spoke@.len() ==> (#[trigger] spoke@[t])@.len()
                            == self.spec_channels(),
                    forall|t: int, d2: int|
                        #![trigger spoke@[t]@[d2]]
                        0 <= t < spoke@.len() && 0 <= d2 < self.spec_channels() ==> spoke@[t]@[d2].0
                            == param_coord(
                            sample.0@[d2].0 as int,
                            sample.1@[d2].0 as int,
                            self.spec_inds()[t],
                            self.spec_dk(),
                        ),
                    self.candidate_ok(sample.0@, sample.1@),
                    forall|d2: int|
                        0 <= d2 < d ==> (self.spec_limit_lo() < #[trigger] param_coord(
                            sample.0@[d2].0 as int,
                            sample.1@[d2].0 as int,
                            self.spoke_ind@[i as int] as int,
                            self.dk.0 as int,
                        ) < self.spec_limit_hi()),
                decreases self.num_channels - d,
            {
                let x = spoke[i][d];
                if !(x.0 > self.limit_lo.0 && x.0 < self.limit_hi.0) {
                    proof {
                        assert(!self.candidate_inside(sample.0@, sample.1@));
                    }
                    return false;
                }
                d = d + 1;
            }
            i = i + 1;
        }
        proof {
            assert(old(self).candidate_inside(sample.0@, sample.1@));
            crate::kspace::lemma_rows_update(self.positions@, idx as int, sample.0);
            crate::kspace::lemma_rows_update(self.directions@, idx as int, sample.1);
        }
        let (p, q) = sample;
        self.positions.set(idx, p);
        self.directions.set(idx, q);
        true
    }

    /// Return the channel count.
    pub fn num_channels(&self) -> (n: usize)
        ensures
            n == self.spec_channels(),
    {
        self.num_channels
    }

    /// Return the total number of generated samples.
    pub fn num_samples(&self) -> (n: usize)
        requires
            self.wf(),
        ensures
            n == self.spec_total(),
    {
        self.num_samples
    }

    /// Return the number of units; for this trajectory kind each spoke is one
    /// unit.
    pub fn num_units(&self) -> (n: usize)
        requires
            self.wf(),
        ensures
            n == self.spec_units(),
    {
        self.num_projections
    }

    /// Generate every sample, flattened in spoke order.
    pub fn samples(&self) -> (r: Result<Vec<Vec<Fix>>, KError>)
        requires
            self.wf(),
        ensures
            r is Ok <==> self.gen_ok(),
            r matches Ok(v) ==> rows_raws(v@) == self.spec_flat() && v@.len() == self.spec_total()
                && (forall|m: int|
                0 <= m < v@.len() ==> (#[trigger] v@[m])@.len() == self.spec_channels()),
            r matches Err(e) ==> e == KError::Overflow,
    {
        let mut out: Vec<Vec<Fix>> = Vec::new();
        let mut s: usize = 0;
        while s < self.positions.len()
            invariant
                self.wf(),
                s <= self.positions@.len(),
                out@.len() == s * self.spoke_ind@.len(),
                forall|m: int|
                    0 <= m < out@.len() ==> (#[trigger] out@[m])@.len() == self.spec_channels(),
                forall|m: int|
                    0 <= m < out@.len() ==> fix_raws((#[trigger] out@[m])@) == self.spec_flat()[m],
                forall|s2: int, i: int, d: int|
                    0 <= s2 < s && 0 <= i < self.spec_per_spoke() && 0 <= d < self.spec_channels()
                        ==> #[trigger] self.coord_ok(s2, i, d),
            decreases self.positions@.len() - s,
        {
            let spoke = match self.calc_projection(&self.positions[s], &self.directions[s]) {
                Ok(v) => v,
                Err(_) => {
                    proof {
                        let pos = self.positions@[s as int]@;
                        let dir = self.directions@[s as int]@;
                        let (iw, dw): (int, int) = choose|iw: int, dw: int|
                            0 <= iw < self.spec_per_spoke() && 0 <= dw < self.spec_channels()
                                && !param_coord_ok(
                                pos[dw].0 as int,
                                dir[dw].0 as int,
                                self.spoke_ind@[iw] as int,
                                self.dk.0 as int,
                            );
                        assert(!self.coord_ok(s as int, iw, dw));
                        assert(!self.gen_ok());
                    }
                    return Err(KError::Overflow);
                },
            };
            proof {
                assert((s + 1) * self.spoke_ind@.len() == s * self.spoke_ind@.len()
                    + self.spoke_ind@.len()) by (nonlinear_arith);
                assert(((s + 1) as int) * (self.spoke_ind@.len() as int) <= (
                self.positions@.len() as int) * (self.spoke_ind@.len() as int))
                    by (nonlinear_arith)
                    requires
                        0 <= s < self.positions@.len(),
                        0 <= self.spoke_ind@.len(),
                ;
            }
            let mut i: usize = 0;
            while i < spoke.len()
                invariant
                    self.wf(),
                    s < self.positions@.len(),
                    i <= spoke@.len(),
                    spoke@.len() == self.spec_per_spoke(),
                    ((s + 1) as int) * self.spoke_ind@.len() <= usize::MAX,
                    out@.len() == s * self.spoke_ind@.len() + i,
                    forall|t: int|
                        0 <= t < spoke@.len() ==> (#[trigger] spoke@[t])@.len()
                            == self.spec_channels(),
                    forall|t: int, d: int|
                        #![trigger spoke@[t]@[d]]
                        0 <= t < spoke@.len() && 0 <= d < self.spec_channels() ==> spoke@[t]@[d].0
                            == self.spec_coord(s as int, t, d),
                    forall|m: int|
                        0 <= m < out@.len() ==> (#[trigger] out@[m])@.len()
                            == self.spec_channels(),
                    forall|m: int|
                        0 <= m < out@.len() ==> fix_raws((#[trigger] out@[m])@)
                            == self.spec_flat()[m],
                    forall|s2: int, i2: int, d: int|
                        0 <= s2 < s && 0 <= i2 < self.spec_per_spoke() && 0 <= d
                            < self.spec_channels() ==> #[trigger] self.coord_ok(s2, i2, d),
                    self.candidate_ok(self.positions@[s as int]@, self.directions@[s as int]@),
                decreases spoke@.len() - i,
            {
                let row = copy_row(&spoke[i]);
                proof {
                    let per = self.spoke_ind@.len() as int;
                    let m = (s as int) * per + i;
                    assert(m < ((s + 1) as int) * per) by (nonlinear_arith)
                        requires
                            0 <= s,
                            0 <= i < per,
                            m == (s as int) * per + i,
                    ;
                    assert(((s + 1) as int) * per <= (self.positions@.len() as int) * per)
                        by (nonlinear_arith)
                        requires
                            0 <= s < self.positions@.len(),
                            0 <= per,
                    ;
                    lemma_fundamental_div_mod_converse(m, per, s as int, i as int);
                    assert(row@ == spoke@[i as int]@);
                    assert forall|d: int| 0 <= d < self.spec_channels() implies fix_raws(row@)[d]
                        == self.spec_flat()[m][d] by {
                        assert(spoke@[i as int]@[d].0 == self.spec_coord(s as int, i as int, d));
                    }
                    assert(fix_raws(row@).len() == self.spec_flat()[m].len());
                    assert(fix_raws(row@) =~= self.spec_flat()[m]);
                }
                out.push(row);
                i = i + 1;
            }
            s = s + 1;
        }
        proof {
            assert(forall|s2: int, i2: int, d: int|
                0 <= s2 < self.spec_units() && 0 <= i2 < self.spec_per_spoke() && 0 <= d
                    < self.spec_channels() ==> #[trigger] self.coord_ok(s2, i2, d));
            assert(rows_raws(out@) =~= self.spec_flat());
        }
        Ok(out)
    }
}

} // verus!
