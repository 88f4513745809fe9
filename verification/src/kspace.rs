//! An explicit k-space trajectory: an ordered list of samples, each a vector
//! of fixed-point coordinates, one per channel. The channel count is
//! established by the first added sample and never changes afterwards.

use crate::errors::KError;
use crate::fixed::{fix_recip_raw, in_i64, Fix};
use crate::spatialdims::SpatialDims;
use vstd::arithmetic::div_mod::lemma_fundamental_div_mod_converse;
use vstd::prelude::*;

verus! {

/// A single k-space sample: one fixed-point coordinate per channel.
pub type KSample = Vec<Fix>;

/// One spoke of samples sharing an orientation.
pub type KProjection = Vec<KSample>;

/// The raw values of a sample, in channel order.
pub open spec fn fix_raws(s: Seq<Fix>) -> Seq<int> {
    s.map_values(|f: Fix| f.0 as int)
}

/// The raw values of a list of samples.
pub open spec fn rows_raws(s: Seq<Vec<Fix>>) -> Seq<Seq<int>> {
    Seq::new(s.len(), |i: int| fix_raws(s[i]@))
}

/// Pushing a sample appends its raw values.
pub proof fn lemma_rows_push(s: Seq<Vec<Fix>>, v: Vec<Fix>)
    ensures
        rows_raws(s.push(v)) == rows_raws(s).push(fix_raws(v@)),
{
    assert(rows_raws(s.push(v)) =~= rows_raws(s).push(fix_raws(v@)));
}

/// Replacing a sample updates its raw values.
pub proof fn lemma_rows_update(s: Seq<Vec<Fix>>, i: int, v: Vec<Fix>)
    requires
        0 <= i < s.len(),
    ensures
        rows_raws(s.update(i, v)) == rows_raws(s).update(i, fix_raws(v@)),
{
    assert(rows_raws(s.update(i, v)) =~= rows_raws(s).update(i, fix_raws(v@)));
}

/// The centering offset of an axis with `n` samples: `n / 2` when `n` is
/// even, `(n - 1) / 2` when it is odd; both equal the floor of `n / 2`.
pub open spec fn half_count(n: int) -> int {
    n / 2
}

/// Raw value of the `i`-th coordinate of a centered axis with `n` samples and
/// step `dk`: `(i - half_count(n)) * dk`.
pub open spec fn cart_coord(i: int, n: int, dk: int) -> int {
    (i - half_count(n)) * dk
}

/// Whether every coordinate of a centered axis fits the raw representation.
pub open spec fn axis_coords_fit(n: int, dk: int) -> bool {
    forall|i: int| 0 <= i < n ==> in_i64(#[trigger] cart_coord(i, n, dk))
}

/// Build a copy of a sample.
pub(crate) fn copy_row(v: &Vec<Fix>) -> (r: Vec<Fix>)
    ensures
        r@ == v@,
{
    let mut out: Vec<Fix> = Vec::new();
    let mut j: usize = 0;
    while j < v.len()
        invariant
            j <= v.len(),
            out@.len() == j,
            forall|t: int| 0 <= t < j ==> out@[t] == v@[t],
        decreases v.len() - j,
    {
        out.push(v[j]);
        j = j + 1;
    }
    proof {
        assert(out@ =~= v@);
    }
    out
}

/// A sample whose every channel is zero.
pub(crate) fn zero_row(n: usize) -> (r: Vec<Fix>)
    ensures
        r@.len() == n,
        forall|j: int| 0 <= j < n ==> r@[j].0 == 0,
    decreases n,
{
    let mut out: Vec<Fix> = Vec::new();
    let mut j: usize = 0;
    while j < n
        invariant
            j <= n,
            out@.len() == j,
            forall|t: int| 0 <= t < j ==> out@[t].0 == 0,
        decreases n - j,
    {
        out.push(Fix(0));
        j = j + 1;
    }
    out
}

/// The coordinates of one centered axis: `n` samples spaced by `dk`.
pub(crate) fn axis_coords(n: usize, dk: Fix) -> (r: Result<Vec<Fix>, KError>)
    ensures
        r is Ok <==> axis_coords_fit(n as int, dk.0 as int),
        r matches Ok(v) ==> v@.len() == n && forall|i: int|
            0 <= i < n ==> v@[i].0 == cart_coord(i, n as int, dk.0 as int),
        r matches Err(e) ==> e == KError::Overflow,
{
    let c: usize = n / 2;
    let mut out: Vec<Fix> = Vec::new();
    let mut i: usize = 0;
    while i < n
        invariant
            i <= n,
            c == n as int / 2,
            out@.len() == i,
            forall|t: int| 0 <= t < i ==> out@[t].0 == cart_coord(t, n as int, dk.0 as int),
            forall|t: int| 0 <= t < i ==> in_i64(#[trigger] cart_coord(t, n as int, dk.0 as int)),
        decreases n - i,
    {
        let off: i128 = (i as i128) - (c as i128);
        assert(i128::MIN <= off * (dk.0 as int) <= i128::MAX) by (nonlinear_arith)
            requires
                -0xffff_ffff_ffff_ffff <= off <= 0xffff_ffff_ffff_ffff,
                i64::MIN <= dk.0 <= i64::MAX,
        ;
        let p: i128 = off * (dk.0 as i128);
        assert(p == cart_coord(i as int, n as int, dk.0 as int));
        if i64::MIN as i128 <= p && p <= i64::MAX as i128 {
            out.push(Fix(p as i64));
            i = i + 1;
        } else {
            assert(!in_i64(cart_coord(i as int, n as int, dk.0 as int)));
            return Err(KError::Overflow);
        }
    }
    Ok(out)
}

/// Law: consecutive coordinates of a centered axis differ by exactly the
/// step `dk`, whatever the sample count.
pub proof fn lemma_cartesian_spacing(i: int, n: int, dk: int)
    requires
        0 <= i,
        i + 1 < n,
    ensures
        cart_coord(i + 1, n, dk) - cart_coord(i, n, dk) == dk,
{
    assert((i + 1 - n / 2) * dk - (i - n / 2) * dk == dk) by (nonlinear_arith);
}

/// Law: for an odd sample count the centered axis is symmetric about zero and
/// its center coordinate is exactly zero. (For an even count the axis has one
/// more sample below zero than above, so this does not hold.)
pub proof fn lemma_cartesian_odd_symmetry(i: int, n: int, dk: int)
    requires
        n % 2 == 1,
        0 <= i < n,
    ensures
        cart_coord(i, n, dk) + cart_coord(n - 1 - i, n, dk) == 0,
        cart_coord((n - 1) / 2, n, dk) == 0,
{
    let c = n / 2;
    assert(n == 2 * c + 1) by {
        vstd::arithmetic::div_mod::lemma_fundamental_div_mod(n, 2);
    }
    assert((n - 1) / 2 == c) by {
        lemma_fundamental_div_mod_converse(n - 1, 2, c, 0);
    }
    assert((i - c) * dk + (n - 1 - i - c) * dk == 0) by (nonlinear_arith)
        requires
            (n - 1 - i - c) == -(i - c),
    ;
    assert(((n - 1) / 2 - c) * dk == 0) by (nonlinear_arith)
        requires
            (n - 1) / 2 == c,
    ;
}

/// Whether building a Cartesian trajectory for `fov` and `samples` would
/// overflow: the grid size must fit `usize` and every coordinate must fit the
/// raw representation.
pub open spec fn cart_overflow(fov: SpatialDims<Fix>, samples: SpatialDims<usize>) -> bool
    recommends
        fov.spec_len() == samples.spec_len(),
        fov.all_nonzero(),
{
    !samples.product_fits() || match (fov, samples) {
        (SpatialDims::OneD(fx), SpatialDims::OneD(nx)) => !axis_coords_fit(
            nx as int,
            fix_recip_raw(fx.0 as int),
        ),
        (SpatialDims::TwoD(fx, fy), SpatialDims::TwoD(nx, ny)) => !axis_coords_fit(
            nx as int,
            fix_recip_raw(fx.0 as int),
        ) || !axis_coords_fit(ny as int, fix_recip_raw(fy.0 as int)),
        (SpatialDims::ThreeD(fx, fy, fz), SpatialDims::ThreeD(nx, ny, nz)) => !axis_coords_fit(
            nx as int,
            fix_recip_raw(fx.0 as int),
        ) || !axis_coords_fit(ny as int, fix_recip_raw(fy.0 as int)) || !axis_coords_fit(
            nz as int,
            fix_recip_raw(fz.0 as int),
        ),
        _ => false,
    }
}

/// What a Cartesian trajectory holds: one sample per grid point, enumerated in
/// row-major order with the first axis varying fastest, each coordinate a
/// centered axis coordinate with step `1 / fov`.
pub open spec fn cartesian_rows_ok(
    k: KSpace,
    fov: SpatialDims<Fix>,
    samples: SpatialDims<usize>,
) -> bool {
    match (fov, samples) {
        (SpatialDims::OneD(fx), SpatialDims::OneD(nx)) => {
            let dkx = fix_recip_raw(fx.0 as int);
            &&& k.spec_channels() == 1
            &&& k.spec_len() == nx
            &&& forall|m: int|
                0 <= m < nx ==> (#[trigger] k.spec_rows()[m]).len() == 1 && k.spec_rows()[m][0]
                    == cart_coord(m, nx as int, dkx)
        },
        (SpatialDims::TwoD(fx, fy), SpatialDims::TwoD(nx, ny)) => {
            let dkx = fix_recip_raw(fx.0 as int);
            let dky = fix_recip_raw(fy.0 as int);
            &&& k.spec_channels() == 2
            &&& k.spec_len() == nx * ny
            &&& forall|m: int|
                0 <= m < nx * ny ==> (#[trigger] k.spec_rows()[m]).len() == 2 && k.spec_rows()[m][0]
                    == cart_coord(m % (nx as int), nx as int, dkx) && k.spec_rows()[m][1]
                    == cart_coord(m / (nx as int), ny as int, dky)
        },
        (SpatialDims::ThreeD(fx, fy, fz), SpatialDims::ThreeD(nx, ny, nz)) => {
            let dkx = fix_recip_raw(fx.0 as int);
            let dky = fix_recip_raw(fy.0 as int);
            let dkz = fix_recip_raw(fz.0 as int);
            &&& k.spec_channels() == 3
            &&& k.spec_len() == nx * ny * nz
            &&& forall|m: int|
                0 <= m < nx * ny * nz ==> (#[trigger] k.spec_rows()[m]).len() == 3
                    && k.spec_rows()[m][0] == cart_coord(m % (nx as int), nx as int, dkx)
                    && k.spec_rows()[m][1] == cart_coord(
                    (m / (nx as int)) % (ny as int),
                    ny as int,
                    dky,
                ) && k.spec_rows()[m][2] == cart_coord(
                    (m / (nx as int)) / (ny as int),
                    nz as int,
                    dkz,
                )
        },
        _ => false,
    }
}

/// Law: in a one-dimensional Cartesian trajectory, consecutive samples
/// differ by exactly the step `1 / fov`, whatever the sample count.
pub proof fn lemma_cartesian_trajectory_spacing(k: KSpace, fx: Fix, n: usize, i: int)
    requires
        cartesian_rows_ok(k, SpatialDims::OneD(fx), SpatialDims::OneD(n)),
        0 <= i,
        i + 1 < n,
    ensures
        k.spec_rows()[i + 1][0] - k.spec_rows()[i][0] == fix_recip_raw(fx.0 as int),
{
    lemma_cartesian_spacing(i, n as int, fix_recip_raw(fx.0 as int));
}

/// Law: a one-dimensional Cartesian trajectory with an odd sample count is
/// symmetric about zero, and its center sample is exactly zero. (With an even
/// count the axis holds one more sample below zero than above, so the
/// symmetry does not hold there.)
pub proof fn lemma_cartesian_trajectory_odd_symmetry(k: KSpace, fx: Fix, n: usize, i: int)
    requires
        cartesian_rows_ok(k, SpatialDims::OneD(fx), SpatialDims::OneD(n)),
        n % 2 == 1,
        0 <= i < n,
    ensures
        k.spec_rows()[i][0] + k.spec_rows()[n - 1 - i][0] == 0,
        k.spec_rows()[(n - 1) as int / 2][0] == 0,
{
    lemma_cartesian_odd_symmetry(i, n as int, fix_recip_raw(fx.0 as int));
}

/// An explicit list of k-space samples with an established channel count.
#[derive(Debug)]
pub struct KSpace {
    kspace: Vec<Vec<Fix>>,
    num_channels: usize,
    num_samples: usize,
}

impl KSpace {
    /// The raw values of the stored samples, in order.
    pub closed spec fn spec_rows(&self) -> Seq<Seq<int>> {
        rows_raws(self.kspace@)
    }

    /// The established channel count.
    pub closed spec fn spec_channels(&self) -> int {
        self.num_channels as int
    }

    /// The number of stored samples.
    pub closed spec fn spec_len(&self) -> int {
        self.kspace@.len() as int
    }

    /// Every sample has the established channel count, and the stored sample
    /// counter agrees with the list.
    pub closed spec fn wf(&self) -> bool {
        &&& self.num_samples == self.kspace@.len()
        &&& forall|i: int|
            0 <= i < self.kspace@.len() ==> (#[trigger] self.kspace@[i])@.len()
                == self.num_channels
    }

    /// A well-formed trajectory's rows all have the established channel count.
    pub proof fn lemma_wf_rows(&self)
        requires
            self.wf(),
        ensures
            self.spec_rows().len() == self.spec_len(),
            forall|i: int|
                0 <= i < self.spec_len() ==> (#[trigger] self.spec_rows()[i]).len()
                    == self.spec_channels(),
    {
    }

    /// An empty trajectory with no established channel count.
    pub fn new() -> (k: KSpace)
        ensures
            k.wf(),
            k.spec_len() == 0,
            k.spec_channels() == 0,
    {
        KSpace { kspace: Vec::new(), num_channels: 0, num_samples: 0 }
    }

    /// A trajectory of all-zero samples: one sample per grid point of
    /// `samples`, each with `num_channels` channels.
    pub fn all_zeros(samples: SpatialDims<usize>, num_channels: usize) -> (k: KSpace)
        requires
            samples.product_fits(),
        ensures
            k.wf(),
            k.spec_channels() == num_channels,
            k.spec_len() == samples.spec_product(),
            forall|i: int, j: int|
                0 <= i < k.spec_len() && 0 <= j < num_channels ==> #[trigger] k.spec_rows()[i][j]
                    == 0,
    {
        let total = samples.product();
        let mut rows: Vec<Vec<Fix>> = Vec::new();
        let mut m: usize = 0;
        while m < total
            invariant
                m <= total,
                rows@.len() == m,
                forall|i: int| 0 <= i < m ==> (#[trigger] rows@[i])@.len() == num_channels,
                forall|i: int, j: int|
                    0 <= i < m && 0 <= j < num_channels ==> #[trigger] rows@[i]@[j].0 == 0,
            decreases total - m,
        {
            rows.push(zero_row(num_channels));
            m = m + 1;
        }
        let k = KSpace { kspace: rows, num_channels, num_samples: total };
        proof {
            assert(forall|i: int, j: int|
                0 <= i < k.spec_len() && 0 <= j < num_channels ==> #[trigger] k.spec_rows()[i][j]
                    == 0);
        }
        k
    }

    /// Build a Cartesian trajectory: per axis the step is `1 / fov`, the
    /// coordinates are centered with offset `half_count`, and the grid is
    /// enumerated in row-major order with the first axis varying fastest.
    /// A field of view and a grid of different arity are refused, as is a
    /// zero extent and a grid whose coordinates or size do not fit.
    pub fn cartesian(fov: SpatialDims<Fix>, samples: SpatialDims<usize>) -> (r: Result<
        KSpace,
        KError,
    >)
        ensures
            r == Err::<KSpace, KError>(KError::ArityMismatch) <==> fov.spec_len()
                != samples.spec_len(),
            r == Err::<KSpace, KError>(KError::ZeroDivisor) <==> (fov.spec_len()
                == samples.spec_len() && !fov.all_nonzero()),
            r == Err::<KSpace, KError>(KError::Overflow) <==> (fov.spec_len()
                == samples.spec_len() && fov.all_nonzero() && cart_overflow(fov, samples)),
            r is Ok <==> (fov.spec_len() == samples.spec_len() && fov.all_nonzero()
                && !cart_overflow(fov, samples)),
            r matches Ok(k) ==> k.wf() && cartesian_rows_ok(k, fov, samples),
    {
        match (fov, samples) {
            (SpatialDims::OneD(fx), SpatialDims::OneD(nx)) => cartesian_1d(fx, nx),
            (SpatialDims::TwoD(fx, fy), SpatialDims::TwoD(nx, ny)) => cartesian_2d(fx, fy, nx, ny),
            (SpatialDims::ThreeD(fx, fy, fz), SpatialDims::ThreeD(nx, ny, nz)) => cartesian_3d(
                fx,
                fy,
                fz,
                nx,
                ny,
                nz,
            ),
            _ => Err(KError::ArityMismatch),
        }
    }

    /// Append a sample. The first sample added to an empty trajectory
    /// establishes the channel count; afterwards a sample of any other length
    /// is refused and the trajectory is left unchanged.
    pub fn add(&mut self, sample: Vec<Fix>) -> (r: Result<(), KError>)
        requires
            old(self).wf(),
        ensures
            final(self).wf(),
            r is Ok <==> (sample@.len() == old(self).spec_channels() || (old(self).spec_channels()
                == 0 && old(self).spec_len() == 0)),
            r is Ok ==> final(self).spec_channels() == sample@.len() && final(self).spec_len()
                == old(self).spec_len() + 1 && final(self).spec_rows() == old(
                self,
            ).spec_rows().push(fix_raws(sample@)),
            old(self).spec_len() > 0 ==> final(self).spec_channels() == old(self).spec_channels(),
            r is Err ==> *final(self) == *old(self),
            r matches Err(e) ==> e == KError::ChannelMismatch,
    {
        let n = sample.len();
        if self.num_channels == 0 && self.kspace.len() == 0 {
            proof {
                lemma_rows_push(self.kspace@, sample);
            }
            self.num_channels = n;
            self.kspace.push(sample);
            self.num_samples = self.kspace.len();
            Ok(())
        } else if n == self.num_channels {
            proof {
                lemma_rows_push(self.kspace@, sample);
            }
            self.kspace.push(sample);
            self.num_samples = self.kspace.len();
            Ok(())
        } else {
            Err(KError::ChannelMismatch)
        }
    }

    /// Return a copy of the sample at `idx`.
    pub fn sample_at(&self, idx: usize) -> (r: Vec<Fix>)
        requires
            self.wf(),
            idx < self.spec_len(),
        ensures
            fix_raws(r@) == self.spec_rows()[idx as int],
            r@.len() == self.spec_channels(),
    {
        copy_row(&self.kspace[idx])
    }

    /// Replace the sample at `idx`. A sample whose length differs from the
    /// established channel count is refused and the trajectory is left
    /// unchanged.
    pub fn set_sample(&mut self, idx: usize, sample: Vec<Fix>) -> (r: Result<(), KError>)
        requires
            old(self).wf(),
            idx < old(self).spec_len(),
        ensures
            final(self).wf(),
            r is Ok <==> sample@.len() == old(self).spec_channels(),
            r is Ok ==> final(self).spec_rows() == old(self).spec_rows().update(
                idx as int,
                fix_raws(sample@),
            ) && final(self).spec_channels() == old(self).spec_channels() && final(self).spec_len()
                == old(self).spec_len(),
            r is Err ==> *final(self) == *old(self),
            r matches Err(e) ==> e == KError::ChannelMismatch,
    {
        if sample.len() == self.num_channels {
            proof {
                lemma_rows_update(self.kspace@, idx as int, sample);
            }
            self.kspace.set(idx, sample);
            Ok(())
        } else {
            Err(KError::ChannelMismatch)
        }
    }

    /// Return the established channel count.
    pub fn num_channels(&self) -> (n: usize)
        ensures
            n == self.spec_channels(),
    {
        self.num_channels
    }

    /// Return the number of samples.
    pub fn num_samples(&self) -> (n: usize)
        requires
            self.wf(),
        ensures
            n == self.spec_len(),
    {
        self.num_samples
    }

    /// Return the number of units; for an explicit trajectory each sample is
    /// one unit.
    pub fn num_units(&self) -> (n: usize)
        requires
            self.wf(),
        ensures
            n == self.spec_len(),
    {
        self.num_samples
    }

    /// Return a copy of the whole sample list.
    pub fn samples(&self) -> (r: Vec<Vec<Fix>>)
        requires
            self.wf(),
        ensures
            rows_raws(r@) == self.spec_rows(),
            r@.len() == self.spec_len(),
            forall|i: int| 0 <= i < r@.len() ==> (#[trigger] r@[i])@.len() == self.spec_channels(),
    {
        let mut out: Vec<Vec<Fix>> = Vec::new();
        let mut i: usize = 0;
        while i < self.kspace.len()
            invariant
                self.wf(),
                i <= self.kspace@.len(),
                out@.len() == i,
                forall|t: int| 0 <= t < i ==> (#[trigger] out@[t])@ == self.kspace@[t]@,
            decreases self.kspace@.len() - i,
        {
            out.push(copy_row(&self.kspace[i]));
            i = i + 1;
        }
        proof {
            assert(rows_raws(out@) =~= self.spec_rows());
        }
        out
    }
}

/// One-dimensional Cartesian grid.
fn cartesian_1d(fx: Fix, nx: usize) -> (r: Result<KSpace, KError>)
    ensures
        r == Err::<KSpace, KError>(KError::ZeroDivisor) <==> fx.0 == 0,
        r == Err::<KSpace, KError>(KError::Overflow) <==> (fx.0 != 0 && !axis_coords_fit(
            nx as int,
            fix_recip_raw(fx.0 as int),
        )),
        r is Ok <==> (fx.0 != 0 && axis_coords_fit(nx as int, fix_recip_raw(fx.0 as int))),
        r matches Ok(k) ==> k.wf() && cartesian_rows_ok(
            k,
            SpatialDims::OneD(fx),
            SpatialDims::OneD(nx),
        ),
{
    let dkx = match fx.recip() {
        Some(v) => v,
        None => {
            return Err(KError::ZeroDivisor);
        },
    };
    let cx = match axis_coords(nx, dkx) {
        Ok(v) => v,
        Err(e) => {
            return Err(e);
        },
    };
    let mut rows: Vec<Vec<Fix>> = Vec::new();
    let mut ii: usize = 0;
    while ii < nx
        invariant
            ii <= nx,
            rows@.len() == ii,
            cx@.len() == nx,
            forall|i: int| 0 <= i < nx ==> cx@[i].0 == cart_coord(i, nx as int, dkx.0 as int),
            forall|m: int|
                0 <= m < ii ==> (#[trigger] rows@[m])@.len() == 1 && rows@[m]@[0].0 == cart_coord(
                    m,
                    nx as int,
                    dkx.0 as int,
                ),
        decreases nx - ii,
    {
        let mut row: Vec<Fix> = Vec::new();
        row.push(cx[ii]);
        rows.push(row);
        ii = ii + 1;
    }
    Ok(KSpace { kspace: rows, num_channels: 1, num_samples: nx })
}

/// Two-dimensional Cartesian grid, the first axis varying fastest.
fn cartesian_2d(fx: Fix, fy: Fix, nx: usize, ny: usize) -> (r: Result<KSpace, KError>)
    ensures
        r == Err::<KSpace, KError>(KError::ZeroDivisor) <==> (fx.0 == 0 || fy.0 == 0),
        r == Err::<KSpace, KError>(KError::Overflow) <==> (fx.0 != 0 && fy.0 != 0 && ((nx as int)
            * (ny as int) > usize::MAX || !axis_coords_fit(nx as int, fix_recip_raw(fx.0 as int))
            || !axis_coords_fit(ny as int, fix_recip_raw(fy.0 as int)))),
        r is Ok <==> (fx.0 != 0 && fy.0 != 0 && (nx as int) * (ny as int) <= usize::MAX
            && axis_coords_fit(nx as int, fix_recip_raw(fx.0 as int)) && axis_coords_fit(
            ny as int,
            fix_recip_raw(fy.0 as int),
        )),
        r matches Ok(k) ==> k.wf() && cartesian_rows_ok(
            k,
            SpatialDims::TwoD(fx, fy),
            SpatialDims::TwoD(nx, ny),
        ),
{
    let dkx = match fx.recip() {
        Some(v) => v,
        None => {
            return Err(KError::ZeroDivisor);
        },
    };
    let dky = match fy.recip() {
        Some(v) => v,
        None => {
            return Err(KError::ZeroDivisor);
        },
    };
    let total = match nx.checked_mul(ny) {
        Some(t) => t,
        None => {
            return Err(KError::Overflow);
        },
    };
    let cx = match axis_coords(nx, dkx) {
        Ok(v) => v,
        Err(e) => {
            return Err(e);
        },
    };
    let cy = match axis_coords(ny, dky) {
        Ok(v) => v,
        Err(e) => {
            return Err(e);
        },
    };
    let mut rows: Vec<Vec<Fix>> = Vec::new();
    let mut jj: usize = 0;
    while jj < ny
        invariant
            jj <= ny,
            rows@.len() == jj * nx,
            (nx as int) * (ny as int) <= usize::MAX,
            cx@.len() == nx,
            cy@.len() == ny,
            forall|i: int| 0 <= i < nx ==> cx@[i].0 == cart_coord(i, nx as int, dkx.0 as int),
            forall|j: int| 0 <= j < ny ==> cy@[j].0 == cart_coord(j, ny as int, dky.0 as int),
            forall|m: int|
                0 <= m < rows@.len() ==> (#[trigger] rows@[m])@.len() == 2 && rows@[m]@[0].0
                    == cart_coord(m % (nx as int), nx as int, dkx.0 as int) && rows@[m]@[1].0
                    == cart_coord(m / (nx as int), ny as int, dky.0 as int),
        decreases ny - jj,
    {
        proof {
            assert((jj + 1) * (nx as int) <= (ny as int) * (nx as int)) by (nonlinear_arith)
                requires
                    jj < ny,
                    0 <= nx,
            ;
            assert((ny as int) * (nx as int) == (nx as int) * (ny as int)) by (nonlinear_arith);
        }
        let mut ii: usize = 0;
        while ii < nx
            invariant
                ii <= nx,
                jj < ny,
                rows@.len() == jj * nx + ii,
                (jj + 1) * (nx as int) <= usize::MAX,
                cx@.len() == nx,
                cy@.len() == ny,
                forall|i: int| 0 <= i < nx ==> cx@[i].0 == cart_coord(i, nx as int, dkx.0 as int),
                forall|j: int| 0 <= j < ny ==> cy@[j].0 == cart_coord(j, ny as int, dky.0 as int),
                forall|m: int|
                    0 <= m < rows@.len() ==> (#[trigger] rows@[m])@.len() == 2 && rows@[m]@[0].0
                        == cart_coord(m % (nx as int), nx as int, dkx.0 as int) && rows@[m]@[1].0
                        == cart_coord(m / (nx as int), ny as int, dky.0 as int),
            decreases nx - ii,
        {
            let mut row: Vec<Fix> = Vec::new();
            row.push(cx[ii]);
            row.push(cy[jj]);
            proof {
                assert(jj * nx + ii < (jj + 1) * (nx as int)) by (nonlinear_arith)
                    requires
                        ii < nx,
                        0 <= jj,
                ;
                lemma_fundamental_div_mod_converse(
                    (jj as int) * (nx as int) + ii,
                    nx as int,
                    jj as int,
                    ii as int,
                );
            }
            rows.push(row);
            ii = ii + 1;
        }
        proof {
            assert((jj as int) * (nx as int) + nx == ((jj + 1) as int) * (nx as int))
                by (nonlinear_arith);
        }
        jj = jj + 1;
    }
    proof {
        assert((ny as int) * (nx as int) == (nx as int) * (ny as int)) by (nonlinear_arith);
    }
    Ok(KSpace { kspace: rows, num_channels: 2, num_samples: total })
}

/// Three-dimensional Cartesian grid, the first axis varying fastest.
fn cartesian_3d(fx: Fix, fy: Fix, fz: Fix, nx: usize, ny: usize, nz: usize) -> (r: Result<
    KSpace,
    KError,
>)
    ensures
        r == Err::<KSpace, KError>(KError::ZeroDivisor) <==> (fx.0 == 0 || fy.0 == 0 || fz.0 == 0),
        r == Err::<KSpace, KError>(KError::Overflow) <==> (fx.0 != 0 && fy.0 != 0 && fz.0 != 0 && (
        (nx as int) * (ny as int) > usize::MAX || (nx as int) * (ny as int) * (nz as int)
            > usize::MAX || !axis_coords_fit(nx as int, fix_recip_raw(fx.0 as int))
            || !axis_coords_fit(ny as int, fix_recip_raw(fy.0 as int)) || !axis_coords_fit(
            nz as int,
            fix_recip_raw(fz.0 as int),
        ))),
        r is Ok <==> (fx.0 != 0 && fy.0 != 0 && fz.0 != 0 && (nx as int) * (ny as int)
            <= usize::MAX && (nx as int) * (ny as int) * (nz as int) <= usize::MAX
            && axis_coords_fit(nx as int, fix_recip_raw(fx.0 as int)) && axis_coords_fit(
            ny as int,
            fix_recip_raw(fy.0 as int),
        ) && axis_coords_fit(nz as int, fix_recip_raw(fz.0 as int))),
        r matches Ok(k) ==> k.wf() && cartesian_rows_ok(
            k,
            SpatialDims::ThreeD(fx, fy, fz),
            SpatialDims::ThreeD(nx, ny, nz),
        ),
{
    let dkx = match fx.recip() {
        Some(v) => v,
        None => {
            return Err(KError::ZeroDivisor);
        },
    };
    let dky = match fy.recip() {
        Some(v) => v,
        None => {
            return Err(KError::ZeroDivisor);
        },
    };
    let dkz = match fz.recip() {
        Some(v) => v,
        None => {
            return Err(KError::ZeroDivisor);
        },
    };
    let nxy = match nx.checked_mul(ny) {
        Some(t) => t,
        None => {
            return Err(KError::Overflow);
        },
    };
    let total = match nxy.checked_mul(nz) {
        Some(t) => t,
        None => {
            return Err(KError::Overflow);
        },
    };
    let cx = match axis_coords(nx, dkx) {
        Ok(v) => v,
        Err(e) => {
            return Err(e);
        },
    };
    let cy = match axis_coords(ny, dky) {
        Ok(v) => v,
        Err(e) => {
            return Err(e);
        },
    };
    let cz = match axis_coords(nz, dkz) {
        Ok(v) => v,
        Err(e) => {
            return Err(e);
        },
    };
    let mut rows: Vec<Vec<Fix>> = Vec::new();
    let mut kk: usize = 0;
    while kk < nz
        invariant
            kk <= nz,
            rows@.len() == (kk * ny) * nx,
            (nx as int) * (ny as int) * (nz as int) <= usize::MAX,
            cx@.len() == nx,
            cy@.len() == ny,
            cz@.len() == nz,
            forall|i: int| 0 <= i < nx ==> cx@[i].0 == cart_coord(i, nx as int, dkx.0 as int),
            forall|j: int| 0 <= j < ny ==> cy@[j].0 == cart_coord(j, ny as int, dky.0 as int),
            forall|t: int| 0 <= t < nz ==> cz@[t].0 == cart_coord(t, nz as int, dkz.0 as int),
            forall|m: int|
                0 <= m < rows@.len() ==> (#[trigger] rows@[m])@.len() == 3 && rows@[m]@[0].0
                    == cart_coord(m % (nx as int), nx as int, dkx.0 as int) && rows@[m]@[1].0
                    == cart_coord((m / (nx as int)) % (ny as int), ny as int, dky.0 as int)
                    && rows@[m]@[2].0 == cart_coord(
                    (m / (nx as int)) / (ny as int),
                    nz as int,
                    dkz.0 as int,
                ),
        decreases nz - kk,
    {
        proof {
            lemma_grid_bound_3(kk as int, nx as int, ny as int, nz as int);
        }
        let mut jj: usize = 0;
        while jj < ny
            invariant
                jj <= ny,
                kk < nz,
                rows@.len() == (kk * ny + jj) * nx,
                ((kk + 1) as int) * (ny as int) * (nx as int) <= usize::MAX,
                cx@.len() == nx,
                cy@.len() == ny,
                cz@.len() == nz,
                forall|i: int| 0 <= i < nx ==> cx@[i].0 == cart_coord(i, nx as int, dkx.0 as int),
                forall|j: int| 0 <= j < ny ==> cy@[j].0 == cart_coord(j, ny as int, dky.0 as int),
                forall|t: int| 0 <= t < nz ==> cz@[t].0 == cart_coord(t, nz as int, dkz.0 as int),
                forall|m: int|
                    0 <= m < rows@.len() ==> (#[trigger] rows@[m])@.len() == 3 && rows@[m]@[0].0
                        == cart_coord(m % (nx as int), nx as int, dkx.0 as int) && rows@[m]@[1].0
                        == cart_coord((m / (nx as int)) % (ny as int), ny as int, dky.0 as int)
                        && rows@[m]@[2].0 == cart_coord(
                        (m / (nx as int)) / (ny as int),
                        nz as int,
                        dkz.0 as int,
                    ),
            decreases ny - jj,
        {
            proof {
                assert(((kk as int) * (ny as int) + jj + 1) * (nx as int) <= ((kk + 1) as int) * (
                ny as int) * (nx as int)) by (nonlinear_arith)
                    requires
                        jj < ny,
                        0 <= kk,
                        0 <= nx,
                ;
            }
            let mut ii: usize = 0;
            while ii < nx
                invariant
                    ii <= nx,
                    jj < ny,
                    kk < nz,
                    rows@.len() == (kk * ny + jj) * nx + ii,
                    ((kk as int) * (ny as int) + jj + 1) * (nx as int) <= usize::MAX,
                    cx@.len() == nx,
                    cy@.len() == ny,
                    cz@.len() == nz,
                    forall|i: int|
                        0 <= i < nx ==> cx@[i].0 == cart_coord(i, nx as int, dkx.0 as int),
                    forall|j: int|
                        0 <= j < ny ==> cy@[j].0 == cart_coord(j, ny as int, dky.0 as int),
                    forall|t: int|
                        0 <= t < nz ==> cz@[t].0 == cart_coord(t, nz as int, dkz.0 as int),
                    forall|m: int|
                        0 <= m < rows@.len() ==> (#[trigger] rows@[m])@.len() == 3 && rows@[m]@[0].0
                            == cart_coord(m % (nx as int), nx as int, dkx.0 as int)
                            && rows@[m]@[1].0 == cart_coord(
                            (m / (nx as int)) % (ny as int),
                            ny as int,
                            dky.0 as int,
                        ) && rows@[m]@[2].0 == cart_coord(
                            (m / (nx as int)) / (ny as int),
                            nz as int,
                            dkz.0 as int,
                        ),
                decreases nx - ii,
            {
                let mut row: Vec<Fix> = Vec::new();
                row.push(cx[ii]);
                row.push(cy[jj]);
                row.push(cz[kk]);
                proof {
                    let q = (kk as int) * (ny as int) + jj;
                    assert(q * (nx as int) + ii < (q + 1) * (nx as int)) by (nonlinear_arith)
                        requires
                            ii < nx,
                            0 <= q,
                    ;
                    lemma_fundamental_div_mod_converse(
                        q * (nx as int) + ii,
                        nx as int,
                        q,
                        ii as int,
                    );
                    lemma_fundamental_div_mod_converse(q, ny as int, kk as int, jj as int);
                }
                rows.push(row);
                ii = ii + 1;
            }
            proof {
                assert(((kk as int) * (ny as int) + jj) * (nx as int) + nx == ((kk as int) * (
                ny as int) + jj + 1) * (nx as int)) by (nonlinear_arith);
            }
            jj = jj + 1;
        }
        proof {
            assert(((kk as int) * (ny as int) + ny) * (nx as int) == (((kk + 1) as int) * (
            ny as int)) * (nx as int)) by (nonlinear_arith);
        }
        kk = kk + 1;
    }
    proof {
        assert(((nz as int) * (ny as int)) * (nx as int) == (nx as int) * (ny as int) * (nz as int))
            by (nonlinear_arith);
    }
    Ok(KSpace { kspace: rows, num_channels: 3, num_samples: total })
}

/// Bound on the flat index reached after `kk` complete planes.
proof fn lemma_grid_bound_3(kk: int, nx: int, ny: int, nz: int)
    requires
        0 <= kk < nz,
        0 <= nx,
        0 <= ny,
        nx * ny * nz <= usize::MAX,
    ensures
        (kk + 1) * ny * nx <= usize::MAX,
{
    assert((kk + 1) * ny * nx <= nx * ny * nz) by (nonlinear_arith)
        requires
            0 <= kk < nz,
            0 <= nx,
            0 <= ny,
    ;
}

} // verus!
