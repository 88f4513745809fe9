//! The three trajectory representations: explicit lists, rotated spokes, and
//! parameterized spokes.

use mri::errors::KError;
use mri::fixed::Fix;
use mri::kspace::KSpace;
use mri::parameterized::KSpaceParameterizedProjections;
use mri::projections::{KSpaceProjections, Rotation};
use mri::SpatialDims;

fn fx(millionths: i64) -> Fix {
    Fix(millionths)
}

#[test]
fn kspace_channels_established_by_first_insert() {
    let mut k = KSpace::new();
    assert_eq!(k.num_channels(), 0);
    assert_eq!(k.add(vec![fx(1_000_000), fx(2_000_000)]), Ok(()));
    assert_eq!(k.num_channels(), 2);
    // an inconsistent length always fails afterwards, and the established
    // channel count never changes
    assert_eq!(k.add(vec![fx(3_000_000)]), Err(KError::ChannelMismatch));
    assert_eq!(k.num_channels(), 2);
    assert_eq!(k.num_samples(), 1);
    assert_eq!(k.add(vec![fx(3_000_000), fx(4_000_000)]), Ok(()));
    assert_eq!(k.num_samples(), 2);
    assert_eq!(k.num_units(), 2);
    assert_eq!(k.sample_at(1), vec![fx(3_000_000), fx(4_000_000)]);
    let all = k.samples();
    assert_eq!(all.len(), 2);
    assert_eq!(all[0], vec![fx(1_000_000), fx(2_000_000)]);
}

#[test]
fn kspace_set_sample_checks_width() {
    let mut k = KSpace::new();
    assert_eq!(k.add(vec![fx(1), fx(2)]), Ok(()));
    assert_eq!(k.set_sample(0, vec![fx(9)]), Err(KError::ChannelMismatch));
    assert_eq!(k.sample_at(0), vec![fx(1), fx(2)]);
    assert_eq!(k.set_sample(0, vec![fx(9), fx(8)]), Ok(()));
    assert_eq!(k.sample_at(0), vec![fx(9), fx(8)]);
}

#[test]
fn kspace_all_zeros() {
    let k = KSpace::all_zeros(SpatialDims::TwoD(2, 3), 2);
    assert_eq!(k.num_samples(), 6);
    assert_eq!(k.num_channels(), 2);
    for m in 0..6 {
        assert_eq!(k.sample_at(m), vec![fx(0), fx(0)]);
    }
}

#[test]
fn cartesian_two_d_grid() {
    // field of view 0.2 on both axes, a 4 x 4 grid: dk == 5.0, and the axis
    // coordinates are (i - 2) * 5.0 with the first axis varying fastest
    let fov = SpatialDims::TwoD(fx(200_000), fx(200_000));
    let grid = SpatialDims::TwoD(4, 4);
    let k = KSpace::cartesian(fov, grid).unwrap();
    assert_eq!(k.num_samples(), 16);
    assert_eq!(k.num_channels(), 2);
    let dk: i64 = 5_000_000;
    for m in 0..16usize {
        let ii = (m % 4) as i64;
        let jj = (m / 4) as i64;
        assert_eq!(k.sample_at(m), vec![fx((ii - 2) * dk), fx((jj - 2) * dk)]);
    }
}

#[test]
fn cartesian_odd_count_symmetric_about_zero() {
    // an odd axis is symmetric about zero with the center exactly zero and
    // equal spacing 1/fov
    let k = KSpace::cartesian(SpatialDims::OneD(fx(500_000)), SpatialDims::OneD(5)).unwrap();
    let dk: i64 = 2_000_000;
    let coords: Vec<i64> = (0..5).map(|i| k.sample_at(i)[0].0).collect();
    assert_eq!(coords, vec![-2 * dk, -dk, 0, dk, 2 * dk]);
    for i in 0..5 {
        assert_eq!(coords[i] + coords[4 - i], 0);
    }
    for i in 0..4 {
        assert_eq!(coords[i + 1] - coords[i], dk);
    }
    assert_eq!(coords[2], 0);
}

#[test]
fn cartesian_three_d_grid() {
    let fov = SpatialDims::ThreeD(fx(500_000), fx(500_000), fx(500_000));
    let k = KSpace::cartesian(fov, SpatialDims::ThreeD(2, 2, 2)).unwrap();
    assert_eq!(k.num_samples(), 8);
    assert_eq!(k.num_channels(), 3);
    let dk: i64 = 2_000_000;
    // m == 5 is (ii, jj, kk) == (1, 0, 1); offsets are index - 1
    assert_eq!(k.sample_at(5), vec![fx(0), fx(-dk), fx(0)]);
}

#[test]
fn cartesian_rejects_bad_configurations() {
    let r = KSpace::cartesian(SpatialDims::TwoD(fx(200_000), fx(200_000)), SpatialDims::OneD(4));
    assert_eq!(r.err(), Some(KError::ArityMismatch));
    let r = KSpace::cartesian(SpatialDims::TwoD(fx(200_000), fx(0)), SpatialDims::TwoD(4, 4));
    assert_eq!(r.err(), Some(KError::ZeroDivisor));
    let r = KSpace::cartesian(
        SpatialDims::TwoD(fx(200_000), fx(200_000)),
        SpatialDims::TwoD(usize::MAX, 2),
    );
    assert_eq!(r.err(), Some(KError::Overflow));
}

#[test]
fn radial_rotates_the_canonical_spoke() {
    // fov 0.2 (dk == 5.0), 4 samples per axis: the canonical spoke drops the
    // center and holds offsets {-2, -1, 1} * dk along the first axis
    let identity = Rotation { cos: Fix::one(), sin: fx(0) };
    let quarter = Rotation { cos: fx(0), sin: Fix::one() };
    let rots = vec![identity, quarter];
    let p = KSpaceProjections::radial(fx(200_000), 4, &rots).unwrap();
    assert_eq!(p.num_units(), 2);
    assert_eq!(p.num_channels(), 2);
    assert_eq!(p.num_samples(), 6);
    let dk: i64 = 5_000_000;
    // the spoke of the identity rotation equals the canonical spoke
    assert_eq!(
        p.sample_at(0),
        vec![
            vec![fx(-2 * dk), fx(0)],
            vec![fx(-dk), fx(0)],
            vec![fx(dk), fx(0)]
        ]
    );
    // a quarter turn sends (x, 0) to (0, x)
    assert_eq!(
        p.sample_at(1),
        vec![
            vec![fx(0), fx(-2 * dk)],
            vec![fx(0), fx(-dk)],
            vec![fx(0), fx(dk)]
        ]
    );
    // flattening walks the spokes in order
    let flat = p.samples();
    assert_eq!(flat.len(), 6);
    assert_eq!(flat[0], vec![fx(-2 * dk), fx(0)]);
    assert_eq!(flat[3], vec![fx(0), fx(-2 * dk)]);
}

#[test]
fn radial_rejects_zero_fov() {
    let rots = vec![Rotation { cos: Fix::one(), sin: fx(0) }];
    assert_eq!(
        KSpaceProjections::radial(fx(0), 4, &rots).err(),
        Some(KError::ZeroDivisor)
    );
}

#[test]
fn projections_add_and_set() {
    let mut p = KSpaceProjections::new();
    assert_eq!(p.num_channels(), 0);
    assert_eq!(p.add(vec![vec![fx(1), fx(2)], vec![fx(3), fx(4)]]), Ok(()));
    assert_eq!(p.num_channels(), 2);
    assert_eq!(p.num_units(), 1);
    assert_eq!(p.num_samples(), 2);
    // a ragged spoke is refused
    assert_eq!(
        p.add(vec![vec![fx(1), fx(2)], vec![fx(3)]]),
        Err(KError::ChannelMismatch)
    );
    // a spoke of another width is refused once channels are established
    assert_eq!(p.add(vec![vec![fx(1)]]), Err(KError::ChannelMismatch));
    assert_eq!(p.num_units(), 1);
    // replacing a spoke adjusts the sample total
    assert_eq!(p.set_sample(0, vec![vec![fx(9), fx(8)]]), Ok(()));
    assert_eq!(p.num_samples(), 1);
    assert_eq!(p.sample_at(0), vec![vec![fx(9), fx(8)]]);
    assert_eq!(
        p.set_sample(0, vec![vec![fx(9)]]),
        Err(KError::ChannelMismatch)
    );
}

#[test]
fn parameterized_radial_generates_samples() {
    let rots = vec![Rotation { cos: Fix::one(), sin: fx(0) }];
    let q = KSpaceParameterizedProjections::radial(fx(200_000), 2, 3, &rots).unwrap();
    assert_eq!(q.num_channels(), 2);
    assert_eq!(q.num_units(), 1);
    assert_eq!(q.num_samples(), 3);
    let (pos, dir) = q.sample_at(0);
    assert_eq!(pos, vec![fx(0), fx(0)]);
    assert_eq!(dir, vec![Fix::one(), fx(0)]);
    // offsets {-1, 0, 1}, dk == 5.0, direction the first axis
    let flat = q.samples().unwrap();
    assert_eq!(
        flat,
        vec![
            vec![fx(-5_000_000), fx(0)],
            vec![fx(0), fx(0)],
            vec![fx(5_000_000), fx(0)]
        ]
    );
}

#[test]
fn parameterized_radial_needs_two_channels() {
    let rots = vec![Rotation { cos: Fix::one(), sin: fx(0) }];
    assert_eq!(
        KSpaceParameterizedProjections::radial(fx(200_000), 1, 3, &rots).err(),
        Some(KError::ChannelMismatch)
    );
    // extra channels pad the direction with zeros
    let q = KSpaceParameterizedProjections::radial(fx(200_000), 3, 3, &rots).unwrap();
    let (_, dir) = q.sample_at(0);
    assert_eq!(dir, vec![Fix::one(), fx(0), fx(0)]);
}

#[test]
fn parameterized_update_outside_bounds_is_rejected() {
    let rots = vec![Rotation { cos: Fix::one(), sin: fx(0) }];
    let mut q = KSpaceParameterizedProjections::radial(fx(200_000), 2, 3, &rots).unwrap();
    // samples of the update would reach 195..205, outside the +-165 bound:
    // the stored spoke is left exactly as it was
    let far = (vec![fx(200_000_000), fx(0)], vec![Fix::one(), fx(0)]);
    assert!(!q.set_sample(0, far));
    let (pos, dir) = q.sample_at(0);
    assert_eq!(pos, vec![fx(0), fx(0)]);
    assert_eq!(dir, vec![Fix::one(), fx(0)]);
    // the bound is strict: an update whose largest sample lands exactly on
    // 165 is rejected too
    let edge = (vec![fx(160_000_000), fx(0)], vec![Fix::one(), fx(0)]);
    assert!(!q.set_sample(0, edge));
    // an update within bounds is applied exactly
    let near = (vec![fx(1_000_000), fx(2_000_000)], vec![fx(0), Fix::one()]);
    assert!(q.set_sample(0, near));
    let (pos, dir) = q.sample_at(0);
    assert_eq!(pos, vec![fx(1_000_000), fx(2_000_000)]);
    assert_eq!(dir, vec![fx(0), Fix::one()]);
    let flat = q.samples().unwrap();
    assert_eq!(flat[0], vec![fx(1_000_000), fx(-3_000_000)]);
    assert_eq!(flat[1], vec![fx(1_000_000), fx(2_000_000)]);
    assert_eq!(flat[2], vec![fx(1_000_000), fx(7_000_000)]);
}

#[test]
fn cartesian_single_sample_sits_at_zero() {
    let k = KSpace::cartesian(SpatialDims::OneD(fx(200_000)), SpatialDims::OneD(1)).unwrap();
    assert_eq!(k.num_samples(), 1);
    assert_eq!(k.sample_at(0), vec![fx(0)]);
}

#[test]
fn radial_edge_counts() {
    // no rotations: no spokes, no samples
    let none: Vec<Rotation> = vec![];
    let p = KSpaceProjections::radial(fx(200_000), 4, &none).unwrap();
    assert_eq!(p.num_units(), 0);
    assert_eq!(p.num_samples(), 0);
    assert_eq!(p.samples(), Vec::<Vec<Fix>>::new());
    // one sample per axis: the canonical spoke is its own removed center,
    // so every spoke is empty
    let rots = vec![Rotation { cos: Fix::one(), sin: fx(0) }];
    let p = KSpaceProjections::radial(fx(200_000), 1, &rots).unwrap();
    assert_eq!(p.num_units(), 1);
    assert_eq!(p.num_samples(), 0);
    assert_eq!(p.sample_at(0), Vec::<Vec<Fix>>::new());
}

#[test]
fn parameterized_add_checks_width() {
    let rots = vec![Rotation { cos: Fix::one(), sin: fx(0) }];
    let mut q = KSpaceParameterizedProjections::radial(fx(200_000), 2, 3, &rots).unwrap();
    assert_eq!(
        q.add((vec![fx(0)], vec![fx(1), fx(0)])),
        Err(KError::ChannelMismatch)
    );
    assert_eq!(q.add((vec![fx(0), fx(0)], vec![fx(0), Fix::one()])), Ok(()));
    assert_eq!(q.num_units(), 2);
    assert_eq!(q.num_samples(), 6);
}
