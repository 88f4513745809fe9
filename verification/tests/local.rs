//! The local k-space: binding trajectories to fields and projecting samples
//! through the gradient at a queried position.

use mri::encodingfield::{EncodingField, FieldExpr};
use mri::errors::KError;
use mri::fixed::Fix;
use mri::kspace::KSpace;
use mri::localkspace::{LocalKSpace, Trajectory};
use mri::parameterized::KSpaceParameterizedProjections;
use mri::projections::{KSpaceProjections, Rotation};
use mri::rf::{RFSensitivity, RFSensitivityArray};
use mri::SpatialDims;

fn fx(millionths: i64) -> Fix {
    Fix(millionths)
}

fn lit(millionths: i64) -> FieldExpr {
    FieldExpr::Lit(Fix(millionths))
}

/// A field whose analytic gradient is the given two-axis vector.
fn field_with_gradient(gx: i64, gy: i64) -> EncodingField {
    let mut f = EncodingField::new(FieldExpr::Coord(0));
    f.derivative(SpatialDims::TwoD(lit(gx), lit(gy)));
    f
}

#[test]
fn identity_gradient_reproduces_cartesian_samples() {
    // field of view 0.2, 4 x 4 grid, and the identity field pair
    // f(x, y) = x, g(x, y) = y: the local trajectory at any position holds
    // all 16 original samples unchanged
    let fov = SpatialDims::TwoD(fx(200_000), fx(200_000));
    let k = KSpace::cartesian(fov, SpatialDims::TwoD(4, 4)).unwrap();
    let original: Vec<Vec<Fix>> = k.samples();
    let fields = vec![field_with_gradient(1_000_000, 0), field_with_gradient(0, 1_000_000)];
    let local = LocalKSpace::new(Trajectory::Samples(k), fields).unwrap();
    let out = local.at(&SpatialDims::TwoD(fx(100_000), fx(-100_000))).unwrap();
    assert_eq!(out.num_samples(), 16);
    assert_eq!(out.num_channels(), 2);
    for m in 0..16 {
        assert_eq!(out.sample_at(m), original[m]);
    }
}

#[test]
fn identity_gradient_through_finite_differences() {
    // the same identity fields left in finite-difference mode: the centered
    // difference of x and of y is exact, so the samples come back unchanged
    let fov = SpatialDims::TwoD(fx(200_000), fx(200_000));
    let k = KSpace::cartesian(fov, SpatialDims::TwoD(4, 4)).unwrap();
    let original: Vec<Vec<Fix>> = k.samples();
    let fields = vec![
        EncodingField::new(FieldExpr::Coord(0)),
        EncodingField::new(FieldExpr::Coord(1)),
    ];
    let local = LocalKSpace::new(Trajectory::Samples(k), fields).unwrap();
    let out = local.at(&SpatialDims::TwoD(fx(100_000), fx(-100_000))).unwrap();
    assert_eq!(out.num_samples(), 16);
    for m in 0..16 {
        assert_eq!(out.sample_at(m), original[m]);
    }
}

#[test]
fn scaling_gradient_transforms_samples() {
    // gradients (2, 0) and (0, 1) double the first output axis; a constant
    // trajectory makes the expected values plain
    let mut k = KSpace::new();
    k.add(vec![fx(1_500_000), fx(2_000_000)]).unwrap();
    let fields = vec![field_with_gradient(2_000_000, 0), field_with_gradient(0, 1_000_000)];
    let local = LocalKSpace::new(Trajectory::Samples(k), fields).unwrap();
    let out = local.at(&SpatialDims::TwoD(fx(0), fx(0))).unwrap();
    assert_eq!(out.num_samples(), 1);
    assert_eq!(out.sample_at(0), vec![fx(3_000_000), fx(2_000_000)]);
}

#[test]
fn local_refuses_channel_mismatch() {
    let fov = SpatialDims::TwoD(fx(200_000), fx(200_000));
    let k = KSpace::cartesian(fov, SpatialDims::TwoD(2, 2)).unwrap();
    let fields = vec![field_with_gradient(1_000_000, 0)];
    assert!(matches!(
        LocalKSpace::new(Trajectory::Samples(k), fields),
        Err(KError::ChannelMismatch)
    ));
}

#[test]
fn local_reports_missing_gradient_axis() {
    // a one-axis gradient cannot serve a two-axis position
    let k = KSpace::cartesian(SpatialDims::OneD(fx(200_000)), SpatialDims::OneD(3)).unwrap();
    let mut f = EncodingField::new(FieldExpr::Coord(0));
    f.derivative(SpatialDims::OneD(lit(1_000_000)));
    let local = LocalKSpace::new(Trajectory::Samples(k), vec![f]).unwrap();
    let r = local.at(&SpatialDims::TwoD(fx(0), fx(0)));
    assert_eq!(r.err(), Some(KError::MissingAxis));
}

#[test]
fn local_reports_failed_gradient_evaluation() {
    // a gradient expression naming a missing axis cannot be evaluated
    let k = KSpace::cartesian(SpatialDims::TwoD(fx(200_000), fx(200_000)), SpatialDims::TwoD(2, 2))
        .unwrap();
    let mut f = EncodingField::new(FieldExpr::Coord(0));
    f.derivative(SpatialDims::TwoD(FieldExpr::Coord(5), lit(0)));
    let g = field_with_gradient(0, 1_000_000);
    let local = LocalKSpace::new(Trajectory::Samples(k), vec![f, g]).unwrap();
    let r = local.at(&SpatialDims::TwoD(fx(0), fx(0)));
    assert_eq!(r.err(), Some(KError::EvalFailed));
}

#[test]
fn local_works_over_radial_projections() {
    let rots = vec![
        Rotation { cos: Fix::one(), sin: fx(0) },
        Rotation { cos: fx(0), sin: Fix::one() },
    ];
    let p = KSpaceProjections::radial(fx(200_000), 4, &rots).unwrap();
    let flat = p.samples();
    let fields = vec![field_with_gradient(1_000_000, 0), field_with_gradient(0, 1_000_000)];
    let local = LocalKSpace::new(Trajectory::Projections(p), fields).unwrap();
    let out = local.at(&SpatialDims::TwoD(fx(100_000), fx(100_000))).unwrap();
    assert_eq!(out.num_samples(), 6);
    for m in 0..6 {
        assert_eq!(out.sample_at(m), flat[m]);
    }
}

#[test]
fn local_works_over_parameterized_projections() {
    let rots = vec![Rotation { cos: Fix::one(), sin: fx(0) }];
    let q = KSpaceParameterizedProjections::radial(fx(200_000), 2, 3, &rots).unwrap();
    let flat = q.samples().unwrap();
    let fields = vec![field_with_gradient(1_000_000, 0), field_with_gradient(0, 1_000_000)];
    let local = LocalKSpace::new(Trajectory::Parameterized(q), fields).unwrap();
    let out = local.at(&SpatialDims::TwoD(fx(0), fx(0))).unwrap();
    assert_eq!(out.num_samples(), 3);
    for m in 0..3 {
        assert_eq!(out.sample_at(m), flat[m]);
    }
}

#[test]
fn trajectory_surface_reports_counts() {
    let rots = vec![
        Rotation { cos: Fix::one(), sin: fx(0) },
        Rotation { cos: fx(0), sin: Fix::one() },
    ];
    let p = KSpaceProjections::radial(fx(200_000), 4, &rots).unwrap();
    let t = Trajectory::Projections(p);
    assert_eq!(t.num_channels(), 2);
    assert_eq!(t.num_units(), 2);
    assert_eq!(t.num_samples(), 6);
    assert_eq!(t.samples().unwrap().len(), 6);
}

#[test]
fn rf_sensitivity_holds_pairs() {
    let coil = RFSensitivity::new(vec![(fx(1), fx(2)), (fx(3), fx(4))]);
    assert_eq!(coil.sens.len(), 2);
    assert_eq!(coil.sens[1], (fx(3), fx(4)));
    let mut arr = RFSensitivityArray::new();
    assert_eq!(arr.array.len(), 0);
    arr.push(coil);
    arr.push(RFSensitivity::new(vec![]));
    assert_eq!(arr.array.len(), 2);
    assert_eq!(arr.array[0].sens.len(), 2);
}
