//! Encoding fields: expression evaluation, analytic gradients, the centered
//! difference, and discrete linear fields.

use mri::encodingfield::{EncodingField, EncodingFieldDiscrete, FieldExpr};
use mri::errors::KError;
use mri::fixed::Fix;
use mri::SpatialDims;

fn fx(millionths: i64) -> Fix {
    Fix(millionths)
}

fn coord(a: usize) -> FieldExpr {
    FieldExpr::Coord(a)
}

fn lit(millionths: i64) -> FieldExpr {
    FieldExpr::Lit(Fix(millionths))
}

fn prod(l: FieldExpr, r: FieldExpr) -> FieldExpr {
    FieldExpr::Prod(Box::new(l), Box::new(r))
}

fn sum(l: FieldExpr, r: FieldExpr) -> FieldExpr {
    FieldExpr::Sum(Box::new(l), Box::new(r))
}

#[test]
fn field_evaluates_expressions() {
    // f(x, y) = x * y + 2 at (3, 4) is 14
    let f = EncodingField::new(sum(prod(coord(0), coord(1)), lit(2_000_000)));
    let pos = SpatialDims::TwoD(fx(3_000_000), fx(4_000_000));
    assert_eq!(f.at(&pos), Some(fx(14_000_000)));
    // g(x, y) = -(x - y) at (3, 4) is 1
    let g = EncodingField::new(FieldExpr::Neg(Box::new(FieldExpr::Diff(
        Box::new(coord(0)),
        Box::new(coord(1)),
    ))));
    assert_eq!(g.at(&pos), Some(fx(1_000_000)));
}

#[test]
fn field_refuses_missing_axis() {
    let f = EncodingField::new(coord(2));
    let pos = SpatialDims::TwoD(fx(1_000_000), fx(2_000_000));
    assert_eq!(f.at(&pos), None);
}

#[test]
fn field_analytic_gradient() {
    // f(x, y) = x with supplied gradient (1, 0)
    let mut f = EncodingField::new(coord(0));
    f.derivative(SpatialDims::TwoD(lit(1_000_000), lit(0)));
    let pos = SpatialDims::TwoD(fx(100_000), fx(-100_000));
    assert_eq!(
        f.deriv_at(&pos),
        Some(SpatialDims::TwoD(Fix::one(), fx(0)))
    );
}

#[test]
fn field_finite_difference_linear_is_exact() {
    // for a linear field the centered difference is exact at the default step
    let f = EncodingField::new(coord(0));
    let pos = SpatialDims::TwoD(fx(100_000), fx(200_000));
    assert_eq!(
        f.deriv_at(&pos),
        Some(SpatialDims::TwoD(Fix::one(), fx(0)))
    );
}

#[test]
fn field_finite_difference_converges_quadratically() {
    // f(x) = x^3 has derivative 3 x^2; the centered difference at x = 1
    // errs by exactly h^2, so shrinking h tenfold shrinks the error
    // a hundredfold
    let cube = prod(prod(coord(0), coord(0)), coord(0));
    let pos = SpatialDims::OneD(fx(1_000_000));
    let exact: i64 = 3_000_000;

    let mut coarse = EncodingField::new(cube);
    coarse.finite_difference(fx(100_000)); // h = 0.1
    let d = coarse.deriv_at(&pos).unwrap();
    let err_coarse = d.x().unwrap().0 - exact;
    assert_eq!(err_coarse, 10_000); // 0.01 == h^2

    coarse.finite_difference(fx(10_000)); // h = 0.01
    let d = coarse.deriv_at(&pos).unwrap();
    let err_fine = d.x().unwrap().0 - exact;
    assert_eq!(err_fine, 100); // 0.0001 == h^2
    assert_eq!(err_coarse / err_fine, 100);
}

#[test]
fn discrete_linear_x_values() {
    // fov 2.0 over 4 points: step 0.25, values 2 * (x/4 - 1/2)
    let f = EncodingFieldDiscrete::linear_x(SpatialDims::OneD(fx(2_000_000)), SpatialDims::OneD(4))
        .unwrap();
    assert_eq!(
        f.field,
        vec![fx(-1_000_000), fx(-500_000), fx(0), fx(500_000)]
    );
    assert_eq!(f.dimensions(), SpatialDims::OneD(4));
    assert_eq!(f.fov(), SpatialDims::OneD(fx(2_000_000)));
    // in two dimensions the values repeat along y
    let g = EncodingFieldDiscrete::linear_x(
        SpatialDims::TwoD(fx(2_000_000), fx(3_000_000)),
        SpatialDims::TwoD(2, 2),
    )
    .unwrap();
    assert_eq!(g.field, vec![fx(-1_000_000), fx(0), fx(-1_000_000), fx(0)]);
}

#[test]
fn discrete_linear_y_values() {
    // the y-linear field varies with the row: 3 * (y/2 - 1/2)
    let g = EncodingFieldDiscrete::linear_y(
        SpatialDims::TwoD(fx(2_000_000), fx(3_000_000)),
        SpatialDims::TwoD(2, 2),
    )
    .unwrap();
    assert_eq!(
        g.field,
        vec![fx(-1_500_000), fx(-1_500_000), fx(0), fx(0)]
    );
}

#[test]
fn discrete_linear_z_values() {
    let g = EncodingFieldDiscrete::linear_z(
        SpatialDims::ThreeD(fx(2_000_000), fx(2_000_000), fx(4_000_000)),
        SpatialDims::ThreeD(1, 1, 2),
    )
    .unwrap();
    assert_eq!(g.field, vec![fx(-2_000_000), fx(0)]);
}

#[test]
fn discrete_linear_rejects_bad_configurations() {
    // a y gradient needs a second axis
    assert_eq!(
        EncodingFieldDiscrete::linear_y(SpatialDims::OneD(fx(1_000_000)), SpatialDims::OneD(4))
            .err(),
        Some(KError::MissingAxis)
    );
    // a z gradient needs a third axis
    assert_eq!(
        EncodingFieldDiscrete::linear_z(
            SpatialDims::TwoD(fx(1_000_000), fx(1_000_000)),
            SpatialDims::TwoD(4, 4)
        )
        .err(),
        Some(KError::MissingAxis)
    );
    // mismatched arity is a configuration error
    assert_eq!(
        EncodingFieldDiscrete::linear_x(
            SpatialDims::TwoD(fx(1_000_000), fx(1_000_000)),
            SpatialDims::OneD(4)
        )
        .err(),
        Some(KError::ArityMismatch)
    );
    // a zero-sized varying axis has no step
    assert_eq!(
        EncodingFieldDiscrete::linear_x(SpatialDims::OneD(fx(1_000_000)), SpatialDims::OneD(0))
            .err(),
        Some(KError::ZeroDivisor)
    );
}
