//! Spatial dimensions: a tagged union over one-, two- and three-dimensional
//! tuples of a numeric type, with axis accessors and elementwise helpers.

use crate::fixed::{fix_recip_raw, Fix};
use vstd::prelude::*;

verus! {

/// A 1-, 2- or 3-dimensional tuple; the variant fixes the arity of every
/// operation performed with it.
#[derive(Clone, Copy, PartialEq, Eq, Structural, Debug)]
pub enum SpatialDims<T> {
    /// One dimension.
    OneD(T),
    /// Two dimensions.
    TwoD(T, T),
    /// Three dimensions.
    ThreeD(T, T, T),
}

impl<T> SpatialDims<T> {
    /// The arity of this value: 1, 2 or 3.
    pub open spec fn spec_len(&self) -> int {
        match *self {
            SpatialDims::OneD(_) => 1,
            SpatialDims::TwoD(_, _) => 2,
            SpatialDims::ThreeD(_, _, _) => 3,
        }
    }

    /// The first axis; present for every arity.
    pub open spec fn spec_x(&self) -> Option<T> {
        match *self {
            SpatialDims::OneD(x) => Some(x),
            SpatialDims::TwoD(x, _) => Some(x),
            SpatialDims::ThreeD(x, _, _) => Some(x),
        }
    }

    /// The second axis; absent in one dimension.
    pub open spec fn spec_y(&self) -> Option<T> {
        match *self {
            SpatialDims::OneD(_) => None,
            SpatialDims::TwoD(_, y) => Some(y),
            SpatialDims::ThreeD(_, y, _) => Some(y),
        }
    }

    /// The third axis; present only in three dimensions.
    pub open spec fn spec_z(&self) -> Option<T> {
        match *self {
            SpatialDims::OneD(_) => None,
            SpatialDims::TwoD(_, _) => None,
            SpatialDims::ThreeD(_, _, z) => Some(z),
        }
    }

    /// Axis `i`, counted from zero; absent beyond the arity.
    pub open spec fn axis(&self, i: int) -> Option<T> {
        if i == 0 {
            self.spec_x()
        } else if i == 1 {
            self.spec_y()
        } else if i == 2 {
            self.spec_z()
        } else {
            None
        }
    }

    /// Return the arity.
    pub fn len(&self) -> (n: usize)
        ensures
            n == self.spec_len(),
    {
        match *self {
            SpatialDims::OneD(_) => 1,
            SpatialDims::TwoD(_, _) => 2,
            SpatialDims::ThreeD(_, _, _) => 3,
        }
    }
}

impl<T: Copy> SpatialDims<T> {
    /// Return the first axis.
    pub fn x(&self) -> (r: Option<T>)
        ensures
            r == self.spec_x(),
    {
        match self {
            SpatialDims::OneD(x) => Some(*x),
            SpatialDims::TwoD(x, _) => Some(*x),
            SpatialDims::ThreeD(x, _, _) => Some(*x),
        }
    }

    /// Return the second axis, absent in one dimension.
    pub fn y(&self) -> (r: Option<T>)
        ensures
            r == self.spec_y(),
    {
        match self {
            SpatialDims::OneD(_) => None,
            SpatialDims::TwoD(_, y) => Some(*y),
            SpatialDims::ThreeD(_, y, _) => Some(*y),
        }
    }

    /// Return the third axis, present only in three dimensions.
    pub fn z(&self) -> (r: Option<T>)
        ensures
            r == self.spec_z(),
    {
        match self {
            SpatialDims::OneD(_) => None,
            SpatialDims::TwoD(_, _) => None,
            SpatialDims::ThreeD(_, _, z) => Some(*z),
        }
    }

    /// Walk the axes in order through [`SpatialDimsIntoIterator`].
    pub fn into_iter(self) -> (it: SpatialDimsIntoIterator<T>)
        ensures
            it.dims == self,
            it.index == 0,
    {
        SpatialDimsIntoIterator { dims: self, index: 0 }
    }
}

impl SpatialDims<usize> {
    /// The elementwise product, as a mathematical integer.
    pub open spec fn spec_product(&self) -> int {
        match *self {
            SpatialDims::OneD(x) => x as int,
            SpatialDims::TwoD(x, y) => x * y,
            SpatialDims::ThreeD(x, y, z) => x * y * z,
        }
    }

    /// Whether the product and each intermediate product fit `usize`.
    pub open spec fn product_fits(&self) -> bool {
        match *self {
            SpatialDims::OneD(_) => true,
            SpatialDims::TwoD(x, y) => x * y <= usize::MAX,
            SpatialDims::ThreeD(x, y, z) => x * y <= usize::MAX && x * y * z <= usize::MAX,
        }
    }

    /// Compute the elementwise product.
    pub fn product(&self) -> (r: usize)
        requires
            self.product_fits(),
        ensures
            r == self.spec_product(),
    {
        match *self {
            SpatialDims::OneD(x) => x,
            SpatialDims::TwoD(x, y) => x * y,
            SpatialDims::ThreeD(x, y, z) => x * y * z,
        }
    }

    /// Compute the elementwise product, reporting when it does not fit.
    pub fn checked_product(&self) -> (r: Option<usize>)
        ensures
            r is Some <==> self.product_fits(),
            r matches Some(v) ==> v == self.spec_product(),
    {
        match *self {
            SpatialDims::OneD(x) => Some(x),
            SpatialDims::TwoD(x, y) => x.checked_mul(y),
            SpatialDims::ThreeD(x, y, z) => match x.checked_mul(y) {
                Some(xy) => xy.checked_mul(z),
                None => None,
            },
        }
    }
}

impl SpatialDims<Fix> {
    /// Whether every axis is nonzero, so that each reciprocal exists.
    pub open spec fn all_nonzero(&self) -> bool {
        match *self {
            SpatialDims::OneD(x) => x.0 != 0,
            SpatialDims::TwoD(x, y) => x.0 != 0 && y.0 != 0,
            SpatialDims::ThreeD(x, y, z) => x.0 != 0 && y.0 != 0 && z.0 != 0,
        }
    }

    /// The elementwise reciprocal.
    pub open spec fn spec_invert(&self) -> SpatialDims<Fix>
        recommends
            self.all_nonzero(),
    {
        match *self {
            SpatialDims::OneD(x) => SpatialDims::OneD(Fix(fix_recip_raw(x.0 as int) as i64)),
            SpatialDims::TwoD(x, y) => SpatialDims::TwoD(
                Fix(fix_recip_raw(x.0 as int) as i64),
                Fix(fix_recip_raw(y.0 as int) as i64),
            ),
            SpatialDims::ThreeD(x, y, z) => SpatialDims::ThreeD(
                Fix(fix_recip_raw(x.0 as int) as i64),
                Fix(fix_recip_raw(y.0 as int) as i64),
                Fix(fix_recip_raw(z.0 as int) as i64),
            ),
        }
    }

    /// Invert every axis; `None` exactly when some axis is zero.
    pub fn invert(&self) -> (r: Option<SpatialDims<Fix>>)
        ensures
            r is Some <==> self.all_nonzero(),
            r matches Some(d) ==> d == self.spec_invert(),
    {
        match *self {
            SpatialDims::OneD(x) => match x.recip() {
                Some(rx) => Some(SpatialDims::OneD(rx)),
                None => None,
            },
            SpatialDims::TwoD(x, y) => match (x.recip(), y.recip()) {
                (Some(rx), Some(ry)) => Some(SpatialDims::TwoD(rx, ry)),
                _ => None,
            },
            SpatialDims::ThreeD(x, y, z) => match (x.recip(), y.recip(), z.recip()) {
                (Some(rx), Some(ry), Some(rz)) => Some(SpatialDims::ThreeD(rx, ry, rz)),
                _ => None,
            },
        }
    }
}

/// Walks the axes of a [`SpatialDims`] in order.
pub struct SpatialDimsIntoIterator<T> {
    /// The value being walked.
    pub dims: SpatialDims<T>,
    /// The next axis to hand out.
    pub index: usize,
}

impl<T: Copy> SpatialDimsIntoIterator<T> {
    /// Hand out the next axis, absent once the arity is exhausted.
    pub fn next(&mut self) -> (r: Option<T>)
        requires
            old(self).index < usize::MAX,
        ensures
            final(self).dims == old(self).dims,
            final(self).index == old(self).index + 1,
            r == old(self).dims.axis(old(self).index as int),
    {
        let idx = self.index;
        self.index = idx + 1;
        if idx == 0 {
            self.dims.x()
        } else if idx == 1 {
            self.dims.y()
        } else if idx == 2 {
            self.dims.z()
        } else {
            None
        }
    }
}

} // verus!
