//! Sizes measured in terminal cells.

use vstd::prelude::*;

verus! {

/// A width and a height in terminal cells (columns and rows).
#[derive(Clone, Copy, Debug, PartialEq, Eq, Structural)]
pub struct Rect {
    w: u16,
    h: u16,
}

impl Rect {
    /// Number of columns.
    pub closed spec fn width(self) -> u16 {
        self.w
    }

    /// Number of rows.
    pub closed spec fn height(self) -> u16 {
        self.h
    }

    /// Whether an area of this size can be laid out inside `outer`:
    /// it is neither wider nor taller.
    pub open spec fn fits_spec(self, outer: Rect) -> bool {
        self.width() <= outer.width() && self.height() <= outer.height()
    }

    #[inline]
    pub fn new(width: u16, height: u16) -> (r: Self)
        ensures
            r.width() == width,
            r.height() == height,
    {
        Rect { w: width, h: height }
    }

    #[inline]
    pub fn w(&self) -> (width: u16)
        ensures
            width == self.width(),
    {
        self.w
    }

    #[inline]
    pub fn h(&self) -> (height: u16)
        ensures
            height == self.height(),
    {
        self.h
    }

    /// The pair `(width, height)`.
    #[inline]
    pub fn unwrap(&self) -> (pair: (u16, u16))
        ensures
            pair.0 == self.width(),
            pair.1 == self.height(),
    {
        (self.w, self.h)
    }

    /// Whether an area of this size fits inside `outer`.
    pub fn fits(&self, outer: &Rect) -> (ok: bool)
        ensures
            ok == self.fits_spec(*outer),
    {
        self.w <= outer.w && self.h <= outer.h
    }
}

} // verus!
