//! The scene: an ordered collection of surfaces.
use vstd::prelude::*;

verus! {

/// Overlap test between two solids, used when laying out a scene.
pub trait Intersect<S = Self> {
    /// Whether `self` and `other` share interior points.
    fn intersect(&self, other: &S) -> bool;
}

/// The surfaces of a scene, in insertion order.
pub struct Scene<T> {
    hitables: Vec<T>,
}

impl<T> Scene<T> {
    /// The surfaces, in insertion order.
    pub closed spec fn surfaces(&self) -> Seq<T> {
        self.hitables@
    }

    /// A scene made of `hitables`, kept in the given order.
    pub fn new(hitables: Vec<T>) -> (r: Scene<T>)
        ensures
            r.surfaces() == hitables@,
    {
        Scene { hitables }
    }

    /// The surfaces, in insertion order.
    pub fn hitables(&self) -> (r: &Vec<T>)
        ensures
            r@ == self.surfaces(),
    {
        &self.hitables
    }

    /// Number of surfaces.
    pub fn len(&self) -> (r: usize)
        ensures
            r == self.surfaces().len(),
    {
        self.hitables.len()
    }

    /// Whether the scene has no surface; every ray then misses.
    pub fn is_empty(&self) -> (r: bool)
        ensures
            r == (self.surfaces().len() == 0),
    {
        self.hitables.len() == 0
    }
}

} // verus!
