use vstd::prelude::*;

verus! {

/// `v` is a value that `T::default()` may return. For the numeric types
/// this is their zero.
pub open spec fn is_default<T: Default>(v: T) -> bool {
    call_ensures(T::default, (), v)
}

/// A pair of scalars: a point or a direction in the plane.
#[derive(Clone, Copy, Debug)]
pub struct Vector2<T> {
    pub x: T,
    pub y: T,
}

impl<T: Copy> Vector2<T> {
    /// Creates the vector `(x, y)`.
    pub fn new(x: T, y: T) -> (v: Self)
        ensures
            v.x == x,
            v.y == y,
    {
        Vector2 { x, y }
    }
}

impl<T: Copy + Default> Vector2<T> {
    /// The vector whose two components are the scalar type's default value
    /// (its zero).
    pub fn zero() -> (v: Self)
        ensures
            is_default(v.x),
            v.y == v.x,
    {
        let d = T::default();
        Vector2 { x: d, y: d }
    }
}

/// An RGBA colour, one byte per channel.
#[derive(Clone, Copy, Debug, PartialEq, Eq, Structural)]
pub struct Color {
    pub r: u8,
    pub g: u8,
    pub b: u8,
    pub a: u8,
}

impl Color {
    /// Creates the colour with the given channels.
    pub fn new(r: u8, g: u8, b: u8, a: u8) -> (c: Self)
        ensures
            c == (Color { r, g, b, a }),
    {
        Color { r, g, b, a }
    }
}

} // verus!
