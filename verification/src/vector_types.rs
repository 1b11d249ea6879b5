//! Small fixed-arity vector values, stored as 32-bit words.
//!
//! Components carry the raw bit pattern of whatever 32-bit value the caller
//! packs into the buffer; the engine itself never interprets them.

use vstd::prelude::*;

verus! {

/// A two-component vector of 32-bit words.
#[derive(Debug, Clone, Copy, PartialEq, Eq, Structural)]
pub struct Vec2 {
    pub x: u32,
    pub y: u32,
}

impl Vec2 {
    pub fn new(x: u32, y: u32) -> (r: Vec2)
        ensures
            r.x == x && r.y == y,
    {
        Vec2 { x, y }
    }

    /// Component `i`, or `None` past the end.
    pub fn get(&self, i: usize) -> (r: Option<u32>)
        ensures
            r == if i == 0 {
                Some(self.x)
            } else if i == 1 {
                Some(self.y)
            } else {
                None::<u32>
            },
    {
        match i {
            0 => Some(self.x),
            1 => Some(self.y),
            _ => None,
        }
    }
}

/// A three-component vector of 32-bit words.
#[derive(Debug, Clone, Copy, PartialEq, Eq, Structural)]
pub struct Vec3 {
    pub x: u32,
    pub y: u32,
    pub z: u32,
}

impl Vec3 {
    pub fn new(x: u32, y: u32, z: u32) -> (r: Vec3)
        ensures
            r.x == x && r.y == y && r.z == z,
    {
        Vec3 { x, y, z }
    }

    /// Component `i`, or `None` past the end.
    pub fn get(&self, i: usize) -> (r: Option<u32>)
        ensures
            r == if i == 0 {
                Some(self.x)
            } else if i == 1 {
                Some(self.y)
            } else if i == 2 {
                Some(self.z)
            } else {
                None::<u32>
            },
    {
        match i {
            0 => Some(self.x),
            1 => Some(self.y),
            2 => Some(self.z),
            _ => None,
        }
    }
}

/// A four-component vector of 32-bit words.
#[derive(Debug, Clone, Copy, PartialEq, Eq, Structural)]
pub struct Vec4 {
    pub x: u32,
    pub y: u32,
    pub z: u32,
    pub w: u32,
}

impl Vec4 {
    pub fn new(x: u32, y: u32, z: u32, w: u32) -> (r: Vec4)
        ensures
            r.x == x && r.y == y && r.z == z && r.w == w,
    {
        Vec4 { x, y, z, w }
    }

    /// Component `i`, or `None` past the end.
    pub fn get(&self, i: usize) -> (r: Option<u32>)
        ensures
            r == if i == 0 {
                Some(self.x)
            } else if i == 1 {
                Some(self.y)
            } else if i == 2 {
                Some(self.z)
            } else if i == 3 {
                Some(self.w)
            } else {
                None::<u32>
            },
    {
        match i {
            0 => Some(self.x),
            1 => Some(self.y),
            2 => Some(self.z),
            3 => Some(self.w),
            _ => None,
        }
    }
}

} // verus!
