//! Rigid bodies: a shape, a mass class, two contact coefficients and a state.

use vstd::prelude::*;
use crate::vector::Vec3;

verus! {

/// Coefficients are given in thousandths; this is the value that stands for one.
pub const PER_MILLE: u16 = 1000;

/// The outline of a body.
#[derive(Clone, Copy, Debug, PartialEq, Eq, Structural)]
pub enum Shape {
    /// A sphere around the body's position.
    Ball { radius: i32 },
    /// Everything behind the plane through the body's position; `normal` points out of it.
    HalfSpace { normal: Vec3 },
}

/// Whether a body can be moved.
#[derive(Clone, Copy, Debug, PartialEq, Eq, Structural)]
pub enum Mass {
    /// Infinite mass: never integrated, never moved by a contact.
    Static,
    /// Finite mass: integrated under gravity and moved by contacts.
    Dynamic { mass: u16 },
}

/// Why a body descriptor was refused.
#[derive(Clone, Copy, Debug, PartialEq, Eq, Structural)]
pub enum BodyError {
    /// A ball's radius was zero or negative.
    NonPositiveRadius,
    /// A half-space's normal was not a unit vector along one axis.
    NormalNotAxisUnit,
    /// The restitution coefficient was above one thousand.
    RestitutionAboveOne,
    /// The friction coefficient was above one thousand.
    FrictionAboveOne,
    /// A dynamic body's mass was zero.
    ZeroMass,
    /// A half-space was given a finite mass.
    DynamicHalfSpace,
    /// A static body was given a velocity.
    MovingStatic,
    /// A translation left the range of a component.
    OutOfRange,
}

/// A rigid body: what it is, and where it is and how it moves. For a ball the
/// position is its centre, for a half-space a point of its plane.
#[derive(Clone, Copy, Debug, PartialEq, Eq, Structural)]
pub struct RigidBody {
    pub shape: Shape,
    pub mass: Mass,
    /// Share of the closing speed that a contact gives back, in thousandths.
    pub restitution: u16,
    /// Share of the sliding speed that a contact takes away, in thousandths.
    pub friction: u16,
    pub position: Vec3,
    pub velocity: Vec3,
}

impl Shape {
    /// A ball has a positive radius; a half-space has a unit normal along one axis.
    pub open spec fn wf(self) -> bool {
        match self {
            Shape::Ball { radius } => radius > 0,
            Shape::HalfSpace { normal } => normal.is_axis_unit(),
        }
    }
}

impl RigidBody {
    /// The first reason, in a fixed order, for which a body is refused.
    pub open spec fn defect(self) -> Option<BodyError> {
        if self.shape matches Shape::Ball { radius } && radius <= 0 {
            Some(BodyError::NonPositiveRadius)
        } else if self.shape matches Shape::HalfSpace { normal } && !normal.is_axis_unit() {
            Some(BodyError::NormalNotAxisUnit)
        } else if self.restitution > PER_MILLE {
            Some(BodyError::RestitutionAboveOne)
        } else if self.friction > PER_MILLE {
            Some(BodyError::FrictionAboveOne)
        } else if self.mass matches Mass::Dynamic { mass } && mass == 0 {
            Some(BodyError::ZeroMass)
        } else if self.mass is Dynamic && self.shape is HalfSpace {
            Some(BodyError::DynamicHalfSpace)
        } else if self.mass is Static && self.velocity != (Vec3 { x: 0, y: 0, z: 0 }) {
            Some(BodyError::MovingStatic)
        } else {
            None
        }
    }

    /// A body that the physics world accepts.
    pub open spec fn wf(self) -> bool {
        &&& self.shape.wf()
        &&& self.restitution <= PER_MILLE
        &&& self.friction <= PER_MILLE
        &&& self.mass matches Mass::Dynamic { mass } ==> mass > 0 && self.shape is Ball
        &&& self.mass is Static ==> self.velocity == (Vec3 { x: 0, y: 0, z: 0 })
    }

    /// Whether the body has a finite mass.
    pub open spec fn is_dynamic(self) -> bool {
        self.mass is Dynamic
    }

    /// Whether the body has infinite mass.
    pub open spec fn is_static(self) -> bool {
        self.mass is Static
    }

    /// A body is well formed exactly where it has no defect.
    pub proof fn lemma_defect_none_iff_wf(self)
        ensures
            self.defect() is None <==> self.wf(),
    {
    }

    /// Checks a body and names the first defect found.
    pub fn validate(&self) -> (r: Result<(), BodyError>)
        ensures
            r is Ok <==> self.wf(),
            r matches Err(e) ==> self.defect() == Some(e),
    {
        match self.shape {
            Shape::Ball { radius } => {
                if radius <= 0 {
                    return Err(BodyError::NonPositiveRadius);
                }
            },
            Shape::HalfSpace { normal } => {
                if !normal.check_axis_unit() {
                    return Err(BodyError::NormalNotAxisUnit);
                }
            },
        }
        if self.restitution > PER_MILLE {
            return Err(BodyError::RestitutionAboveOne);
        }
        if self.friction > PER_MILLE {
            return Err(BodyError::FrictionAboveOne);
        }
        match self.mass {
            Mass::Dynamic { mass } => {
                if mass == 0 {
                    return Err(BodyError::ZeroMass);
                }
                match self.shape {
                    Shape::HalfSpace { .. } => {
                        return Err(BodyError::DynamicHalfSpace);
                    },
                    Shape::Ball { .. } => {},
                }
            },
            Mass::Static => {
                if self.velocity.x != 0 || self.velocity.y != 0 || self.velocity.z != 0 {
                    return Err(BodyError::MovingStatic);
                }
            },
        }
        Ok(())
    }

    /// An immovable body at the origin.
    pub fn new_static(shape: Shape, restitution: u16, friction: u16) -> (r: Result<
        RigidBody,
        BodyError,
    >)
        ensures
            r == Self::checked(
                RigidBody {
                    shape,
                    mass: Mass::Static,
                    restitution,
                    friction,
                    position: Vec3 { x: 0, y: 0, z: 0 },
                    velocity: Vec3 { x: 0, y: 0, z: 0 },
                },
            ),
    {
        let body = RigidBody {
            shape,
            mass: Mass::Static,
            restitution,
            friction,
            position: Vec3::zero(),
            velocity: Vec3::zero(),
        };
        match body.validate() {
            Ok(()) => Ok(body),
            Err(e) => Err(e),
        }
    }

    /// A movable body at rest at the origin.
    pub fn new_dynamic(shape: Shape, mass: u16, restitution: u16, friction: u16) -> (r: Result<
        RigidBody,
        BodyError,
    >)
        ensures
            r == Self::checked(
                RigidBody {
                    shape,
                    mass: Mass::Dynamic { mass },
                    restitution,
                    friction,
                    position: Vec3 { x: 0, y: 0, z: 0 },
                    velocity: Vec3 { x: 0, y: 0, z: 0 },
                },
            ),
    {
        let body = RigidBody {
            shape,
            mass: Mass::Dynamic { mass },
            restitution,
            friction,
            position: Vec3::zero(),
            velocity: Vec3::zero(),
        };
        match body.validate() {
            Ok(()) => Ok(body),
            Err(e) => Err(e),
        }
    }

    /// The body itself where it has no defect, else its first defect.
    pub open spec fn checked(body: RigidBody) -> Result<RigidBody, BodyError> {
        match body.defect() {
            None => Ok(body),
            Some(e) => Err(e),
        }
    }

    /// Moves the body by `t`. Where a component would leave its range the body stays as it is.
    pub fn append_translation(&mut self, t: &Vec3) -> (r: Result<(), BodyError>)
        ensures
            match old(self).position.plus(*t) {
                Some(p) => r is Ok && *final(self) == (RigidBody { position: p, ..*old(self) }),
                None => r == Err::<(), BodyError>(BodyError::OutOfRange) && *final(self) == *old(self),
            },
    {
        match self.position.checked_add(t) {
            Some(p) => {
                self.position = p;
                Ok(())
            },
            None => Err(BodyError::OutOfRange),
        }
    }
}

} // verus!
