//! Object transforms and the camera.
use vstd::prelude::*;
use crate::fixed::FX_ONE;
use crate::vector3::{Vector3, v3_add, v3_sub, v3_scale};
use crate::vector::{sat_add, sat_sub, add_sat, sub_sat};
use crate::fixed::{fx_mul_spec, fx_mul};
use crate::matrix4x4::{Angle, Matrix4x4, mat_mul, mat_of, point_at_spec, quick_inverse_spec};
use crate::fixed::clamp_i32;

verus! {

/// Rotation about the x axis by `a`.
pub open spec fn rotation_x_spec(a: Angle) -> Matrix4x4 {
    mat_of([[65536, 0, 0, 0], [0, a.cos, a.sin, 0], [0, clamp_i32(-a.sin) as i32, a.cos, 0], [0, 0, 0, 65536]])
}

/// Rotation about the y axis by `a`.
pub open spec fn rotation_y_spec(a: Angle) -> Matrix4x4 {
    mat_of([[a.cos, 0, clamp_i32(-a.sin) as i32, 0], [0, 65536, 0, 0], [a.sin, 0, a.cos, 0], [0, 0, 0, 65536]])
}

/// Rotation about the z axis by `a`.
pub open spec fn rotation_z_spec(a: Angle) -> Matrix4x4 {
    mat_of([[a.cos, a.sin, 0, 0], [clamp_i32(-a.sin) as i32, a.cos, 0, 0], [0, 0, 65536, 0], [0, 0, 0, 65536]])
}

/// Translation by `to`.
pub open spec fn translation_spec(to: Vector3) -> Matrix4x4 {
    mat_of([[65536, 0, 0, 0], [0, 65536, 0, 0], [0, 0, 65536, 0], [to.x, to.y, to.z, 65536]])
}

/// Pitch (about x), yaw (about y) and roll (about z).
#[derive(Clone, Copy, Debug, PartialEq, Eq, Structural)]
pub struct Rotation {
    pub pitch: Angle,
    pub yaw: Angle,
    pub roll: Angle,
}

/// The placement of an object in the world.
#[derive(Clone, Copy, Debug, PartialEq, Eq, Structural)]
pub struct Object3D {
    pub position: Vector3,
    pub rotation: Rotation,
}

/// The rotation `pitch`, then `yaw`, then `roll`.
pub open spec fn rotation_spec(rot: Rotation) -> Matrix4x4 {
    mat_mul(mat_mul(rotation_x_spec(rot.pitch), rotation_y_spec(rot.yaw)), rotation_z_spec(rot.roll))
}

/// The object-to-world matrix: the rotation, then the translation.
#[verifier::opaque]
pub open spec fn world_spec(obj: Object3D) -> Matrix4x4 {
    mat_mul(rotation_spec(obj.rotation), translation_spec(obj.position))
}

impl Object3D {
    /// At the origin, not rotated.
    pub open spec fn zero_spec() -> Object3D {
        Object3D {
            position: Vector3 { x: 0, y: 0, z: 0 },
            rotation: Rotation {
                pitch: Angle { cos: 65536, sin: 0 },
                yaw: Angle { cos: 65536, sin: 0 },
                roll: Angle { cos: 65536, sin: 0 },
            },
        }
    }

    pub fn new(position: Vector3, rotation: Rotation) -> (r: Self)
        ensures
            r.position == position && r.rotation == rotation,
    {
        Self { position, rotation }
    }

    /// At the origin, not rotated.
    pub fn zero() -> (r: Self)
        ensures
            r == Object3D::zero_spec(),
    {
        Self {
            position: Vector3::zero(),
            rotation: Rotation { pitch: Angle::zero(), yaw: Angle::zero(), roll: Angle::zero() },
        }
    }

    /// Pitch, then yaw, then roll.
    pub fn rotation_matrix(&self) -> (r: Matrix4x4)
        ensures
            r == rotation_spec(self.rotation),
    {
        let rx = Matrix4x4::rotation_x(self.rotation.pitch);
        let ry = Matrix4x4::rotation_y(self.rotation.yaw);
        let rz = Matrix4x4::rotation_z(self.rotation.roll);
        let xy = Matrix4x4::multiply_matrix(&rx, &ry);
        Matrix4x4::multiply_matrix(&xy, &rz)
    }

    /// The object-to-world matrix: the rotation, then the translation to
    /// `position`.
    pub fn transform_matrix(&self) -> (r: Matrix4x4)
        ensures
            r == world_spec(*self),
    {
        let rot = self.rotation_matrix();
        let t = Matrix4x4::translation(self.position);
        let r = Matrix4x4::multiply_matrix(&rot, &t);
        proof {
            reveal(world_spec);
        }
        r
    }
}

/// The direction a camera turned by `yaw` looks along: `(sin, 0, cos)`.
pub open spec fn look_dir_spec(yaw: Angle) -> Vector3 {
    Vector3 { x: yaw.sin, y: 0, z: yaw.cos }
}

/// The world-to-view matrix of a camera at `pos` turned by `yaw`.
pub open spec fn view_spec(pos: Vector3, yaw: Angle) -> Matrix4x4 {
    quick_inverse_spec(
        point_at_spec(pos, v3_add(pos, look_dir_spec(yaw)), Vector3 { x: 0, y: 65536, z: 0 }),
    )
}

/// A camera: a position and a yaw; it looks along `look_dir`.
#[derive(Clone, Copy, Debug)]
pub struct Camera3D {
    pub position: Vector3,
    pub look_dir: Vector3,
    pub yaw: Angle,
}

impl Camera3D {
    /// A camera at `position` looking down `+z`.
    pub fn new(position: Vector3, width: usize, height: usize) -> (r: Self)
        ensures
            r.position == position,
            r.yaw == (Angle { cos: 65536, sin: 0 }),
            r.look_dir == (Vector3 { x: 0, y: 0, z: 65536 }),
    {
        Self { position, look_dir: Vector3::new(0, 0, FX_ONE), yaw: Angle::zero() }
    }

    /// Points `look_dir` along the current yaw.
    pub fn update_look_dir(&mut self)
        ensures
            final(self).look_dir == look_dir_spec(old(self).yaw),
            final(self).position == old(self).position,
            final(self).yaw == old(self).yaw,
    {
        self.look_dir = Vector3::new(self.yaw.sin, 0, self.yaw.cos);
    }

    /// The world-to-view matrix: the inverse of the matrix that places the
    /// camera at its position looking along its yaw, with `+y` up. In view
    /// space the camera looks down `+z`.
    pub fn calc_view(&self) -> (r: Matrix4x4)
        ensures
            r == view_spec(self.position, self.yaw),
    {
        let look_dir = Vector3::new(self.yaw.sin, 0, self.yaw.cos);
        let target = self.position.add(look_dir);
        let up = Vector3::up();
        let cam = Matrix4x4::point_at(self.position, target, up);
        cam.quick_inverse()
    }
}

/// Which movement keys are held this frame.
#[derive(Clone, Copy, Debug, PartialEq, Eq, Structural)]
pub struct CameraInput {
    pub left: bool,
    pub right: bool,
    pub down: bool,
    pub up: bool,
    pub forward: bool,
    pub back: bool,
    pub turn_right: bool,
    pub turn_left: bool,
}

/// `a` turned further by `b` (angle sum), saturated.
pub open spec fn turn_spec(a: Angle, b: Angle) -> Angle {
    Angle {
        cos: sat_sub(fx_mul_spec(a.cos as int, b.cos as int), fx_mul_spec(a.sin as int, b.sin as int)) as i32,
        sin: sat_add(fx_mul_spec(a.sin as int, b.cos as int), fx_mul_spec(a.cos as int, b.sin as int)) as i32,
    }
}

/// `a` turned back by `b` (angle difference), saturated.
pub open spec fn turn_back_spec(a: Angle, b: Angle) -> Angle {
    Angle {
        cos: sat_add(fx_mul_spec(a.cos as int, b.cos as int), fx_mul_spec(a.sin as int, b.sin as int)) as i32,
        sin: sat_sub(fx_mul_spec(a.sin as int, b.cos as int), fx_mul_spec(a.cos as int, b.sin as int)) as i32,
    }
}

/// The camera after one frame of input: strafing left and right along `x`
/// and down and up along `y` by `strafe`, moving along the look direction
/// (as it was at the start of the frame) by `advance` forward or back, then
/// turning right by `turn` and left by `turn`, each turn re-aiming the look
/// direction.
pub open spec fn apply_input_spec(c: Camera3D, i: CameraInput, strafe: int, advance: int, turn: Angle) -> Camera3D {
    let x1 = if i.left { sat_sub(c.position.x as int, strafe) } else { c.position.x as int };
    let x2 = if i.right { sat_add(x1, strafe) } else { x1 };
    let y1 = if i.down { sat_sub(c.position.y as int, strafe) } else { c.position.y as int };
    let y2 = if i.up { sat_add(y1, strafe) } else { y1 };
    let p0 = Vector3 { x: x2 as i32, y: y2 as i32, z: c.position.z };
    let fwd = v3_scale(c.look_dir, advance);
    let p1 = if i.forward { v3_add(p0, fwd) } else { p0 };
    let p2 = if i.back { v3_sub(p1, fwd) } else { p1 };
    let yaw1 = if i.turn_right { turn_spec(c.yaw, turn) } else { c.yaw };
    let yaw2 = if i.turn_left { turn_back_spec(yaw1, turn) } else { yaw1 };
    let look = if i.turn_right || i.turn_left { look_dir_spec(yaw2) } else { c.look_dir };
    Camera3D { position: p2, look_dir: look, yaw: yaw2 }
}

impl Camera3D {
    /// Applies one frame of movement input (see `apply_input_spec`).
    pub fn apply_input(&mut self, input: CameraInput, strafe: i32, advance: i32, turn: Angle)
        ensures
            *final(self) == apply_input_spec(*old(self), input, strafe as int, advance as int, turn),
    {
        if input.left {
            self.position.x = sub_sat(self.position.x, strafe);
        }
        if input.right {
            self.position.x = add_sat(self.position.x, strafe);
        }
        if input.down {
            self.position.y = sub_sat(self.position.y, strafe);
        }
        if input.up {
            self.position.y = add_sat(self.position.y, strafe);
        }
        let forward = self.look_dir.scale(advance);
        if input.forward {
            self.position = self.position.add(forward);
        }
        if input.back {
            self.position = self.position.sub(forward);
        }
        if input.turn_right {
            let (c, s) = (self.yaw.cos, self.yaw.sin);
            self.yaw = Angle {
                cos: sub_sat(fx_mul(c, turn.cos), fx_mul(s, turn.sin)),
                sin: add_sat(fx_mul(s, turn.cos), fx_mul(c, turn.sin)),
            };
            self.update_look_dir();
        }
        if input.turn_left {
            let (c, s) = (self.yaw.cos, self.yaw.sin);
            self.yaw = Angle {
                cos: add_sat(fx_mul(c, turn.cos), fx_mul(s, turn.sin)),
                sin: sub_sat(fx_mul(s, turn.cos), fx_mul(c, turn.sin)),
            };
            self.update_look_dir();
        }
    }
}

} // verus!
