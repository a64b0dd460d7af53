//! Animations, animators, keyframes and animation controllers.

use vstd::prelude::*;

use crate::keyed::KeyedList;
use crate::{Uuid, Vec3};

verus! {

/// Loop behaviour of an animation.
#[derive(Clone, Copy, Debug)]
pub enum LoopMode {
    Once,
    Loop,
    Hold,
}

/// A named animation with animators keyed by the UUID of the animated node.
#[derive(Clone, Debug)]
pub struct Animation {
    pub uuid: Uuid,
    pub name: Option<String>,
    pub loop_mode: LoopMode,
    pub override_: bool,
    /// Length in seconds (bit pattern of an `f32`).
    pub length: u32,
    pub snapping: u32,
    pub selected: bool,
    pub anim_time_update: Option<String>,
    pub blend_weight: Option<String>,
    pub start_delay: Option<String>,
    pub loop_delay: Option<String>,
    /// Animators keyed by the animated node's UUID text.
    pub animators: KeyedList<Animator>,
}

/// The kind of node being animated.
#[derive(Clone, Copy, Debug)]
pub enum AnimatorType {
    Bone,
}

/// Per-bone animation data.
#[derive(Clone, Debug)]
pub struct Animator {
    pub name: Option<String>,
    pub animator_type: Option<AnimatorType>,
    pub keyframes: Vec<Keyframe>,
}

/// Which transform component a keyframe targets.
#[derive(Clone, Copy, Debug)]
pub enum KeyframeChannel {
    Position,
    Rotation,
    Scale,
}

/// Interpolation method between keyframes.
#[derive(Clone, Copy, Debug)]
pub enum Interpolation {
    Linear,
    Step,
    CatmullRom,
    Bezier,
}

/// A single keyframe at a point in time.
#[derive(Clone, Debug)]
pub struct Keyframe {
    pub channel: KeyframeChannel,
    pub uuid: Uuid,
    /// Time in seconds (bit pattern of an `f32`).
    pub time: u32,
    pub color: i32,
    pub interpolation: Interpolation,
    /// One value: continuous; two values: an instant jump.
    pub data_points: Vec<Vec3>,
    pub bezier_linked: Option<bool>,
    pub bezier_left_time: Option<Vec3>,
    pub bezier_left_value: Option<Vec3>,
    pub bezier_right_time: Option<Vec3>,
    pub bezier_right_value: Option<Vec3>,
}

#[verifier::external_type_specification]
#[verifier::external_body]
pub struct ExJsonValue(serde_json::Value);

/// An animation controller (state machine); fields beyond UUID and name are
/// kept as JSON values keyed by their field name.
#[derive(Clone, Debug)]
pub struct AnimationController {
    pub uuid: Option<Uuid>,
    pub name: Option<String>,
    pub extra: KeyedList<serde_json::Value>,
}

} // verus!
