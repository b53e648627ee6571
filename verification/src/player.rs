//! The per-frame motion resolver: pointer rotation, WASD-style planar
//! movement, collision resolution against the level's segments, head bob,
//! and the two-mode interaction machine (free walking versus inspecting a
//! text panel).
//!
//! The camera orientation is carried as a look direction vector rather than
//! yaw/pitch angles; the frame input delivers the sine and cosine of the
//! frame's yaw and pitch deltas as fixed-point values, and the resolver
//! applies them as exact integer rotations. Guards that reject a rotation
//! leaving the camera too close to vertical play the role the epsilon
//! snapping of angles plays in an angle representation.

use vstd::prelude::*;

use crate::collide::{resolve_rec, resolve_position, wf_collider, LineCollider};
use crate::fixed::{
    abs_i64, clamp_i64, clamp_spec, div_tz, div_tz_spec, isqrt, lemma_div_tz_exact,
    lemma_div_tz_mag, lemma_mul_mag, lemma_sqrt_floor_ge, lemma_sqrt_floor_le,
    lemma_square_nonneg, mag, sqrt_floor, DIR_LIMIT, DRIFT_LIMIT, EYE_LIMIT, MIN_PLANAR, SCALE,
    SPEED_LIMIT, WORLD_LIMIT,
};
use crate::vec2::{in_box2, in_box3, planar, sq_dist2, Vec2, Vec3};

verus! {

/// Camera height above the ground plane, fixed-point.
pub const PLAYER_HEIGHT: i64 = 1600;

/// Default collision radius of the player, fixed-point.
pub const PLAYER_RADIUS: i64 = 320;

/// Amplitude of the head bob, fixed-point.
pub const BOB_AMOUNT: i64 = 50;

/// Bob offsets smaller than this no longer decay when standing still.
pub const BOB_SETTLE: i64 = 10;

/// Largest per-frame bob increment.
pub const BOB_STEP_LIMIT: i64 = 100;

/// Largest bob offset the update can produce.
pub const BOB_LIMIT: i64 = BOB_AMOUNT + BOB_STEP_LIMIT;

/// What happens when a point of interest is activated.
#[derive(Clone, Copy, PartialEq, Eq, Debug)]
pub enum InteractableAction {
    /// Open a text panel and lock the camera onto the panel's inspection
    /// pose until the panel is closed.
    Tombstone { text: u64, view_eye: Vec3, view_target: Vec3 },
    /// Play an audio clip (or pause it when it is already the one playing).
    Audio { source: u64 },
    /// Show a hint only.
    Tooltip { tip: u64 },
}

/// A point of interest with a trigger radius and an action.
#[derive(Clone, Copy, PartialEq, Eq, Debug)]
pub struct Interactable {
    pub point: Vec2,
    pub radius: i64,
    pub action: InteractableAction,
}

/// The player's camera and mode record, owned by the resolver.
#[derive(Clone, Copy, PartialEq, Eq, Debug)]
pub struct PlayerState {
    /// Camera position.
    pub eye: Vec3,
    /// The point the camera faces.
    pub target: Vec3,
    /// Camera position as committed by the latest free-mode frame; restored
    /// verbatim when an inspection ends.
    pub old_eye: Vec3,
    /// Look target companion of `old_eye`.
    pub old_target: Vec3,
    /// The text panel being inspected; `None` while walking freely.
    pub viewed_text: Option<u64>,
    /// The audio clip last started, if any.
    pub playing_audio: Option<u64>,
    /// Head-bob offset currently applied to the camera height.
    pub cam_height: i64,
    /// Whether the bob is travelling up or down.
    pub bob_up: bool,
    /// Collision radius.
    pub radius: i64,
}

/// One frame's input snapshot, read before the step and applied whole.
/// The rotation of the pointer motion arrives as the fixed-point sine and
/// cosine of the accumulated yaw and pitch deltas (already scaled by the
/// sensitivity and the elapsed time); no pointer motion is `(0, SCALE)` on
/// both axes. `speed` and `bob_step` are likewise per-frame steps already
/// scaled by the elapsed time.
#[derive(Clone, Copy, PartialEq, Eq, Debug)]
pub struct FrameInput {
    pub yaw_sin: i64,
    pub yaw_cos: i64,
    pub pitch_sin: i64,
    pub pitch_cos: i64,
    pub forward: bool,
    pub back: bool,
    pub left: bool,
    pub right: bool,
    /// Edge-triggered: the interact key was released during this frame.
    pub interact_released: bool,
    /// Planar movement step for this frame, fixed-point.
    pub speed: i64,
    /// Bob increment for this frame, fixed-point.
    pub bob_step: i64,
    /// Whether the clip named by `playing_audio` is currently paused.
    pub audio_paused: bool,
}

/// What the frame asks the host to do besides moving the camera.
#[derive(Clone, Copy, PartialEq, Eq, Debug)]
pub enum PromptLabel {
    Read,
    PlayAudio,
    PauseAudio,
    Tooltip { tip: u64 },
}

/// An audio request fired by an interaction.
#[derive(Clone, Copy, PartialEq, Eq, Debug)]
pub enum AudioCommand {
    /// Toggle the clip already playing between paused and playing.
    Toggle,
    /// Start `source`, stopping `stop` first when one was playing.
    Play { source: u64, stop: Option<u64> },
}

/// Everything a frame reports back to the host besides the camera.
#[derive(Clone, Copy, PartialEq, Eq, Debug)]
pub struct FrameOutput {
    /// Prompt to show next to the interactable in range, if any.
    pub prompt: Option<PromptLabel>,
    /// Whether the inspection-mode exit prompt is visible.
    pub exit_prompt: bool,
    /// Text panel to make visible.
    pub show_text: Option<u64>,
    /// Text panel to hide.
    pub hide_text: Option<u64>,
    /// Audio request fired this frame.
    pub audio: Option<AudioCommand>,
}

/// A look direction is well formed when its components are in range and its
/// planar part is long enough that yaw stays meaningful.
pub open spec fn wf_dir(d: Vec3) -> bool {
    &&& in_box3(d, DIR_LIMIT as int)
    &&& d.x * d.x + d.z * d.z >= MIN_PLANAR * MIN_PLANAR
}

/// The look direction from an eye/target pair.
pub open spec fn pose_dir(eye: Vec3, target: Vec3) -> Vec3 {
    Vec3 {
        x: (target.x - eye.x) as i64,
        y: (target.y - eye.y) as i64,
        z: (target.z - eye.z) as i64,
    }
}

/// A camera pose is well formed when its positions are in range and its look
/// direction is well formed.
pub open spec fn wf_pose(eye: Vec3, target: Vec3) -> bool {
    &&& in_box3(eye, EYE_LIMIT as int)
    &&& in_box3(target, EYE_LIMIT + DIR_LIMIT as int)
    &&& wf_dir(pose_dir(eye, target))
}

/// The player record's invariant: both the live pose and the saved pose are
/// well formed, the bob offset is in range, and the camera height agrees
/// with the bob offset (on the saved pose while inspecting, since the live
/// pose is then the panel's inspection pose).
pub open spec fn wf_player(p: PlayerState) -> bool {
    &&& wf_pose(p.eye, p.target)
    &&& wf_pose(p.old_eye, p.old_target)
    &&& mag(p.cam_height as int) <= BOB_LIMIT
    &&& 0 <= p.radius <= WORLD_LIMIT
    &&& (p.viewed_text is None ==> p.eye.y == PLAYER_HEIGHT + p.cam_height)
    &&& (p.viewed_text is Some ==> p.old_eye.y == PLAYER_HEIGHT + p.cam_height)
}

/// An interactable is well formed when its trigger is in level range and, for
/// a panel, its inspection pose is a well-formed camera pose.
pub open spec fn wf_interactable(it: Interactable) -> bool {
    &&& in_box2(it.point, WORLD_LIMIT as int)
    &&& 0 <= it.radius <= WORLD_LIMIT
    &&& match it.action {
        InteractableAction::Tombstone { text, view_eye, view_target } => wf_pose(
            view_eye,
            view_target,
        ),
        InteractableAction::Audio { source } => true,
        InteractableAction::Tooltip { tip } => true,
    }
}

/// Frame input is well formed when the rotation values are genuine
/// fixed-point sines and cosines by magnitude and the step sizes are in
/// range.
pub open spec fn wf_input(inp: FrameInput) -> bool {
    &&& mag(inp.yaw_sin as int) <= SCALE
    &&& mag(inp.yaw_cos as int) <= SCALE
    &&& mag(inp.pitch_sin as int) <= SCALE
    &&& mag(inp.pitch_cos as int) <= SCALE
    &&& 0 <= inp.speed <= SPEED_LIMIT
    &&& 0 <= inp.bob_step <= BOB_STEP_LIMIT
}

/// The input of a frame without pointer motion: the identity rotation.
pub open spec fn zero_rotation(inp: FrameInput) -> bool {
    &&& inp.yaw_sin == 0
    &&& inp.yaw_cos == SCALE
    &&& inp.pitch_sin == 0
    &&& inp.pitch_cos == SCALE
}

/// No movement key is held.
pub open spec fn no_keys(inp: FrameInput) -> bool {
    !inp.forward && !inp.back && !inp.left && !inp.right
}

/// The look direction after the yaw rotation: the planar components turned
/// by the angle whose fixed-point sine and cosine are given.
pub open spec fn yaw_rotated(d: Vec3, s: int, c: int) -> Vec3 {
    Vec3 {
        x: div_tz_spec(d.x * c - d.z * s, SCALE as int) as i64,
        y: d.y,
        z: div_tz_spec(d.x * s + d.z * c, SCALE as int) as i64,
    }
}

/// The look direction after the pitch rotation: the (planar length, height)
/// pair is turned, the planar components rescaled to the new planar length.
/// A rotation that would shrink the planar length under [`MIN_PLANAR`] is
/// clamped there (the camera never looks straight up or down), and a
/// direction whose planar part has vanished is left unchanged.
pub open spec fn pitch_rotated(d: Vec3, s: int, c: int) -> Vec3 {
    let h = sqrt_floor((d.x * d.x + d.z * d.z) as nat) as int;
    if h == 0 {
        d
    } else {
        let h2 = div_tz_spec(h * c - d.y * s, SCALE as int);
        let y2 = div_tz_spec(h * s + d.y * c, SCALE as int);
        let hc: int = if h2 < MIN_PLANAR {
            MIN_PLANAR as int
        } else {
            h2
        };
        Vec3 {
            x: div_tz_spec(d.x * hc, h) as i64,
            y: y2 as i64,
            z: div_tz_spec(d.z * hc, h) as i64,
        }
    }
}

/// The frame's whole look rotation: yaw, then pitch, then the guards that
/// keep the direction well formed — a rotation that leaves the range of a
/// direction component is rejected, and one that leaves the planar part
/// degenerate keeps the previous planar direction.
pub open spec fn rotated_dir(d: Vec3, inp: FrameInput) -> Vec3 {
    let r = pitch_rotated(
        yaw_rotated(d, inp.yaw_sin as int, inp.yaw_cos as int),
        inp.pitch_sin as int,
        inp.pitch_cos as int,
    );
    if !in_box3(r, DIR_LIMIT as int) {
        d
    } else if r.x * r.x + r.z * r.z < MIN_PLANAR * MIN_PLANAR {
        Vec3 { x: d.x, y: r.y, z: d.z }
    } else {
        r
    }
}

/// The guarded rotation preserves a direction's well-formedness.
pub proof fn lemma_rotated_dir_wf(d: Vec3, inp: FrameInput)
    requires
        wf_dir(d),
    ensures
        wf_dir(rotated_dir(d, inp)),
{
    let r = pitch_rotated(
        yaw_rotated(d, inp.yaw_sin as int, inp.yaw_cos as int),
        inp.pitch_sin as int,
        inp.pitch_cos as int,
    );
    if in_box3(r, DIR_LIMIT as int) && r.x * r.x + r.z * r.z < MIN_PLANAR * MIN_PLANAR {
        let g = Vec3 { x: d.x, y: r.y, z: d.z };
        assert(g.x * g.x + g.z * g.z >= MIN_PLANAR * MIN_PLANAR);
    }
}

/// With the identity rotation on both axes, the guarded rotation is exactly
/// the identity.
pub proof fn lemma_rotated_dir_identity(d: Vec3, inp: FrameInput)
    requires
        wf_dir(d),
        zero_rotation(inp),
    ensures
        rotated_dir(d, inp) == d,
{
    lemma_div_tz_exact(d.x as int, SCALE as int);
    lemma_div_tz_exact(d.z as int, SCALE as int);
    lemma_div_tz_exact(d.y as int, SCALE as int);
    let e = yaw_rotated(d, 0, SCALE as int);
    assert(d.x * (SCALE as int) - d.z * 0 == d.x * (SCALE as int)) by (nonlinear_arith);
    assert(d.x * 0 + d.z * (SCALE as int) == d.z * (SCALE as int)) by (nonlinear_arith);
    assert(e == d);
    let n = (d.x * d.x + d.z * d.z) as nat;
    let h = sqrt_floor(n) as int;
    lemma_sqrt_floor_ge(n, MIN_PLANAR as nat);
    assert(h >= MIN_PLANAR);
    assert(h * (SCALE as int) - d.y * 0 == h * (SCALE as int)) by (nonlinear_arith);
    assert(h * 0 + d.y * (SCALE as int) == d.y * (SCALE as int)) by (nonlinear_arith);
    lemma_div_tz_exact(h, SCALE as int);
    let r = pitch_rotated(e, 0, SCALE as int);
    lemma_div_tz_exact(d.x as int, h);
    lemma_div_tz_exact(d.z as int, h);
    assert(d.x * h == (d.x as int) * h) by (nonlinear_arith);
    assert(r == d);
    assert(d.x * d.x + d.z * d.z >= MIN_PLANAR * MIN_PLANAR);
}

/// The planar movement vector from the key state: left/right along the side
/// axis, forward/back along the look axis, each one speed step. Opposite
/// keys cancel.
pub open spec fn movement_vec(inp: FrameInput) -> (int, int) {
    (
        (if inp.left {
            inp.speed as int
        } else {
            0
        }) - (if inp.right {
            inp.speed as int
        } else {
            0
        }),
        (if inp.forward {
            inp.speed as int
        } else {
            0
        }) - (if inp.back {
            inp.speed as int
        } else {
            0
        }),
    )
}

/// Whether the frame moves at all; collision resolution and head bob only
/// run on moving frames.
pub open spec fn is_moving(inp: FrameInput) -> bool {
    movement_vec(inp).0 != 0 || movement_vec(inp).1 != 0
}

/// The planar length of the movement vector: the frame's true step size
/// (diagonal movement is longer than a single-axis step), which is also the
/// push-back amount of the collision resolution.
pub open spec fn step_length(inp: FrameInput) -> int {
    let (mx, my) = movement_vec(inp);
    sqrt_floor((mx * mx + my * my) as nat) as int
}

/// The step length of a frame is at most twice its speed step.
pub proof fn lemma_step_length_bound(inp: FrameInput)
    requires
        wf_input(inp),
    ensures
        0 <= step_length(inp) <= 2 * inp.speed,
{
    let (mx, my) = movement_vec(inp);
    lemma_square_nonneg(mx);
    lemma_square_nonneg(my);
    lemma_mul_mag(mx, mx, inp.speed as int, inp.speed as int);
    lemma_mul_mag(my, my, inp.speed as int, inp.speed as int);
    let m: nat = (2 * inp.speed) as nat;
    assert(mx * mx + my * my <= m * m) by (nonlinear_arith)
        requires
            inp.speed >= 0,
            m == 2 * inp.speed,
            mx * mx <= inp.speed * inp.speed,
            my * my <= inp.speed * inp.speed,
    ;
    lemma_sqrt_floor_le((mx * mx + my * my) as nat, m);
}

/// The unit forward direction in the plane, fixed-point: the planar part of
/// the look direction divided by its length (rounded down).
pub open spec fn planar_forward(d: Vec3) -> Vec2 {
    let h = sqrt_floor((d.x * d.x + d.z * d.z) as nat) as int;
    Vec2 {
        x: div_tz_spec(d.x * (SCALE as int), h) as i64,
        z: div_tz_spec(d.z * (SCALE as int), h) as i64,
    }
}

/// The planar direction a quarter turn from forward, spanning the movement
/// basis with it.
pub open spec fn right_of(f: Vec2) -> Vec2 {
    Vec2 { x: f.z, z: (-f.x) as i64 }
}

/// The candidate camera position before collision: the eye displaced in the
/// plane along the movement basis of the (pre-rotation) look direction.
pub open spec fn candidate_pos(eye: Vec3, d: Vec3, inp: FrameInput) -> Vec2 {
    let f = planar_forward(d);
    let r = right_of(f);
    let (mx, my) = movement_vec(inp);
    Vec2 {
        x: (eye.x + div_tz_spec(mx * r.x + my * f.x, SCALE as int)) as i64,
        z: (eye.z + div_tz_spec(mx * r.z + my * f.z, SCALE as int)) as i64,
    }
}

/// The head-bob update. While moving, the offset travels between the two
/// amplitudes, turning at each; standing still, it decays toward zero and
/// freezes once inside the settle band.
pub open spec fn bob_update(cam: int, up: bool, moving: bool, step: int) -> (int, bool) {
    if moving {
        if up {
            if cam >= BOB_AMOUNT {
                (cam, false)
            } else {
                (cam + step, true)
            }
        } else {
            if cam <= -BOB_AMOUNT {
                (cam, true)
            } else {
                (cam - step, false)
            }
        }
    } else {
        if mag(cam) >= BOB_SETTLE {
            if cam > 0 {
                (cam - step, up)
            } else {
                (cam + step, up)
            }
        } else {
            (cam, up)
        }
    }
}

/// The bob offset stays within its range.
pub proof fn lemma_bob_bounds(cam: int, up: bool, moving: bool, step: int)
    requires
        mag(cam) <= BOB_LIMIT,
        0 <= step <= BOB_STEP_LIMIT,
    ensures
        mag(bob_update(cam, up, moving, step).0) <= BOB_LIMIT,
{
}

/// Whether a point lies strictly inside an interactable's trigger radius.
pub open spec fn in_trigger(it: Interactable, p: Vec2) -> bool {
    sq_dist2(it.point, p) < it.radius * it.radius
}

/// The first interactable, in order, whose trigger contains the point.
pub open spec fn first_triggered(inters: Seq<Interactable>, p: Vec2) -> Option<int>
    decreases inters.len(),
{
    if inters.len() == 0 {
        None
    } else if in_trigger(inters[0], p) {
        Some(0int)
    } else {
        match first_triggered(inters.drop_first(), p) {
            Some(i) => Some(i + 1),
            None => None,
        }
    }
}

/// Characterisation of [`first_triggered`]: `None` means nothing is in
/// range; `Some(i)` names the least index in range.
pub proof fn lemma_first_triggered(inters: Seq<Interactable>, p: Vec2)
    ensures
        match first_triggered(inters, p) {
            None => forall|k: int| 0 <= k < inters.len() ==> !in_trigger(#[trigger] inters[k], p),
            Some(i) => 0 <= i < inters.len() && in_trigger(inters[i], p) && forall|k: int|
                0 <= k < i ==> !in_trigger(#[trigger] inters[k], p),
        },
    decreases inters.len(),
{
    if inters.len() > 0 && !in_trigger(inters[0], p) {
        lemma_first_triggered(inters.drop_first(), p);
        assert(forall|k: int|
            1 <= k < inters.len() ==> #[trigger] inters[k] == inters.drop_first()[k - 1]);
    }
}

/// The least index in range is what [`first_triggered`] returns.
pub proof fn lemma_first_triggered_at(inters: Seq<Interactable>, p: Vec2, i: int)
    requires
        0 <= i < inters.len(),
        in_trigger(inters[i], p),
        forall|k: int| 0 <= k < i ==> !in_trigger(#[trigger] inters[k], p),
    ensures
        first_triggered(inters, p) == Some(i),
    decreases i,
{
    if i > 0 {
        assert(forall|k: int|
            1 <= k < inters.len() ==> #[trigger] inters.drop_first()[k - 1] == inters[k]);
        lemma_first_triggered_at(inters.drop_first(), p, i - 1);
    }
}

/// A frame output asking for nothing.
pub open spec fn quiet_output() -> FrameOutput {
    FrameOutput { prompt: None, exit_prompt: false, show_text: None, hide_text: None, audio: None }
}

/// The prompt shown next to an interactable in range: what activating it
/// would do, with the audio prompt reflecting whether its clip is the one
/// playing right now.
pub open spec fn prompt_label(a: InteractableAction, playing: Option<u64>, paused: bool) -> PromptLabel {
    match a {
        InteractableAction::Tombstone { text, view_eye, view_target } => PromptLabel::Read,
        InteractableAction::Audio { source } => if playing == Some(source) && !paused {
            PromptLabel::PauseAudio
        } else {
            PromptLabel::PlayAudio
        },
        InteractableAction::Tooltip { tip } => PromptLabel::Tooltip { tip },
    }
}

/// The free-mode motion of one frame, before interaction handling: rotate
/// the look direction, displace the eye along the movement basis of the old
/// direction, resolve the result against the collision segments (only when
/// moving, as a still frame cannot have entered a wall), update the bob,
/// commit the new pose and save it as the pose an inspection would restore.
/// The camera height is the player height plus the bob offset; the committed
/// planar position is clamped into camera range.
pub open spec fn committed_player(p: PlayerState, inp: FrameInput, segs: Seq<LineCollider>) -> PlayerState {
    let dir0 = pose_dir(p.eye, p.target);
    let dir1 = rotated_dir(dir0, inp);
    let cand = candidate_pos(p.eye, dir0, inp);
    let resolved = if is_moving(inp) {
        resolve_rec(segs, cand, step_length(inp), p.radius as int)
    } else {
        cand
    };
    let b = bob_update(p.cam_height as int, p.bob_up, is_moving(inp), inp.bob_step as int);
    let eye = Vec3 {
        x: clamp_spec(resolved.x as int, EYE_LIMIT as int) as i64,
        y: (PLAYER_HEIGHT + b.0) as i64,
        z: clamp_spec(resolved.z as int, EYE_LIMIT as int) as i64,
    };
    let target = Vec3 {
        x: (eye.x + dir1.x) as i64,
        y: (eye.y + dir1.y) as i64,
        z: (eye.z + dir1.z) as i64,
    };
    PlayerState {
        eye,
        target,
        old_eye: eye,
        old_target: target,
        cam_height: b.0 as i64,
        bob_up: b.1,
        ..p
    }
}

/// One free-mode frame: motion first, then the interactable nearest in order
/// is either activated (on the edge-triggered interact key) or announced by
/// a prompt. Activating a panel saves nothing further — the pose committed
/// by this very frame is what leaving the panel will restore — and locks the
/// camera onto the panel's inspection pose. Activating audio toggles the
/// clip already playing, or stops it and starts the new one.
pub open spec fn free_step(
    p: PlayerState,
    inp: FrameInput,
    segs: Seq<LineCollider>,
    inters: Seq<Interactable>,
) -> (PlayerState, FrameOutput) {
    let c = committed_player(p, inp, segs);
    let pos = planar(c.eye);
    match first_triggered(inters, pos) {
        None => (c, quiet_output()),
        Some(i) => {
            let it = inters[i];
            if inp.interact_released {
                match it.action {
                    InteractableAction::Tombstone { text, view_eye, view_target } => (
                        PlayerState {
                            eye: view_eye,
                            target: view_target,
                            viewed_text: Some(text),
                            ..c
                        },
                        FrameOutput { show_text: Some(text), ..quiet_output() },
                    ),
                    InteractableAction::Audio { source } => {
                        if c.playing_audio == Some(source) {
                            (c, FrameOutput { audio: Some(AudioCommand::Toggle), ..quiet_output() })
                        } else {
                            (
                                PlayerState { playing_audio: Some(source), ..c },
                                FrameOutput {
                                    audio: Some(
                                        AudioCommand::Play { source, stop: c.playing_audio },
                                    ),
                                    ..quiet_output()
                                },
                            )
                        }
                    },
                    InteractableAction::Tooltip { tip } => (c, quiet_output()),
                }
            } else {
                (
                    c,
                    FrameOutput {
                        prompt: Some(prompt_label(it.action, c.playing_audio, inp.audio_paused)),
                        ..quiet_output()
                    },
                )
            }
        },
    }
}

/// One whole frame of the motion resolver. While a panel is being inspected
/// the camera is locked: the frame only offers the exit prompt, and the
/// edge-triggered interact key closes the panel and restores the saved pose
/// verbatim. Otherwise the frame is a free-mode step.
pub open spec fn frame_step(
    p: PlayerState,
    inp: FrameInput,
    segs: Seq<LineCollider>,
    inters: Seq<Interactable>,
) -> (PlayerState, FrameOutput) {
    match p.viewed_text {
        Some(txt) => {
            if inp.interact_released {
                (
                    PlayerState {
                        eye: p.old_eye,
                        target: p.old_target,
                        viewed_text: None,
                        ..p
                    },
                    FrameOutput { hide_text: Some(txt), ..quiet_output() },
                )
            } else {
                (p, FrameOutput { exit_prompt: true, ..quiet_output() })
            }
        },
        None => free_step(p, inp, segs, inters),
    }
}

/// The committed pose of a free-mode frame is well formed.
pub proof fn lemma_committed_wf(p: PlayerState, inp: FrameInput, segs: Seq<LineCollider>)
    requires
        wf_player(p),
        wf_input(inp),
        p.viewed_text is None,
    ensures
        wf_player(committed_player(p, inp, segs)),
        committed_player(p, inp, segs).viewed_text is None,
        committed_player(p, inp, segs).playing_audio == p.playing_audio,
        committed_player(p, inp, segs).radius == p.radius,
        committed_player(p, inp, segs).old_eye == committed_player(p, inp, segs).eye,
        committed_player(p, inp, segs).old_target == committed_player(p, inp, segs).target,
        committed_player(p, inp, segs).eye.y == PLAYER_HEIGHT + committed_player(
            p,
            inp,
            segs,
        ).cam_height,
{
    let dir0 = pose_dir(p.eye, p.target);
    let dir1 = rotated_dir(dir0, inp);
    lemma_rotated_dir_wf(dir0, inp);
    lemma_bob_bounds(p.cam_height as int, p.bob_up, is_moving(inp), inp.bob_step as int);
    let c = committed_player(p, inp, segs);
    assert(pose_dir(c.eye, c.target) == dir1);
}

/// A full frame preserves the player invariant.
pub proof fn lemma_frame_step_wf(
    p: PlayerState,
    inp: FrameInput,
    segs: Seq<LineCollider>,
    inters: Seq<Interactable>,
)
    requires
        wf_player(p),
        wf_input(inp),
        forall|i: int| 0 <= i < inters.len() ==> wf_interactable(#[trigger] inters[i]),
    ensures
        wf_player(frame_step(p, inp, segs, inters).0),
{
    if p.viewed_text is None {
        lemma_committed_wf(p, inp, segs);
        let c = committed_player(p, inp, segs);
        lemma_first_triggered(inters, planar(c.eye));
    }
}

/// With no pointer motion and no movement keys, the free-mode motion commits
/// the camera exactly where it was (requiring the bob offset to have settled,
/// since a larger one still decays).
pub proof fn lemma_idle_commit(p: PlayerState, inp: FrameInput, segs: Seq<LineCollider>)
    requires
        wf_player(p),
        wf_input(inp),
        p.viewed_text is None,
        zero_rotation(inp),
        no_keys(inp),
        mag(p.cam_height as int) < BOB_SETTLE,
    ensures
        committed_player(p, inp, segs) == (PlayerState {
            old_eye: p.eye,
            old_target: p.target,
            ..p
        }),
{
    let dir0 = pose_dir(p.eye, p.target);
    lemma_rotated_dir_identity(dir0, inp);
    let f = planar_forward(dir0);
    let r = right_of(f);
    let mv = movement_vec(inp);
    assert(mv.0 == 0 && mv.1 == 0);
    assert(mv.0 * r.x + mv.1 * f.x == 0) by (nonlinear_arith)
        requires
            mv.0 == 0,
            mv.1 == 0,
    ;
    assert(mv.0 * r.z + mv.1 * f.z == 0) by (nonlinear_arith)
        requires
            mv.0 == 0,
            mv.1 == 0,
    ;
    assert(div_tz_spec(0, SCALE as int) == 0);
    let c = committed_player(p, inp, segs);
    assert(c.eye == p.eye);
    assert(c.target == p.target);
}

/// With no pointer motion, no movement keys, a settled bob and nothing
/// interactable in range, a frame leaves the camera exactly where it was.
pub proof fn lemma_idle_frame(
    p: PlayerState,
    inp: FrameInput,
    segs: Seq<LineCollider>,
    inters: Seq<Interactable>,
)
    requires
        wf_player(p),
        wf_input(inp),
        p.viewed_text is None,
        zero_rotation(inp),
        no_keys(inp),
        mag(p.cam_height as int) < BOB_SETTLE,
        first_triggered(inters, planar(p.eye)) is None,
    ensures
        frame_step(p, inp, segs, inters).0.eye == p.eye,
        frame_step(p, inp, segs, inters).0.target == p.target,
        frame_step(p, inp, segs, inters).0.viewed_text == p.viewed_text,
{
    lemma_idle_commit(p, inp, segs);
}

/// Leaving the inspection mode restores the saved camera pose verbatim.
pub proof fn lemma_viewing_exit(
    p: PlayerState,
    inp: FrameInput,
    segs: Seq<LineCollider>,
    inters: Seq<Interactable>,
)
    requires
        p.viewed_text is Some,
        inp.interact_released,
    ensures
        frame_step(p, inp, segs, inters).0.eye == p.old_eye,
        frame_step(p, inp, segs, inters).0.target == p.old_target,
        frame_step(p, inp, segs, inters).0.viewed_text is None,
{
}

/// Entering the inspection mode from rest and leaving it again restores the
/// camera to its exact pre-entry position and look target: the entering
/// frame saves both verbatim, the panel locks the camera, and the leaving
/// frame restores the saved pair bit for bit.
pub proof fn lemma_viewing_round_trip(
    p: PlayerState,
    inp1: FrameInput,
    inp2: FrameInput,
    segs: Seq<LineCollider>,
    inters: Seq<Interactable>,
)
    requires
        wf_player(p),
        wf_input(inp1),
        p.viewed_text is None,
        zero_rotation(inp1),
        no_keys(inp1),
        mag(p.cam_height as int) < BOB_SETTLE,
        inp1.interact_released,
        ({
            let t = first_triggered(inters, planar(p.eye));
            t is Some && (inters[t->Some_0].action is Tombstone)
        }),
        inp2.interact_released,
    ensures
        frame_step(p, inp1, segs, inters).0.viewed_text is Some,
        ({
            let once = frame_step(p, inp1, segs, inters).0;
            let twice = frame_step(once, inp2, segs, inters).0;
            twice.eye == p.eye && twice.target == p.target && twice.viewed_text is None
        }),
{
    lemma_idle_commit(p, inp1, segs);
}

/// Executable pose validation; see [`wf_pose`].
pub fn pose_valid(eye: Vec3, target: Vec3) -> (b: bool)
    ensures
        b == wf_pose(eye, target),
{
    if eye.x > EYE_LIMIT || eye.x < -EYE_LIMIT || eye.y > EYE_LIMIT || eye.y < -EYE_LIMIT || eye.z
        > EYE_LIMIT || eye.z < -EYE_LIMIT {
        return false;
    }
    let tl = EYE_LIMIT + DIR_LIMIT;
    if target.x > tl || target.x < -tl || target.y > tl || target.y < -tl || target.z > tl
        || target.z < -tl {
        return false;
    }
    let dx = target.x - eye.x;
    let dy = target.y - eye.y;
    let dz = target.z - eye.z;
    if dx > DIR_LIMIT || dx < -DIR_LIMIT || dy > DIR_LIMIT || dy < -DIR_LIMIT || dz > DIR_LIMIT
        || dz < -DIR_LIMIT {
        return false;
    }
    proof {
        lemma_mul_mag(dx as int, dx as int, DIR_LIMIT as int, DIR_LIMIT as int);
        lemma_mul_mag(dz as int, dz as int, DIR_LIMIT as int, DIR_LIMIT as int);
    }
    dx * dx + dz * dz >= MIN_PLANAR * MIN_PLANAR
}

impl PlayerState {
    /// Spawn a player standing at the given planar position, eyes at player
    /// height, facing `target`, in free mode with the bob at rest. Returns
    /// `None` exactly when the pose would be out of range, its look direction
    /// degenerate, or the radius out of range.
    pub fn new(x: i64, z: i64, target: Vec3, radius: i64) -> (r: Option<PlayerState>)
        ensures
            ({
                let eye = Vec3 { x, y: PLAYER_HEIGHT, z };
                if wf_pose(eye, target) && 0 <= radius <= WORLD_LIMIT {
                    r == Some(
                        PlayerState {
                            eye,
                            target,
                            old_eye: eye,
                            old_target: target,
                            viewed_text: None::<u64>,
                            playing_audio: None::<u64>,
                            cam_height: 0,
                            bob_up: false,
                            radius,
                        },
                    )
                } else {
                    r is None
                }
            }),
            r is Some ==> wf_player(r->Some_0),
    {
        let eye = Vec3 { x, y: PLAYER_HEIGHT, z };
        if !pose_valid(eye, target) || radius < 0 || radius > WORLD_LIMIT {
            return None;
        }
        Some(
            PlayerState {
                eye,
                target,
                old_eye: eye,
                old_target: target,
                viewed_text: None,
                playing_audio: None,
                cam_height: 0,
                bob_up: false,
                radius,
            },
        )
    }
}

impl Interactable {
    /// Whether this interactable meets the resolver's expectations: trigger
    /// in level range and, for a panel, a well-formed inspection pose.
    pub fn is_valid(&self) -> (b: bool)
        ensures
            b == wf_interactable(*self),
    {
        if self.point.x > WORLD_LIMIT || self.point.x < -WORLD_LIMIT || self.point.z > WORLD_LIMIT
            || self.point.z < -WORLD_LIMIT {
            return false;
        }
        if self.radius < 0 || self.radius > WORLD_LIMIT {
            return false;
        }
        match self.action {
            InteractableAction::Tombstone { text, view_eye, view_target } => pose_valid(
                view_eye,
                view_target,
            ),
            InteractableAction::Audio { source } => true,
            InteractableAction::Tooltip { tip } => true,
        }
    }
}

impl FrameInput {
    /// Whether this input snapshot meets the resolver's expectations:
    /// rotation values of sine/cosine magnitude, step sizes in range.
    pub fn is_valid(&self) -> (b: bool)
        ensures
            b == wf_input(*self),
    {
        self.yaw_sin <= SCALE && self.yaw_sin >= -SCALE && self.yaw_cos <= SCALE && self.yaw_cos
            >= -SCALE && self.pitch_sin <= SCALE && self.pitch_sin >= -SCALE && self.pitch_cos
            <= SCALE && self.pitch_cos >= -SCALE && self.speed >= 0 && self.speed <= SPEED_LIMIT
            && self.bob_step >= 0 && self.bob_step <= BOB_STEP_LIMIT
    }
}

/// Executable guarded rotation; see [`rotated_dir`].
fn rotate_dir(d: Vec3, inp: &FrameInput) -> (r: Vec3)
    requires
        wf_dir(d),
        wf_input(*inp),
    ensures
        r == rotated_dir(d, *inp),
        wf_dir(r),
{
    proof {
        lemma_rotated_dir_wf(d, *inp);
    }
    proof {
        lemma_mul_mag(d.x as int, inp.yaw_cos as int, DIR_LIMIT as int, SCALE as int);
        lemma_mul_mag(d.z as int, inp.yaw_sin as int, DIR_LIMIT as int, SCALE as int);
        lemma_mul_mag(d.x as int, inp.yaw_sin as int, DIR_LIMIT as int, SCALE as int);
        lemma_mul_mag(d.z as int, inp.yaw_cos as int, DIR_LIMIT as int, SCALE as int);
    }
    let tx: i128 = (d.x as i128) * (inp.yaw_cos as i128) - (d.z as i128) * (inp.yaw_sin as i128);
    let tz: i128 = (d.x as i128) * (inp.yaw_sin as i128) + (d.z as i128) * (inp.yaw_cos as i128);
    proof {
        lemma_div_tz_mag(tx as int, SCALE as int, 8192);
        lemma_div_tz_mag(tz as int, SCALE as int, 8192);
    }
    let x1: i64 = div_tz(tx, SCALE as i128) as i64;
    let z1: i64 = div_tz(tz, SCALE as i128) as i64;
    let e = Vec3 { x: x1, y: d.y, z: z1 };
    proof {
        assert(e == yaw_rotated(d, inp.yaw_sin as int, inp.yaw_cos as int));
        lemma_mul_mag(x1 as int, x1 as int, 8192, 8192);
        lemma_mul_mag(z1 as int, z1 as int, 8192, 8192);
        lemma_square_nonneg(x1 as int);
        lemma_square_nonneg(z1 as int);
    }
    let n2: u128 = ((x1 as i128) * (x1 as i128) + (z1 as i128) * (z1 as i128)) as u128;
    let h: u64 = isqrt(n2);
    let r1: Vec3;
    if h == 0 {
        r1 = e;
    } else {
        proof {
            lemma_sqrt_floor_le(n2 as nat, 11586);
            assert(11586 * 11586 == 134235396) by (nonlinear_arith);
            lemma_mul_mag(h as int, inp.pitch_cos as int, 11586, SCALE as int);
            lemma_mul_mag(d.y as int, inp.pitch_sin as int, DIR_LIMIT as int, SCALE as int);
            lemma_mul_mag(h as int, inp.pitch_sin as int, 11586, SCALE as int);
            lemma_mul_mag(d.y as int, inp.pitch_cos as int, DIR_LIMIT as int, SCALE as int);
        }
        let th: i128 = (h as i128) * (inp.pitch_cos as i128) - (d.y as i128) * (inp.pitch_sin
            as i128);
        let ty: i128 = (h as i128) * (inp.pitch_sin as i128) + (d.y as i128) * (inp.pitch_cos
            as i128);
        proof {
            lemma_div_tz_mag(th as int, SCALE as int, 15682);
            lemma_div_tz_mag(ty as int, SCALE as int, 15682);
        }
        let h2: i64 = div_tz(th, SCALE as i128) as i64;
        let y2: i64 = div_tz(ty, SCALE as i128) as i64;
        let hc: i64 = if h2 < MIN_PLANAR {
            MIN_PLANAR
        } else {
            h2
        };
        proof {
            lemma_mul_mag(x1 as int, hc as int, 8192, 15682);
            lemma_mul_mag(z1 as int, hc as int, 8192, 15682);
            assert(8192 * 15682 <= (h as int) * 128467456) by (nonlinear_arith)
                requires
                    h >= 1,
            ;
            lemma_div_tz_mag((x1 as int) * (hc as int), h as int, 128467456);
            lemma_div_tz_mag((z1 as int) * (hc as int), h as int, 128467456);
        }
        let x2: i64 = div_tz((x1 as i128) * (hc as i128), h as i128) as i64;
        let z2: i64 = div_tz((z1 as i128) * (hc as i128), h as i128) as i64;
        r1 = Vec3 { x: x2, y: y2, z: z2 };
    }
    proof {
        assert(r1 == pitch_rotated(e, inp.pitch_sin as int, inp.pitch_cos as int));
    }
    if r1.x > DIR_LIMIT || r1.x < -DIR_LIMIT || r1.y > DIR_LIMIT || r1.y < -DIR_LIMIT || r1.z
        > DIR_LIMIT || r1.z < -DIR_LIMIT {
        d
    } else {
        proof {
            lemma_mul_mag(r1.x as int, r1.x as int, DIR_LIMIT as int, DIR_LIMIT as int);
            lemma_mul_mag(r1.z as int, r1.z as int, DIR_LIMIT as int, DIR_LIMIT as int);
        }
        let planar2: i128 = (r1.x as i128) * (r1.x as i128) + (r1.z as i128) * (r1.z as i128);
        if planar2 < (MIN_PLANAR as i128) * (MIN_PLANAR as i128) {
            Vec3 { x: d.x, y: r1.y, z: d.z }
        } else {
            r1
        }
    }
}

/// Executable planar forward direction; see [`planar_forward`].
fn planar_forward_exec(d: Vec3) -> (f: Vec2)
    requires
        wf_dir(d),
    ensures
        f == planar_forward(d),
        in_box2(f, SCALE as int),
{
    proof {
        lemma_mul_mag(d.x as int, d.x as int, DIR_LIMIT as int, DIR_LIMIT as int);
        lemma_mul_mag(d.z as int, d.z as int, DIR_LIMIT as int, DIR_LIMIT as int);
        lemma_square_nonneg(d.x as int);
        lemma_square_nonneg(d.z as int);
    }
    let n2: u128 = ((d.x as i128) * (d.x as i128) + (d.z as i128) * (d.z as i128)) as u128;
    let h: u64 = isqrt(n2);
    proof {
        lemma_sqrt_floor_ge(n2 as nat, MIN_PLANAR as nat);
        assert(d.x * d.x <= n2);
        assert(d.z * d.z <= n2);
        assert(-(h as int) <= d.x as int <= h as int) by (nonlinear_arith)
            requires
                d.x * d.x <= n2,
                n2 < (h + 1) * (h + 1),
                h >= 0,
        ;
        assert(-(h as int) <= d.z as int <= h as int) by (nonlinear_arith)
            requires
                d.z * d.z <= n2,
                n2 < (h + 1) * (h + 1),
                h >= 0,
        ;
        lemma_mul_mag(d.x as int, SCALE as int, h as int, SCALE as int);
        lemma_mul_mag(d.z as int, SCALE as int, h as int, SCALE as int);
        lemma_div_tz_mag((d.x as int) * (SCALE as int), h as int, SCALE as int);
        lemma_div_tz_mag((d.z as int) * (SCALE as int), h as int, SCALE as int);
    }
    let fx: i64 = div_tz((d.x as i128) * (SCALE as i128), h as i128) as i64;
    let fz: i64 = div_tz((d.z as i128) * (SCALE as i128), h as i128) as i64;
    Vec2 { x: fx, z: fz }
}

/// Executable trigger test; see [`in_trigger`].
fn triggered(it: &Interactable, p: Vec2) -> (b: bool)
    requires
        wf_interactable(*it),
        in_box2(p, EYE_LIMIT as int),
    ensures
        b == in_trigger(*it, p),
{
    let dx: i128 = (p.x - it.point.x) as i128;
    let dz: i128 = (p.z - it.point.z) as i128;
    proof {
        lemma_mul_mag(dx as int, dx as int, 0xc0000, 0xc0000);
        lemma_mul_mag(dz as int, dz as int, 0xc0000, 0xc0000);
        lemma_mul_mag(it.radius as int, it.radius as int, WORLD_LIMIT as int, WORLD_LIMIT as int);
    }
    dx * dx + dz * dz < (it.radius as i128) * (it.radius as i128)
}

/// Find the first interactable whose trigger contains the point; see
/// [`first_triggered`].
fn first_triggered_exec(inters: &Vec<Interactable>, p: Vec2) -> (r: Option<usize>)
    requires
        forall|i: int| 0 <= i < inters@.len() ==> wf_interactable(#[trigger] inters@[i]),
        in_box2(p, EYE_LIMIT as int),
    ensures
        match r {
            Some(i) => 0 <= i < inters@.len() && first_triggered(inters@, p) == Some(i as int),
            None => first_triggered(inters@, p) is None,
        },
{
    let mut i: usize = 0;
    while i < inters.len()
        invariant
            forall|k: int| 0 <= k < inters@.len() ==> wf_interactable(#[trigger] inters@[k]),
            in_box2(p, EYE_LIMIT as int),
            0 <= i <= inters@.len(),
            forall|k: int| 0 <= k < i ==> !in_trigger(#[trigger] inters@[k], p),
        decreases inters@.len() - i,
    {
        if triggered(&inters[i], p) {
            proof {
                lemma_first_triggered_at(inters@, p, i as int);
            }
            return Some(i);
        }
        i = i + 1;
    }
    proof {
        lemma_first_triggered(inters@, p);
    }
    None
}

/// Run one frame of the motion resolver: in free mode, apply the pointer
/// rotation and the key-state movement, resolve the new position against the
/// collision segments, commit the camera, and handle the interactable in
/// range; while inspecting a panel, only the edge-triggered interact key
/// does anything, closing the panel and restoring the saved pose verbatim.
/// The returned output carries the UI and audio requests of the frame.
#[verifier::rlimit(100)]
pub fn resolve_frame(
    player: &mut PlayerState,
    input: &FrameInput,
    colliders: &Vec<LineCollider>,
    interactables: &Vec<Interactable>,
) -> (out: FrameOutput)
    requires
        wf_player(*old(player)),
        wf_input(*input),
        forall|i: int| 0 <= i < colliders@.len() ==> wf_collider(#[trigger] colliders@[i]),
        forall|i: int|
            0 <= i < interactables@.len() ==> wf_interactable(#[trigger] interactables@[i]),
        2 * input.speed * colliders@.len() <= DRIFT_LIMIT,
    ensures
        *final(player) == frame_step(*old(player), *input, colliders@, interactables@).0,
        out == frame_step(*old(player), *input, colliders@, interactables@).1,
        wf_player(*final(player)),
{
    proof {
        lemma_frame_step_wf(*old(player), *input, colliders@, interactables@);
    }
    let viewed = player.viewed_text;
    match viewed {
        Some(txt) => {
            if input.interact_released {
                player.eye = player.old_eye;
                player.target = player.old_target;
                player.viewed_text = None;
                FrameOutput {
                    prompt: None,
                    exit_prompt: false,
                    show_text: None,
                    hide_text: Some(txt),
                    audio: None,
                }
            } else {
                FrameOutput {
                    prompt: None,
                    exit_prompt: true,
                    show_text: None,
                    hide_text: None,
                    audio: None,
                }
            }
        },
        None => {
            let ghost p0 = *player;
            let dir0 = Vec3 {
                x: player.target.x - player.eye.x,
                y: player.target.y - player.eye.y,
                z: player.target.z - player.eye.z,
            };
            proof {
                assert(dir0 == pose_dir(p0.eye, p0.target));
            }
            let dir1 = rotate_dir(dir0, input);
            let f = planar_forward_exec(dir0);
            let r = Vec2 { x: f.z, z: -f.x };
            let mut mx: i64 = 0;
            if input.left {
                mx = mx + input.speed;
            }
            if input.right {
                mx = mx - input.speed;
            }
            let mut my: i64 = 0;
            if input.forward {
                my = my + input.speed;
            }
            if input.back {
                my = my - input.speed;
            }
            proof {
                assert(mx as int == movement_vec(*input).0);
                assert(my as int == movement_vec(*input).1);
            }
            let moving = mx != 0 || my != 0;
            proof {
                lemma_mul_mag(mx as int, r.x as int, SPEED_LIMIT as int, SCALE as int);
                lemma_mul_mag(my as int, f.x as int, SPEED_LIMIT as int, SCALE as int);
                lemma_mul_mag(mx as int, r.z as int, SPEED_LIMIT as int, SCALE as int);
                lemma_mul_mag(my as int, f.z as int, SPEED_LIMIT as int, SCALE as int);
                lemma_div_tz_mag(
                    (mx as int) * (r.x as int) + (my as int) * (f.x as int),
                    SCALE as int,
                    2 * SPEED_LIMIT as int,
                );
                lemma_div_tz_mag(
                    (mx as int) * (r.z as int) + (my as int) * (f.z as int),
                    SCALE as int,
                    2 * SPEED_LIMIT as int,
                );
            }
            let ox: i64 = div_tz(
                (mx as i128) * (r.x as i128) + (my as i128) * (f.x as i128),
                SCALE as i128,
            ) as i64;
            let oz: i64 = div_tz(
                (mx as i128) * (r.z as i128) + (my as i128) * (f.z as i128),
                SCALE as i128,
            ) as i64;
            let cand = Vec2 { x: player.eye.x + ox, z: player.eye.z + oz };
            proof {
                assert(cand == candidate_pos(p0.eye, dir0, *input));
                lemma_mul_mag(mx as int, mx as int, SPEED_LIMIT as int, SPEED_LIMIT as int);
                lemma_mul_mag(my as int, my as int, SPEED_LIMIT as int, SPEED_LIMIT as int);
                lemma_square_nonneg(mx as int);
                lemma_square_nonneg(my as int);
            }
            let sl: i64 = isqrt(
                ((mx as i128) * (mx as i128) + (my as i128) * (my as i128)) as u128,
            ) as i64;
            proof {
                lemma_step_length_bound(*input);
                assert(sl as int == step_length(*input));
                assert(sl * colliders@.len() <= (2 * input.speed) * colliders@.len())
                    by (nonlinear_arith)
                    requires
                        0 <= sl <= 2 * input.speed,
                        colliders@.len() >= 0,
                ;
            }
            let resolved = if moving {
                resolve_position(colliders, cand, sl, player.radius)
            } else {
                cand
            };
            let cam = player.cam_height;
            let step = input.bob_step;
            let mut b0: i64 = cam;
            let mut b1: bool = player.bob_up;
            if moving {
                if b1 {
                    if cam >= BOB_AMOUNT {
                        b1 = false;
                    } else {
                        b0 = cam + step;
                    }
                } else {
                    if cam <= -BOB_AMOUNT {
                        b1 = true;
                    } else {
                        b0 = cam - step;
                    }
                }
            } else {
                if abs_i64(cam) >= BOB_SETTLE {
                    if cam > 0 {
                        b0 = cam - step;
                    } else {
                        b0 = cam + step;
                    }
                }
            }
            proof {
                assert((b0 as int, b1) == bob_update(
                    p0.cam_height as int,
                    p0.bob_up,
                    is_moving(*input),
                    step as int,
                ));
            }
            let ex = clamp_i64(resolved.x, EYE_LIMIT);
            let ez = clamp_i64(resolved.z, EYE_LIMIT);
            let eye = Vec3 { x: ex, y: PLAYER_HEIGHT + b0, z: ez };
            let target = Vec3 { x: eye.x + dir1.x, y: eye.y + dir1.y, z: eye.z + dir1.z };
            player.eye = eye;
            player.target = target;
            player.old_eye = eye;
            player.old_target = target;
            player.cam_height = b0;
            player.bob_up = b1;
            proof {
                assert(*player == committed_player(p0, *input, colliders@));
                lemma_committed_wf(p0, *input, colliders@);
            }
            let pos = Vec2 { x: eye.x, z: eye.z };
            let hit = first_triggered_exec(interactables, pos);
            match hit {
                None => FrameOutput {
                    prompt: None,
                    exit_prompt: false,
                    show_text: None,
                    hide_text: None,
                    audio: None,
                },
                Some(i) => {
                    let it = interactables[i];
                    if input.interact_released {
                        match it.action {
                            InteractableAction::Tombstone { text, view_eye, view_target } => {
                                player.eye = view_eye;
                                player.target = view_target;
                                player.viewed_text = Some(text);
                                FrameOutput {
                                    prompt: None,
                                    exit_prompt: false,
                                    show_text: Some(text),
                                    hide_text: None,
                                    audio: None,
                                }
                            },
                            InteractableAction::Audio { source } => {
                                let same = match player.playing_audio {
                                    Some(cur) => cur == source,
                                    None => false,
                                };
                                if same {
                                    FrameOutput {
                                        prompt: None,
                                        exit_prompt: false,
                                        show_text: None,
                                        hide_text: None,
                                        audio: Some(AudioCommand::Toggle),
                                    }
                                } else {
                                    let prev = player.playing_audio;
                                    player.playing_audio = Some(source);
                                    FrameOutput {
                                        prompt: None,
                                        exit_prompt: false,
                                        show_text: None,
                                        hide_text: None,
                                        audio: Some(AudioCommand::Play { source, stop: prev }),
                                    }
                                }
                            },
                            InteractableAction::Tooltip { tip } => FrameOutput {
                                prompt: None,
                                exit_prompt: false,
                                show_text: None,
                                hide_text: None,
                                audio: None,
                            },
                        }
                    } else {
                        let label = match it.action {
                            InteractableAction::Tombstone { text, view_eye, view_target } => {
                                PromptLabel::Read
                            },
                            InteractableAction::Audio { source } => {
                                let same = match player.playing_audio {
                                    Some(cur) => cur == source,
                                    None => false,
                                };
                                if same && !input.audio_paused {
                                    PromptLabel::PauseAudio
                                } else {
                                    PromptLabel::PlayAudio
                                }
                            },
                            InteractableAction::Tooltip { tip } => PromptLabel::Tooltip { tip },
                        };
                        FrameOutput {
                            prompt: Some(label),
                            exit_prompt: false,
                            show_text: None,
                            hide_text: None,
                            audio: None,
                        }
                    }
                },
            }
        },
    }
}

} // verus!
