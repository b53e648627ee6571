use museum::collide::LineCollider;
use museum::player::{
    resolve_frame, AudioCommand, FrameInput, Interactable, InteractableAction, PlayerState,
    PromptLabel, PLAYER_HEIGHT, PLAYER_RADIUS,
};
use museum::scene::WallBuilder;
use museum::vec2::{Vec2, Vec3};

fn v2(x: i64, z: i64) -> Vec2 {
    Vec2 { x, z }
}

fn v3(x: i64, y: i64, z: i64) -> Vec3 {
    Vec3 { x, y, z }
}

fn idle_input() -> FrameInput {
    FrameInput {
        yaw_sin: 0,
        yaw_cos: 1000,
        pitch_sin: 0,
        pitch_cos: 1000,
        forward: false,
        back: false,
        left: false,
        right: false,
        interact_released: false,
        speed: 100,
        bob_step: 3,
        audio_paused: false,
    }
}

fn standing_player(x: i64, z: i64, target: Vec3) -> PlayerState {
    PlayerState::new(x, z, target, PLAYER_RADIUS).expect("pose in range")
}

fn tombstone_at(point: Vec2, text: u64) -> Interactable {
    Interactable {
        point,
        radius: 1000,
        action: InteractableAction::Tombstone {
            text,
            view_eye: v3(4000, 1000, 5500),
            view_target: v3(4000, 1000, 6000),
        },
    }
}

#[test]
fn idle_frame_leaves_camera_unchanged() {
    // No pointer motion, no keys, settled bob, nothing in range: the frame
    // is the identity on eye and look target.
    let mut p = standing_player(0, 0, v3(0, PLAYER_HEIGHT, 500));
    let before = p;
    let out = resolve_frame(&mut p, &idle_input(), &vec![], &vec![]);
    assert_eq!(p.eye, before.eye);
    assert_eq!(p.target, before.target);
    assert_eq!(p.viewed_text, None);
    assert_eq!(out.prompt, None);
    assert!(!out.exit_prompt);
}

#[test]
fn viewing_round_trip_restores_pose_exactly() {
    let mut p = standing_player(0, 0, v3(0, PLAYER_HEIGHT, 500));
    let before = p;
    let inters = vec![tombstone_at(v2(0, 0), 7)];
    let mut enter = idle_input();
    enter.interact_released = true;

    let out1 = resolve_frame(&mut p, &enter, &vec![], &inters);
    assert_eq!(p.viewed_text, Some(7));
    assert_eq!(p.eye, v3(4000, 1000, 5500));
    assert_eq!(p.target, v3(4000, 1000, 6000));
    assert_eq!(out1.show_text, Some(7));

    // While inspecting, frames without the interact key only offer the exit
    // prompt and hold the camera.
    let out2 = resolve_frame(&mut p, &idle_input(), &vec![], &inters);
    assert!(out2.exit_prompt);
    assert_eq!(p.eye, v3(4000, 1000, 5500));

    let out3 = resolve_frame(&mut p, &enter, &vec![], &inters);
    assert_eq!(p.viewed_text, None);
    assert_eq!(out3.hide_text, Some(7));
    assert_eq!(p.eye, before.eye);
    assert_eq!(p.target, before.target);
}

#[test]
fn wall_keeps_player_at_radius() {
    // A wall along the z axis; the player at x = 0.5 walks toward it in
    // steps of 0.1: the resolver never lets the camera end a frame nearer
    // the wall line than its collision radius.
    let wall = WallBuilder::new(v2(0, 0), v2(0, 6000)).build();
    let colliders = vec![wall.collider.expect("wall collides")];
    // Looking along -x, so the forward key walks into the wall.
    let mut p = standing_player(500, 3000, v3(0, PLAYER_HEIGHT, 3000));
    let mut walk = idle_input();
    walk.forward = true;
    for _ in 0..20 {
        resolve_frame(&mut p, &walk, &colliders, &vec![]);
        assert!(p.eye.x >= 320, "camera at x = {} crossed the radius", p.eye.x);
    }
}

#[test]
fn movement_displaces_along_the_look_direction() {
    let mut p = standing_player(0, 0, v3(0, PLAYER_HEIGHT, 500));
    let mut walk = idle_input();
    walk.forward = true;
    resolve_frame(&mut p, &walk, &vec![], &vec![]);
    // One forward step of 0.1 along +z; the bob starts travelling down.
    assert_eq!(p.eye.x, 0);
    assert_eq!(p.eye.z, 100);
    assert_eq!(p.cam_height, -3);
    assert_eq!(p.eye.y, PLAYER_HEIGHT - 3);
    // The look target follows the eye.
    assert_eq!(p.target, v3(0, PLAYER_HEIGHT - 3, 600));
}

#[test]
fn pointer_rotation_turns_the_look_direction() {
    // A quarter turn of yaw: sine 1, cosine 0. The look direction (0,0,0.5)
    // turns onto the x axis; the eye stays put.
    let mut p = standing_player(0, 0, v3(0, PLAYER_HEIGHT, 500));
    let mut turn = idle_input();
    turn.yaw_sin = 1000;
    turn.yaw_cos = 0;
    resolve_frame(&mut p, &turn, &vec![], &vec![]);
    assert_eq!(p.eye, v3(0, PLAYER_HEIGHT, 0));
    assert_eq!(p.target, v3(-500, PLAYER_HEIGHT, 0));
}

#[test]
fn pitch_rotation_tilts_within_the_planar_guard() {
    // Thirty degrees of pitch: sine 0.5, cosine 0.866. The planar length 0.5
    // shrinks to 0.433 and the direction gains height 0.25.
    let mut p = standing_player(0, 0, v3(0, PLAYER_HEIGHT, 500));
    let mut tilt = idle_input();
    tilt.pitch_sin = 500;
    tilt.pitch_cos = 866;
    resolve_frame(&mut p, &tilt, &vec![], &vec![]);
    assert_eq!(p.eye, v3(0, PLAYER_HEIGHT, 0));
    assert_eq!(p.target, v3(0, PLAYER_HEIGHT + 250, 433));
}

#[test]
fn audio_interaction_plays_toggles_and_switches() {
    let mut p = standing_player(0, 0, v3(0, PLAYER_HEIGHT, 500));
    let speaker = Interactable {
        point: v2(0, 0),
        radius: 1000,
        action: InteractableAction::Audio { source: 9 },
    };
    let other = Interactable {
        point: v2(0, 0),
        radius: 1000,
        action: InteractableAction::Audio { source: 10 },
    };
    let mut act = idle_input();
    act.interact_released = true;

    let out = resolve_frame(&mut p, &act, &vec![], &vec![speaker]);
    assert_eq!(out.audio, Some(AudioCommand::Play { source: 9, stop: None }));
    assert_eq!(p.playing_audio, Some(9));

    let out = resolve_frame(&mut p, &act, &vec![], &vec![speaker]);
    assert_eq!(out.audio, Some(AudioCommand::Toggle));
    assert_eq!(p.playing_audio, Some(9));

    let out = resolve_frame(&mut p, &act, &vec![], &vec![other]);
    assert_eq!(out.audio, Some(AudioCommand::Play { source: 10, stop: Some(9) }));
    assert_eq!(p.playing_audio, Some(10));
}

#[test]
fn prompts_reflect_the_action_in_range() {
    let mut p = standing_player(0, 0, v3(0, PLAYER_HEIGHT, 500));
    let inters = vec![tombstone_at(v2(0, 0), 7)];
    let out = resolve_frame(&mut p, &idle_input(), &vec![], &inters);
    assert_eq!(out.prompt, Some(PromptLabel::Read));

    let speaker = Interactable {
        point: v2(0, 0),
        radius: 1000,
        action: InteractableAction::Audio { source: 9 },
    };
    let out = resolve_frame(&mut p, &idle_input(), &vec![], &vec![speaker]);
    assert_eq!(out.prompt, Some(PromptLabel::PlayAudio));

    p.playing_audio = Some(9);
    let out = resolve_frame(&mut p, &idle_input(), &vec![], &vec![speaker]);
    assert_eq!(out.prompt, Some(PromptLabel::PauseAudio));

    let mut paused = idle_input();
    paused.audio_paused = true;
    let out = resolve_frame(&mut p, &paused, &vec![], &vec![speaker]);
    assert_eq!(out.prompt, Some(PromptLabel::PlayAudio));

    let hint = Interactable {
        point: v2(0, 0),
        radius: 1000,
        action: InteractableAction::Tooltip { tip: 3 },
    };
    let out = resolve_frame(&mut p, &idle_input(), &vec![], &vec![hint]);
    assert_eq!(out.prompt, Some(PromptLabel::Tooltip { tip: 3 }));
}

#[test]
fn out_of_range_interactable_shows_no_prompt() {
    let mut p = standing_player(0, 0, v3(0, PLAYER_HEIGHT, 500));
    let far = tombstone_at(v2(5000, 5000), 7);
    let out = resolve_frame(&mut p, &idle_input(), &vec![], &vec![far]);
    assert_eq!(out.prompt, None);
    assert_eq!(p.viewed_text, None);
}

#[test]
fn bob_turns_at_the_amplitude() {
    let mut p = standing_player(0, 0, v3(0, PLAYER_HEIGHT, 500));
    let mut walk = idle_input();
    walk.forward = true;
    walk.bob_step = 30;
    // Travelling down from rest: -30, -60 (past the amplitude), then turn.
    resolve_frame(&mut p, &walk, &vec![], &vec![]);
    assert_eq!((p.cam_height, p.bob_up), (-30, false));
    resolve_frame(&mut p, &walk, &vec![], &vec![]);
    assert_eq!((p.cam_height, p.bob_up), (-60, false));
    resolve_frame(&mut p, &walk, &vec![], &vec![]);
    assert_eq!((p.cam_height, p.bob_up), (-60, true));
    resolve_frame(&mut p, &walk, &vec![], &vec![]);
    assert_eq!((p.cam_height, p.bob_up), (-30, true));
}

#[test]
fn degenerate_look_direction_is_rejected_at_spawn() {
    // Looking straight up has no yaw: the constructor refuses the pose.
    assert!(PlayerState::new(0, 0, v3(0, PLAYER_HEIGHT + 500, 0), PLAYER_RADIUS).is_none());
    // A pose out of coordinate range is refused too.
    assert!(PlayerState::new(0, 0, v3(0, PLAYER_HEIGHT, 600_000), PLAYER_RADIUS).is_none());
}

#[test]
fn input_validation_matches_the_resolver_bounds() {
    let good = idle_input();
    assert!(good.is_valid());
    let mut bad = idle_input();
    bad.yaw_cos = 1001;
    assert!(!bad.is_valid());
    let mut bad = idle_input();
    bad.speed = -1;
    assert!(!bad.is_valid());
    let far_panel = Interactable {
        point: v2(0, 0),
        radius: 1000,
        action: InteractableAction::Tombstone {
            text: 1,
            view_eye: v3(0, 0, 0),
            view_target: v3(0, 0, 0),
        },
    };
    assert!(!far_panel.is_valid());
    assert!(tombstone_at(v2(0, 0), 1).is_valid());
}
