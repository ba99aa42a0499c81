//! Decisions of the characters' control loops, apart from the engine.
//!
//! The engine reads the pressed keys, the animation events and the scene, and
//! hands them here as plain values; it then applies the answer: it plays an
//! animation, sets a velocity of the given direction at the character's speed,
//! or turns the sprite.
use vstd::prelude::*;

verus! {

/// What a character is doing.
#[derive(Debug, Clone, Copy, PartialEq, Eq, Structural)]
pub enum Action {
    Idle,
    Walk,
    Attack,
    Dead,
}

impl Action {
    pub open spec fn name(self) -> Seq<char> {
        match self {
            Action::Idle => "idle"@,
            Action::Walk => "walk"@,
            Action::Attack => "attack"@,
            Action::Dead => "die"@,
        }
    }

    /// The name of the animation that shows the action.
    pub fn as_str(&self) -> (r: &'static str)
        ensures
            r@ == self.name(),
    {
        match self {
            Action::Idle => "idle",
            Action::Walk => "walk",
            Action::Attack => "attack",
            Action::Dead => "die",
        }
    }
}

/// Which way a sprite faces.
#[derive(Debug, Clone, Copy, PartialEq, Eq, Structural)]
pub enum FaceDirection {
    Left,
    Right,
}

impl FaceDirection {
    pub open spec fn name(self) -> Seq<char> {
        match self {
            FaceDirection::Left => "left"@,
            FaceDirection::Right => "right"@,
        }
    }

    pub fn as_str(&self) -> (r: &'static str)
        ensures
            r@ == self.name(),
    {
        match self {
            FaceDirection::Left => "left",
            FaceDirection::Right => "right",
        }
    }
}

/// The movement keys and the attack key, as pressed in one frame.
#[derive(Debug, Clone, Copy, PartialEq, Eq, Structural)]
pub struct InputState {
    pub attack: bool,
    pub right: bool,
    pub left: bool,
    pub down: bool,
    pub up: bool,
}

/// What to do with one frame of input.
#[derive(Debug, Clone, Copy, PartialEq, Eq, Structural)]
pub enum Response {
    /// Leave the character as it is.
    Ignore,
    /// Restart the attack cool-down and play the attack.
    Attack,
    /// Move along `(dx, dy)`, each -1, 0 or 1 (y grows downwards): walk when
    /// the direction is not zero, else stand idle. `facing` is the way the
    /// sprite turns, if any.
    Move { dx: i8, dy: i8, facing: Option<FaceDirection> },
}

/// Whether a character in `action` takes input: not while it attacks or is dead.
pub open spec fn accepts_input(action: Action) -> bool {
    action != Action::Attack && action != Action::Dead
}

pub open spec fn axis(positive: bool, negative: bool) -> i8 {
    if positive && !negative {
        1i8
    } else if negative && !positive {
        -1i8
    } else {
        0i8
    }
}

/// The answer to one frame of input.
pub open spec fn response_to(action: Action, input: InputState, cool_down_ready: bool) -> Response {
    if !accepts_input(action) {
        Response::Ignore
    } else if input.attack {
        if cool_down_ready {
            Response::Attack
        } else {
            Response::Ignore
        }
    } else {
        Response::Move {
            dx: axis(input.right, input.left),
            dy: axis(input.down, input.up),
            facing: if input.left {
                Some(FaceDirection::Left)
            } else if input.right {
                Some(FaceDirection::Right)
            } else {
                None
            },
        }
    }
}

/// The action after a response: attacking, walking when the direction is not
/// zero, else standing idle; an ignored frame keeps the action.
pub open spec fn action_after(action: Action, response: Response) -> Action {
    match response {
        Response::Ignore => action,
        Response::Attack => Action::Attack,
        Response::Move { dx, dy, facing } => if dx != 0 || dy != 0 {
            Action::Walk
        } else {
            Action::Idle
        },
    }
}

pub fn is_accept_input(action: Action) -> (r: bool)
    ensures
        r == accepts_input(action),
{
    match action {
        Action::Attack => false,
        Action::Dead => false,
        _ => true,
    }
}

/// Decides one frame of input for a character in `action`, given whether its
/// attack cool-down has run out.
pub fn process_input(action: Action, input: InputState, cool_down_ready: bool) -> (r: Response)
    ensures
        r == response_to(action, input, cool_down_ready),
{
    if !is_accept_input(action) {
        return Response::Ignore;
    }
    if input.attack {
        return attack_pressed(cool_down_ready);
    }
    let mut dx: i8 = 0;
    let mut dy: i8 = 0;
    let mut facing: Option<FaceDirection> = None;
    if input.right {
        facing = Some(FaceDirection::Right);
        dx = dx + 1;
    }
    if input.left {
        facing = Some(FaceDirection::Left);
        dx = dx - 1;
    }
    if input.down {
        dy = dy + 1;
    }
    if input.up {
        dy = dy - 1;
    }
    Response::Move { dx, dy, facing }
}

/// The answer to the attack key: attack when the cool-down has run out.
pub fn attack_pressed(cool_down_ready: bool) -> (r: Response)
    ensures
        r == (if cool_down_ready { Response::Attack } else { Response::Ignore }),
{
    if cool_down_ready {
        Response::Attack
    } else {
        Response::Ignore
    }
}

/// The action that a response leads to.
pub fn next_action(action: Action, response: Response) -> (r: Action)
    ensures
        r == action_after(action, response),
{
    match response {
        Response::Ignore => action,
        Response::Attack => Action::Attack,
        Response::Move { dx, dy, facing: _ } => {
            if dx != 0 || dy != 0 {
                Action::Walk
            } else {
                Action::Idle
            }
        },
    }
}

/// The action once an animation ends: an attack that finished gives way to idling.
pub fn on_animation_finished(action: Action, finished_attack: bool) -> (r: Action)
    ensures
        r == (if finished_attack && action == Action::Attack { Action::Idle } else { action }),
{
    if finished_attack && action == Action::Attack {
        Action::Idle
    } else {
        action
    }
}

/// What a sentry does, from what it sees.
#[derive(Debug, Clone, Copy, PartialEq, Eq, Structural)]
pub enum SentryChoice {
    /// Attack the closest character in attack range.
    AttackClosest,
    /// Walk back to the post.
    ReturnToPost,
    /// Walk to the first character in sight.
    ChaseVisible,
    /// Keep doing what it did.
    ContinueLast,
}

/// A sentry attacks whatever is in range; else, too far from its post, it
/// walks back; else it chases what it sees; else it carries on.
pub fn sentry_choice(in_attack_range: bool, beyond_follow_range: bool, in_sight: bool) -> (r: SentryChoice)
    ensures
        r == (if in_attack_range {
            SentryChoice::AttackClosest
        } else if beyond_follow_range {
            SentryChoice::ReturnToPost
        } else if in_sight {
            SentryChoice::ChaseVisible
        } else {
            SentryChoice::ContinueLast
        }),
{
    if in_attack_range {
        SentryChoice::AttackClosest
    } else if beyond_follow_range {
        SentryChoice::ReturnToPost
    } else if in_sight {
        SentryChoice::ChaseVisible
    } else {
        SentryChoice::ContinueLast
    }
}

/// What an aggroed character does: attack toward its target when it is within
/// attack range, else move to it.
pub fn aggroed_attacks(within_attack_range: bool) -> (attack: bool)
    ensures
        attack == within_attack_range,
{
    within_attack_range
}

/// What a pursuer does with its target in one frame.
#[derive(Debug, Clone, Copy, PartialEq, Eq, Structural)]
pub enum Pursuit {
    /// Start following the first character in sight.
    FollowFirstInSight,
    /// Stop following: nothing is in sight any more.
    StopFollowing,
    /// Keep the current target, or keep having none.
    Keep,
}

/// A pursuer without a target takes the first one in sight; one with a target
/// drops it when nothing is in sight.
pub fn pursuit(following: bool, in_sight: bool) -> (r: Pursuit)
    ensures
        r == (if !following && in_sight {
            Pursuit::FollowFirstInSight
        } else if following && !in_sight {
            Pursuit::StopFollowing
        } else {
            Pursuit::Keep
        }),
{
    if !following {
        if in_sight {
            Pursuit::FollowFirstInSight
        } else {
            Pursuit::Keep
        }
    } else if !in_sight {
        Pursuit::StopFollowing
    } else {
        Pursuit::Keep
    }
}

/// The action of a pursuer on its way: it walks while the target is not
/// reached and the next waypoint lies away from it, else it stands idle.
pub fn pursuit_action(target_reached: bool, direction_nonzero: bool) -> (r: Action)
    ensures
        r == (if !target_reached && direction_nonzero { Action::Walk } else { Action::Idle }),
{
    if !target_reached && direction_nonzero {
        Action::Walk
    } else {
        Action::Idle
    }
}

/// How the player's sprite shows a movement.
#[derive(Debug, Clone, Copy, PartialEq, Eq, Structural)]
pub enum PlayerSprite {
    /// No movement: the animation stops.
    Stopped,
    /// Sideways movement: the "right" animation, mirrored when going left.
    Right { flip_h: bool },
    /// Vertical movement: the "up" animation, upside down when going down.
    Up { flip_v: bool },
}

/// The sprite for a movement along `(dx, dy)` (y grows downwards).
pub fn player_sprite(dx: i8, dy: i8) -> (r: PlayerSprite)
    ensures
        r == (if dx != 0 {
            PlayerSprite::Right { flip_h: dx < 0 }
        } else if dy != 0 {
            PlayerSprite::Up { flip_v: dy > 0 }
        } else {
            PlayerSprite::Stopped
        }),
{
    if dx != 0 {
        PlayerSprite::Right { flip_h: dx < 0 }
    } else if dy != 0 {
        PlayerSprite::Up { flip_v: dy > 0 }
    } else {
        PlayerSprite::Stopped
    }
}

/// A character that attacks or is dead ignores every frame of input.
pub proof fn lemma_busy_ignores_input(action: Action, input: InputState, ready: bool)
    requires
        action == Action::Attack || action == Action::Dead,
    ensures
        response_to(action, input, ready) == Response::Ignore,
        action_after(action, response_to(action, input, ready)) == action,
{
}

/// Opposite keys cancel out, and the answer to movement keys is a walk exactly
/// when the net direction is not zero.
pub proof fn lemma_opposite_keys_cancel(action: Action, input: InputState, ready: bool)
    requires
        accepts_input(action),
        !input.attack,
        input.left == input.right,
        input.up == input.down,
    ensures
        action_after(action, response_to(action, input, ready)) == Action::Idle,
{
}

} // verus!
