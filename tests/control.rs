use dodge_creeps::control::{
    aggroed_attacks, attack_pressed, is_accept_input, next_action, on_animation_finished,
    player_sprite, process_input, pursuit, pursuit_action, sentry_choice, Action, FaceDirection,
    InputState, PlayerSprite, Pursuit, Response, SentryChoice,
};
use dodge_creeps::effect::{Buff, Damage, Effect, Effects, Heal};
use dodge_creeps::tree::{PineTree, TreeState};

fn keys(attack: bool, right: bool, left: bool, down: bool, up: bool) -> InputState {
    InputState { attack, right, left, down, up }
}

#[test]
fn busy_characters_ignore_input() {
    assert!(!is_accept_input(Action::Attack));
    assert!(!is_accept_input(Action::Dead));
    assert!(is_accept_input(Action::Idle));
    assert!(is_accept_input(Action::Walk));
    assert_eq!(process_input(Action::Attack, keys(false, true, false, false, false), true), Response::Ignore);
    assert_eq!(process_input(Action::Dead, keys(true, false, false, false, false), true), Response::Ignore);
}

#[test]
fn attack_key_waits_for_cool_down() {
    assert_eq!(process_input(Action::Idle, keys(true, true, false, false, false), true), Response::Attack);
    assert_eq!(process_input(Action::Walk, keys(true, false, false, false, false), false), Response::Ignore);
    assert_eq!(attack_pressed(true), Response::Attack);
    assert_eq!(attack_pressed(false), Response::Ignore);
    assert_eq!(next_action(Action::Idle, Response::Attack), Action::Attack);
    assert_eq!(next_action(Action::Walk, Response::Ignore), Action::Walk);
}

#[test]
fn movement_keys_give_direction_and_facing() {
    let r = process_input(Action::Idle, keys(false, true, false, false, true), true);
    assert_eq!(r, Response::Move { dx: 1, dy: -1, facing: Some(FaceDirection::Right) });
    assert_eq!(next_action(Action::Idle, r), Action::Walk);
    let r = process_input(Action::Walk, keys(false, true, true, false, false), true);
    assert_eq!(r, Response::Move { dx: 0, dy: 0, facing: Some(FaceDirection::Left) });
    assert_eq!(next_action(Action::Walk, r), Action::Idle);
    let r = process_input(Action::Idle, keys(false, false, false, true, false), true);
    assert_eq!(r, Response::Move { dx: 0, dy: 1, facing: None });
    assert_eq!(next_action(Action::Idle, r), Action::Walk);
    let r = process_input(Action::Walk, keys(false, false, false, false, false), true);
    assert_eq!(r, Response::Move { dx: 0, dy: 0, facing: None });
    assert_eq!(next_action(Action::Walk, r), Action::Idle);
}

#[test]
fn finished_attack_returns_to_idle() {
    assert_eq!(on_animation_finished(Action::Attack, true), Action::Idle);
    assert_eq!(on_animation_finished(Action::Attack, false), Action::Attack);
    assert_eq!(on_animation_finished(Action::Dead, true), Action::Dead);
    assert_eq!(Action::Dead.as_str(), "die");
    assert_eq!(Action::Attack.as_str(), "attack");
    assert_eq!(FaceDirection::Left.as_str(), "left");
}

#[test]
fn sentry_and_pursuit_choices() {
    assert_eq!(sentry_choice(true, true, true), SentryChoice::AttackClosest);
    assert_eq!(sentry_choice(false, true, true), SentryChoice::ReturnToPost);
    assert_eq!(sentry_choice(false, false, true), SentryChoice::ChaseVisible);
    assert_eq!(sentry_choice(false, false, false), SentryChoice::ContinueLast);
    assert!(aggroed_attacks(true));
    assert!(!aggroed_attacks(false));
    assert_eq!(pursuit(false, true), Pursuit::FollowFirstInSight);
    assert_eq!(pursuit(true, false), Pursuit::StopFollowing);
    assert_eq!(pursuit(true, true), Pursuit::Keep);
    assert_eq!(pursuit(false, false), Pursuit::Keep);
    assert_eq!(pursuit_action(false, true), Action::Walk);
    assert_eq!(pursuit_action(false, false), Action::Idle);
    assert_eq!(pursuit_action(true, true), Action::Idle);
}

#[test]
fn player_sprite_follows_direction() {
    assert_eq!(player_sprite(-1, 1), PlayerSprite::Right { flip_h: true });
    assert_eq!(player_sprite(1, 0), PlayerSprite::Right { flip_h: false });
    assert_eq!(player_sprite(0, 1), PlayerSprite::Up { flip_v: true });
    assert_eq!(player_sprite(0, -1), PlayerSprite::Up { flip_v: false });
    assert_eq!(player_sprite(0, 0), PlayerSprite::Stopped);
}

#[test]
fn tree_falls_after_three_damaging_hits() {
    let mut tree = PineTree::new();
    let harmless = Effects::new(vec![Effect::Heal(Heal { amount: 2 }), Effect::Buff(Buff { duration: 1 })]);
    assert!(!harmless.has_damage());
    assert_eq!(tree.hurt(&harmless), None);
    assert_eq!(tree.hp, 3);
    let hit = Effects::new(vec![Effect::Heal(Heal { amount: 2 }), Effect::Damage(Damage { amount: 10 })]);
    assert!(hit.has_damage());
    assert_eq!(tree.hurt(&hit), Some("chopping"));
    assert_eq!(tree.hurt(&hit), Some("chopping"));
    assert_eq!(tree.state, TreeState::Idle);
    assert_eq!(tree.hurt(&hit), Some("stump"));
    assert_eq!(tree.hp, 0);
    assert_eq!(tree.state, TreeState::Stump);
    assert_eq!(tree.hurt(&Effects::new(vec![])), None);
}
