use last_stander::fsm::{ForStates, GameState, GameStateFsm, Mode, TransitionError};

#[test]
fn exiting() {
    let mut fsm = GameStateFsm::new(GameState::Begin);
    fsm.update();
    fsm.update();
    fsm.update();
    assert!(fsm.transit_to(GameState::MainMenu).is_ok());
    assert!(fsm.exiting_group(&ForStates::Only(GameState::Begin)));
}

#[test]
fn handshake_commits_after_two_updates() {
    let mut fsm = GameStateFsm::new(GameState::MainMenu);
    fsm.update();
    fsm.update();
    assert!(fsm.is(GameState::MainMenu));
    let b = GameState::Arena(Mode::Player);
    assert_eq!(fsm.transit_to(b), Ok(()));
    assert!(fsm.entering().is_none());
    fsm.update();
    assert_eq!(fsm.current(), &GameState::MainMenu);
    assert_eq!(fsm.entering(), Some(&b));
    fsm.update();
    assert_eq!(fsm.current(), &b);
    assert!(fsm.entering().is_none());
    fsm.update();
    assert_eq!(fsm.current(), &b);
}

#[test]
fn transit_while_pending_is_refused() {
    let mut fsm = GameStateFsm::new(GameState::MainMenu);
    assert_eq!(
        fsm.transit_to(GameState::Manager),
        Err(TransitionError::DuplicateTransitionRequest)
    );
    fsm.update();
    assert_eq!(fsm.entering(), Some(&GameState::MainMenu));
    assert_eq!(
        fsm.transit_to(GameState::Manager),
        Err(TransitionError::DuplicateTransitionRequest)
    );
    fsm.update();
    assert_eq!(fsm.current(), &GameState::MainMenu);
}

#[test]
fn groups_on_enter_and_exit() {
    let mut fsm = GameStateFsm::new(GameState::MainMenu);
    fsm.update();
    fsm.update();
    fsm.transit_to(GameState::Arena(Mode::AI)).unwrap();
    let arena = ForStates::Arena;
    let menu = ForStates::OneOf(vec![GameState::MainMenu, GameState::Manager]);
    assert!(fsm.exiting_group(&menu));
    assert!(!fsm.exiting_group(&arena));
    fsm.update();
    assert!(fsm.entering_group_pred(&arena));
    assert!(!fsm.entering_group_pred(&menu));
    assert!(!fsm.exiting_group(&menu));
}

#[test]
fn state_classes() {
    assert!(GameState::ArenaPause(Mode::AI).is_live_arena());
    assert!(!GameState::ArenaOver(Mode::AI).is_live_arena());
    assert!(GameState::ArenaOver(Mode::Player).is_arena());
    assert_eq!(GameState::ArenaOver(Mode::Player).arena_mode(), Some(Mode::Player));
    assert_eq!(GameState::BetweenRounds.arena_mode(), None);
    assert_eq!(GameState::default(), GameState::Begin);
    assert!(ForStates::LiveArena.covers(&GameState::Arena(Mode::AI)));
    assert!(!ForStates::LiveArena.covers(&GameState::MainMenu));
}
