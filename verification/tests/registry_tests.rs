use tictactoe_engine::assets::Assets;
use tictactoe_engine::registry::{CommitOutcome, MatchOutcome, Registry};
use tictactoe_engine::session::Direction;

const PNG_SIGNATURE: [u8; 8] = [137, 80, 78, 71, 13, 10, 26, 10];
const ALICE: u64 = 10;
const BOB: u64 = 20;

fn test_assets() -> Assets {
    Assets::new(
        vec![1; 19200],
        vec![2; 19200],
        vec![90; 360000],
        vec![90; 360000],
        vec![90; 360000],
        vec![90; 360000],
    )
}

#[test]
fn repeated_request_keeps_the_slot() {
    let mut reg = Registry::new();
    assert_eq!(reg.request_match(ALICE), MatchOutcome::Waiting);
    assert_eq!(reg.pending_participant(), Some(ALICE));
    // The same participant asking again is refused, not consumed.
    assert_eq!(reg.request_match(ALICE), MatchOutcome::AlreadyInGame);
    assert_eq!(reg.pending_participant(), Some(ALICE));
    assert_eq!(reg.session_count(), 0);
}

#[test]
fn second_participant_starts_the_match() {
    let mut reg = Registry::new();
    assert_eq!(reg.request_match(ALICE), MatchOutcome::Waiting);
    assert_eq!(reg.request_match(BOB), MatchOutcome::Started);
    assert_eq!(reg.pending_participant(), None);
    assert_eq!(reg.session_count(), 1);

    // Both players are now busy; a third can open a new challenge.
    assert_eq!(reg.request_match(ALICE), MatchOutcome::AlreadyInGame);
    assert_eq!(reg.request_match(BOB), MatchOutcome::AlreadyInGame);
    assert_eq!(reg.request_match(33), MatchOutcome::Waiting);
}

#[test]
fn prompts_go_to_the_challenger_first() {
    let mut reg = Registry::new();
    reg.request_match(ALICE);
    reg.request_match(BOB);
    let prompts = reg.render_session(BOB).expect("live session");
    assert_eq!(prompts.active_id, ALICE);
    assert_eq!(prompts.waiting_id, BOB);
    assert!(prompts.prompt.controls.commit);
    assert_eq!(&prompts.prompt.png[..8], &PNG_SIGNATURE);
    assert_eq!(&prompts.waiting_png[..8], &PNG_SIGNATURE);
}

#[test]
fn navigation_is_routed_and_reported() {
    let mut reg = Registry::new();
    reg.request_match(ALICE);
    reg.request_match(BOB);

    // Left from the centre lands on cell 3, the left border.
    let prompt = reg.request_navigate(ALICE, Direction::Left).expect("live session");
    assert!(!prompt.controls.left);
    assert!(prompt.controls.right);
    assert!(prompt.controls.up);
    assert!(prompt.controls.down);
    let prompt = reg.request_navigate(ALICE, Direction::Up).expect("live session");
    // The cursor is now on cell 0: the two outward directions are disabled.
    assert!(!prompt.controls.left);
    assert!(!prompt.controls.up);
    assert!(prompt.controls.right);
    assert!(prompt.controls.down);

    assert!(reg.request_navigate(77, Direction::Left).is_none());
}

#[test]
fn off_turn_and_occupied_commits_are_ignored() {
    let assets = test_assets();
    let mut reg = Registry::new();
    reg.request_match(ALICE);
    reg.request_match(BOB);

    assert!(matches!(reg.request_commit(BOB, &assets), CommitOutcome::Ignored));
    assert!(matches!(reg.request_commit(ALICE, &assets), CommitOutcome::Moved));
    // Bob's cursor starts on the centre cell, which Alice just took.
    assert!(matches!(reg.request_commit(BOB, &assets), CommitOutcome::Ignored));
    assert_eq!(reg.session_count(), 1);
}

#[test]
fn left_column_game_end_to_end() {
    let assets = test_assets();
    let mut reg = Registry::new();
    assert_eq!(reg.request_match(ALICE), MatchOutcome::Waiting);
    assert_eq!(reg.request_match(BOB), MatchOutcome::Started);

    // Alice to cell 0.
    reg.request_navigate(ALICE, Direction::Up).unwrap();
    reg.request_navigate(ALICE, Direction::Left).unwrap();
    assert!(matches!(reg.request_commit(ALICE, &assets), CommitOutcome::Moved));
    // Bob to cell 1.
    reg.request_navigate(BOB, Direction::Up).unwrap();
    assert!(matches!(reg.request_commit(BOB, &assets), CommitOutcome::Moved));
    // Alice to cell 3.
    reg.request_navigate(ALICE, Direction::Left).unwrap();
    assert!(matches!(reg.request_commit(ALICE, &assets), CommitOutcome::Moved));
    // Bob commits on the centre cell where the cursor was reset.
    assert!(matches!(reg.request_commit(BOB, &assets), CommitOutcome::Moved));
    // Alice to cell 6 completes the left column, line id 3.
    reg.request_navigate(ALICE, Direction::Down).unwrap();
    reg.request_navigate(ALICE, Direction::Left).unwrap();
    match reg.request_commit(ALICE, &assets) {
        CommitOutcome::Finished { participants, winner, line, png } => {
            assert_eq!(participants, (ALICE, BOB));
            assert_eq!(winner, Some(ALICE));
            assert_eq!(line, Some(3));
            assert_eq!(&png[..8], &PNG_SIGNATURE);
        }
        _ => panic!("the fifth commit must finish the match"),
    }

    // The session is gone once the terminal render is produced.
    assert_eq!(reg.session_count(), 0);
    assert!(reg.find_session(ALICE).is_none());
    assert!(matches!(reg.request_commit(ALICE, &assets), CommitOutcome::NoSession));
    assert!(reg.request_navigate(BOB, Direction::Left).is_none());
    // Both participants are free again.
    assert_eq!(reg.request_match(ALICE), MatchOutcome::Waiting);
}

fn steer(reg: &mut Registry, pid: u64, cell: usize) {
    let row = cell / 3;
    let col = cell % 3;
    if row == 0 {
        reg.request_navigate(pid, Direction::Up).unwrap();
    }
    if row == 2 {
        reg.request_navigate(pid, Direction::Down).unwrap();
    }
    if col == 0 {
        reg.request_navigate(pid, Direction::Left).unwrap();
    }
    if col == 2 {
        reg.request_navigate(pid, Direction::Right).unwrap();
    }
}

#[test]
fn draw_game_finishes_with_no_winner() {
    let assets = test_assets();
    let mut reg = Registry::new();
    reg.request_match(ALICE);
    reg.request_match(BOB);

    let moves: [(u64, usize); 9] = [
        (ALICE, 0),
        (BOB, 1),
        (ALICE, 2),
        (BOB, 4),
        (ALICE, 3),
        (BOB, 5),
        (ALICE, 7),
        (BOB, 6),
        (ALICE, 8),
    ];
    for (i, (pid, cell)) in moves.iter().enumerate() {
        steer(&mut reg, *pid, *cell);
        let outcome = reg.request_commit(*pid, &assets);
        if i + 1 < moves.len() {
            assert!(matches!(outcome, CommitOutcome::Moved));
        } else {
            match outcome {
                CommitOutcome::Finished { participants, winner, line, png } => {
                    assert_eq!(participants, (ALICE, BOB));
                    assert_eq!(winner, None);
                    assert_eq!(line, None);
                    assert_eq!(&png[..8], &PNG_SIGNATURE);
                }
                _ => panic!("the ninth commit must finish the match"),
            }
        }
    }
    assert_eq!(reg.session_count(), 0);
}

#[test]
fn removal_is_idempotent() {
    let mut reg = Registry::new();
    reg.request_match(ALICE);
    reg.request_match(BOB);
    assert_eq!(reg.session_count(), 1);
    reg.remove_session(ALICE);
    assert_eq!(reg.session_count(), 0);
    reg.remove_session(ALICE);
    assert_eq!(reg.session_count(), 0);
}
