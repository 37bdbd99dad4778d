use tictactoe_engine::assets::Assets;
use tictactoe_engine::board::Mark;
use tictactoe_engine::session::{CommitResult, Direction, Player, Session, Status};

const FIRST: u64 = 11;
const SECOND: u64 = 22;

fn test_assets() -> Assets {
    Assets::new(
        vec![1; 19200],
        vec![2; 19200],
        vec![0; 360000],
        vec![0; 360000],
        vec![0; 360000],
        vec![0; 360000],
    )
}

/// Steer the cursor from the centre to `cell`.
fn steer(s: &mut Session, cell: usize) {
    let row = cell / 3;
    let col = cell % 3;
    if row == 0 {
        s.navigate(Direction::Up);
    }
    if row == 2 {
        s.navigate(Direction::Down);
    }
    if col == 0 {
        s.navigate(Direction::Left);
    }
    if col == 2 {
        s.navigate(Direction::Right);
    }
    assert_eq!(s.cursor(), cell);
}

fn commit_at(s: &mut Session, pid: u64, cell: usize) -> CommitResult {
    let assets = test_assets();
    steer(s, cell);
    let r = s.commit(pid, &assets);
    r
}

#[test]
fn navigate_all_position_direction_pairs() {
    for pos in 0..9usize {
        for dir in [Direction::Left, Direction::Right, Direction::Up, Direction::Down] {
            let mut s = Session::new(FIRST, SECOND);
            steer(&mut s, pos);
            s.navigate(dir);
            let expected = match dir {
                Direction::Left => {
                    if pos % 3 == 0 {
                        pos
                    } else {
                        pos - 1
                    }
                }
                Direction::Right => {
                    if pos % 3 == 2 {
                        pos
                    } else {
                        pos + 1
                    }
                }
                Direction::Up => {
                    if pos < 3 {
                        pos
                    } else {
                        pos - 3
                    }
                }
                Direction::Down => {
                    if pos >= 6 {
                        pos
                    } else {
                        pos + 3
                    }
                }
            };
            assert_eq!(s.cursor(), expected, "pos {} dir {:?}", pos, dir);
        }
    }
}

#[test]
fn off_turn_commit_is_a_pure_noop() {
    let assets = test_assets();
    let mut s = Session::new(FIRST, SECOND);
    steer(&mut s, 0);

    // The second mover is not on turn; neither is a stranger.
    assert_eq!(s.commit(SECOND, &assets), CommitResult::Ignored);
    assert_eq!(s.commit(999, &assets), CommitResult::Ignored);

    assert_eq!(s.status(), Status::Playing(Player::First));
    assert_eq!(s.cursor(), 0);
    for cell in 0..9 {
        assert_eq!(s.mark_at(cell), Mark::Empty);
    }
}

#[test]
fn nonterminal_commit_recentres_cursor_and_flips_turn() {
    let assets = test_assets();
    let mut s = Session::new(FIRST, SECOND);
    steer(&mut s, 8);
    assert_eq!(s.commit(FIRST, &assets), CommitResult::Moved);
    assert_eq!(s.cursor(), 4);
    assert_eq!(s.status(), Status::Playing(Player::Second));
    assert_eq!(s.mark_at(8), Mark::First);

    // And back again after the second mover's commit, from another cell.
    steer(&mut s, 2);
    assert_eq!(s.commit(SECOND, &assets), CommitResult::Moved);
    assert_eq!(s.cursor(), 4);
    assert_eq!(s.status(), Status::Playing(Player::First));
    assert_eq!(s.mark_at(2), Mark::Second);
}

#[test]
fn commit_on_occupied_cell_is_ignored() {
    let assets = test_assets();
    let mut s = Session::new(FIRST, SECOND);
    assert_eq!(s.commit(FIRST, &assets), CommitResult::Moved);
    // The second mover's cursor starts on the centre cell, now taken.
    assert_eq!(s.cursor(), 4);
    assert_eq!(s.commit(SECOND, &assets), CommitResult::Ignored);
    assert_eq!(s.status(), Status::Playing(Player::Second));
    assert_eq!(s.mark_at(4), Mark::First);
}

#[test]
fn left_column_win_ends_the_session() {
    let mut s = Session::new(FIRST, SECOND);
    assert_eq!(commit_at(&mut s, FIRST, 0), CommitResult::Moved);
    assert_eq!(commit_at(&mut s, SECOND, 1), CommitResult::Moved);
    assert_eq!(commit_at(&mut s, FIRST, 3), CommitResult::Moved);
    assert_eq!(commit_at(&mut s, SECOND, 4), CommitResult::Moved);
    assert_eq!(commit_at(&mut s, FIRST, 6), CommitResult::Won(Player::First, 3));
    assert_eq!(s.status(), Status::Won(Player::First, 3));

    // A finished session absorbs any further commit.
    let assets = test_assets();
    assert_eq!(s.commit(FIRST, &assets), CommitResult::Ignored);
    assert_eq!(s.commit(SECOND, &assets), CommitResult::Ignored);
}

#[test]
fn filling_the_board_without_line_draws() {
    let mut s = Session::new(FIRST, SECOND);
    let moves: [(u64, usize); 9] = [
        (FIRST, 0),
        (SECOND, 1),
        (FIRST, 2),
        (SECOND, 4),
        (FIRST, 3),
        (SECOND, 5),
        (FIRST, 7),
        (SECOND, 6),
        (FIRST, 8),
    ];
    for (i, (pid, cell)) in moves.iter().enumerate() {
        let r = commit_at(&mut s, *pid, *cell);
        if i + 1 < moves.len() {
            assert_eq!(r, CommitResult::Moved);
        } else {
            assert_eq!(r, CommitResult::Drawn);
        }
    }
    assert_eq!(s.status(), Status::Drawn);
}

#[test]
fn turn_prompt_controls_follow_cursor_and_board() {
    let assets = test_assets();
    let mut s = Session::new(FIRST, SECOND);

    let centre = s.render_turn_prompt();
    assert!(centre.controls.left);
    assert!(centre.controls.right);
    assert!(centre.controls.up);
    assert!(centre.controls.down);
    assert!(centre.controls.commit);

    steer(&mut s, 0);
    let corner = s.render_turn_prompt();
    assert!(!corner.controls.left);
    assert!(corner.controls.right);
    assert!(!corner.controls.up);
    assert!(corner.controls.down);

    // Put a mark on the centre and look at it with the cursor: commit off.
    let mut t = Session::new(FIRST, SECOND);
    assert_eq!(t.commit(FIRST, &assets), CommitResult::Moved);
    let occupied = t.render_turn_prompt();
    assert!(!occupied.controls.commit);
}
