//! One match between two participants: the turn state machine with its
//! cursor, the board, and the per-session canvas, behind move validation.

use vstd::prelude::*;

use crate::assets::{Assets, AssetsView, overlay_for, sprite_for};
use crate::board::{Board, Mark, Outcome, spec_evaluate};
use crate::canvas::{Canvas, cursor_outlined, mark_blitted, overlay_blended, template_pixels};
use crate::png::png_encoding;

verus! {

/// The two participants of a session, in mover order.
#[derive(Clone, Copy, PartialEq, Eq, Structural, Debug)]
pub enum Player {
    First,
    Second,
}

pub open spec fn other_player(p: Player) -> Player {
    match p {
        Player::First => Player::Second,
        Player::Second => Player::First,
    }
}

/// The mark a player places.
pub open spec fn mark_of(p: Player) -> Mark {
    match p {
        Player::First => Mark::First,
        Player::Second => Mark::Second,
    }
}

/// One step of cursor movement.
#[derive(Clone, Copy, PartialEq, Eq, Structural, Debug)]
pub enum Direction {
    Left,
    Right,
    Up,
    Down,
}

/// Where the cursor lands: one cell over in the given direction, clamped at
/// the grid border (a move off the grid is a no-op, not a wrap).
pub open spec fn spec_navigate(pos: int, dir: Direction) -> int {
    match dir {
        Direction::Left => if pos % 3 == 0 {
            pos
        } else {
            pos - 1
        },
        Direction::Right => if pos % 3 == 2 {
            pos
        } else {
            pos + 1
        },
        Direction::Up => if pos < 3 {
            pos
        } else {
            pos - 3
        },
        Direction::Down => if pos >= 6 {
            pos
        } else {
            pos + 3
        },
    }
}

/// Law: from every cursor position, navigation in every direction lands on
/// the adjacent cell of the 3x3 grid in that direction, or stays put
/// exactly when the move would leave the grid.
pub proof fn lemma_navigate_adjacent_or_clamped(pos: int, dir: Direction)
    requires
        0 <= pos < 9,
    ensures
        0 <= spec_navigate(pos, dir) < 9,
        ({
            let row = pos / 3;
            let col = pos % 3;
            let q = spec_navigate(pos, dir);
            match dir {
                Direction::Left => if col == 0 {
                    q == pos
                } else {
                    q / 3 == row && q % 3 == col - 1
                },
                Direction::Right => if col == 2 {
                    q == pos
                } else {
                    q / 3 == row && q % 3 == col + 1
                },
                Direction::Up => if row == 0 {
                    q == pos
                } else {
                    q / 3 == row - 1 && q % 3 == col
                },
                Direction::Down => if row == 2 {
                    q == pos
                } else {
                    q / 3 == row + 1 && q % 3 == col
                },
            }
        }),
{
}

/// State of the turn machine: someone is on turn, or the match has ended.
#[derive(Clone, Copy, PartialEq, Eq, Structural, Debug)]
pub enum Status {
    Playing(Player),
    Won(Player, u8),
    Drawn,
}

/// What a commit request did to the session.
#[derive(Clone, Copy, PartialEq, Eq, Structural, Debug)]
pub enum CommitResult {
    /// Off-turn requester, finished match or occupied cell: a pure no-op.
    Ignored,
    /// The mark was placed and the turn passed to the other participant.
    Moved,
    /// The mark was placed and completed the given line.
    Won(Player, u8),
    /// The mark was placed and filled the board with no line complete.
    Drawn,
}

/// Ghost image of a session.
pub struct SessionView {
    pub first_id: u64,
    pub second_id: u64,
    pub status: Status,
    pub cursor: int,
    pub board: Seq<Mark>,
    pub canvas: Seq<u8>,
}

pub open spec fn player_id(s: SessionView, p: Player) -> u64 {
    match p {
        Player::First => s.first_id,
        Player::Second => s.second_id,
    }
}

/// The participant whose turn it is (or was, in a finished session).
pub open spec fn active_of(s: SessionView) -> Player {
    match s.status {
        Status::Playing(p) => p,
        Status::Won(p, _) => p,
        Status::Drawn => Player::First,
    }
}

/// A commit takes effect only for the participant on turn, aimed at an
/// empty cell, while the match is still running.
pub open spec fn commit_allowed(s: SessionView, pid: u64) -> bool {
    match s.status {
        Status::Playing(p) => pid == player_id(s, p) && s.board[s.cursor] == Mark::Empty,
        _ => false,
    }
}

/// The full transition of a commit request: a disallowed request changes
/// nothing; an allowed one bakes the mover's sprite into the canvas, places
/// the mark, and either ends the match or flips the turn and recentres the
/// cursor.
pub open spec fn spec_commit(s: SessionView, pid: u64, a: AssetsView) -> (SessionView, CommitResult) {
    if !commit_allowed(s, pid) {
        (s, CommitResult::Ignored)
    } else {
        let p = active_of(s);
        let board = s.board.update(s.cursor, mark_of(p));
        let canvas = mark_blitted(s.canvas, s.cursor, sprite_for(a, p));
        match spec_evaluate(board) {
            Outcome::Line(_, id) => (
                SessionView { status: Status::Won(p, id), board, canvas, ..s },
                CommitResult::Won(p, id),
            ),
            Outcome::Draw => (
                SessionView { status: Status::Drawn, board, canvas, ..s },
                CommitResult::Drawn,
            ),
            Outcome::Ongoing => (
                SessionView {
                    status: Status::Playing(other_player(p)),
                    cursor: 4,
                    board,
                    canvas,
                    ..s
                },
                CommitResult::Moved,
            ),
        }
    }
}

/// Law: a commit by the participant not on turn never changes the session
/// (board, status, cursor or canvas), whatever the board holds.
pub proof fn lemma_off_turn_commit_unchanged(s: SessionView, pid: u64, a: AssetsView)
    requires
        s.status is Playing,
        pid != player_id(s, active_of(s)),
    ensures
        spec_commit(s, pid, a).0 == s,
        spec_commit(s, pid, a).1 == CommitResult::Ignored,
{
}

/// Law: after a commit that leaves the match running, the cursor is back at
/// the centre cell and the turn belongs to the other participant, whatever
/// the cursor held before.
pub proof fn lemma_commit_flips_turn(s: SessionView, pid: u64, a: AssetsView)
    requires
        commit_allowed(s, pid),
        spec_evaluate(s.board.update(s.cursor, mark_of(active_of(s)))) == Outcome::Ongoing,
    ensures
        spec_commit(s, pid, a).0.cursor == 4,
        spec_commit(s, pid, a).0.status == Status::Playing(other_player(active_of(s))),
        spec_commit(s, pid, a).1 == CommitResult::Moved,
{
}

/// Law: a cell that already holds a mark still holds the same mark after
/// any commit request: marks are irrevocable for the life of the session.
pub proof fn lemma_marks_are_permanent(s: SessionView, pid: u64, a: AssetsView, cell: int)
    requires
        wf_view(s),
        0 <= cell < 9,
        s.board[cell] != Mark::Empty,
    ensures
        spec_commit(s, pid, a).0.board[cell] == s.board[cell],
{
    if commit_allowed(s, pid) {
        // An allowed commit aims at an empty cell, so not at this one.
        assert(s.cursor != cell);
    }
}

/// Which of the five controls are offered to the participant on turn:
/// a direction is enabled unless the cursor sits on that border, and commit
/// is enabled exactly on an empty cell.
#[derive(Clone, Copy, PartialEq, Eq, Structural, Debug)]
pub struct Affordances {
    pub left: bool,
    pub right: bool,
    pub up: bool,
    pub down: bool,
    pub commit: bool,
}

pub open spec fn spec_affordances(s: SessionView) -> Affordances {
    Affordances {
        left: s.cursor % 3 != 0,
        right: s.cursor % 3 != 2,
        up: s.cursor >= 3,
        down: s.cursor < 6,
        commit: s.board[s.cursor] == Mark::Empty,
    }
}

/// What the participant on turn is shown: the canvas with the selection
/// outline, and the control states.
pub struct TurnPrompt {
    pub png: Vec<u8>,
    pub controls: Affordances,
}

/// One live match: participants in mover order, turn state, cursor, board
/// and the persisted canvas with all committed marks baked in.
pub struct Session {
    first_id: u64,
    second_id: u64,
    status: Status,
    cursor: usize,
    board: Board,
    canvas: Canvas,
}

impl View for Session {
    type V = SessionView;

    closed spec fn view(&self) -> SessionView {
        SessionView {
            first_id: self.first_id,
            second_id: self.second_id,
            status: self.status,
            cursor: self.cursor as int,
            board: self.board@,
            canvas: self.canvas@,
        }
    }
}

pub open spec fn wf_view(s: SessionView) -> bool {
    &&& s.first_id != s.second_id
    &&& 0 <= s.cursor < 9
    &&& s.board.len() == 9
    &&& s.canvas.len() == 270000
    &&& (match s.status {
        Status::Won(_, id) => id < 8,
        _ => true,
    })
}

impl Session {
    pub open spec fn wf(&self) -> bool {
        wf_view(self@)
    }

    /// A fresh match: the challenge's opener moves first, the cursor starts
    /// at the centre cell, the board is empty and the canvas is the
    /// empty-board template.
    pub fn new(first_id: u64, second_id: u64) -> (s: Session)
        requires
            first_id != second_id,
        ensures
            s.wf(),
            s@ == (SessionView {
                first_id,
                second_id,
                status: Status::Playing(Player::First),
                cursor: 4,
                board: crate::board::empty_board(),
                canvas: template_pixels(),
            }),
    {
        Session {
            first_id,
            second_id,
            status: Status::Playing(Player::First),
            cursor: 4,
            board: Board::new(),
            canvas: Canvas::new_board(),
        }
    }

    pub fn first_participant(&self) -> (r: u64)
        ensures
            r == self@.first_id,
    {
        self.first_id
    }

    pub fn second_participant(&self) -> (r: u64)
        ensures
            r == self@.second_id,
    {
        self.second_id
    }

    /// The participant a prompt is owed to, while the match runs.
    pub fn active_participant(&self) -> (r: Option<u64>)
        ensures
            self@.status is Playing ==> r == Some(player_id(self@, active_of(self@))),
            !(self@.status is Playing) ==> r is None,
    {
        match self.status {
            Status::Playing(Player::First) => Some(self.first_id),
            Status::Playing(Player::Second) => Some(self.second_id),
            _ => None,
        }
    }

    pub fn status(&self) -> (r: Status)
        ensures
            r == self@.status,
    {
        self.status
    }

    pub fn cursor(&self) -> (r: usize)
        ensures
            r == self@.cursor,
    {
        self.cursor
    }

    pub fn mark_at(&self, cell: usize) -> (r: Mark)
        requires
            self.wf(),
            cell < 9,
        ensures
            r == self@.board[cell as int],
    {
        self.board.get(cell)
    }

    /// `pid` is one of the two participants of this session.
    pub fn involves(&self, pid: u64) -> (r: bool)
        ensures
            r == (pid == self@.first_id || pid == self@.second_id),
    {
        self.first_id == pid || self.second_id == pid
    }

    /// Move the cursor one cell, clamped at the grid border; always
    /// permitted, and nothing but the cursor changes.
    pub fn navigate(&mut self, dir: Direction)
        requires
            old(self).wf(),
        ensures
            final(self).wf(),
            final(self)@ == (SessionView {
                cursor: spec_navigate(old(self)@.cursor, dir),
                ..old(self)@
            }),
    {
        match dir {
            Direction::Left => if self.cursor % 3 != 0 {
                self.cursor -= 1;
            },
            Direction::Right => if self.cursor % 3 != 2 {
                self.cursor += 1;
            },
            Direction::Up => if self.cursor >= 3 {
                self.cursor -= 3;
            },
            Direction::Down => if self.cursor < 6 {
                self.cursor += 3;
            },
        }
    }

    /// Apply a commit request from `pid`: exactly the `spec_commit`
    /// transition. Off-turn requesters, finished matches and occupied cells
    /// are absorbed as no-ops; otherwise the mark is placed irrevocably,
    /// the sprite is baked into the canvas, and the board is re-evaluated.
    pub fn commit(&mut self, pid: u64, assets: &Assets) -> (r: CommitResult)
        requires
            old(self).wf(),
            assets.wf(),
        ensures
            final(self).wf(),
            final(self)@ == spec_commit(old(self)@, pid, assets@).0,
            r == spec_commit(old(self)@, pid, assets@).1,
    {
        let active = match self.status {
            Status::Playing(p) => p,
            _ => {
                return CommitResult::Ignored;
            },
        };
        let active_id = match active {
            Player::First => self.first_id,
            Player::Second => self.second_id,
        };
        if pid != active_id {
            return CommitResult::Ignored;
        }
        let mark = match active {
            Player::First => Mark::First,
            Player::Second => Mark::Second,
        };
        // The board re-validates the cell even though the commit control is
        // disabled on an occupied cell.
        if self.board.apply(self.cursor, mark).is_err() {
            return CommitResult::Ignored;
        }
        self.canvas.blit_mark(self.cursor, assets.sprite_of(active));
        match self.board.evaluate() {
            Outcome::Line(_, id) => {
                self.status = Status::Won(active, id);
                CommitResult::Won(active, id)
            },
            Outcome::Draw => {
                self.status = Status::Drawn;
                CommitResult::Drawn
            },
            Outcome::Ongoing => {
                self.status = Status::Playing(match active {
                    Player::First => Player::Second,
                    Player::Second => Player::First,
                });
                self.cursor = 4;
                CommitResult::Moved
            },
        }
    }

    /// The render for the participant on turn: the persisted canvas with
    /// the selection outline composited on a throwaway copy, plus the
    /// control states. The persisted canvas is not touched.
    pub fn render_turn_prompt(&self) -> (r: TurnPrompt)
        requires
            self.wf(),
        ensures
            r.png@ == png_encoding(cursor_outlined(self@.canvas, self@.cursor)),
            r.controls == spec_affordances(self@),
    {
        let outlined = self.canvas.with_cursor_outline(self.cursor);
        let controls = Affordances {
            left: self.cursor % 3 != 0,
            right: self.cursor % 3 != 2,
            up: self.cursor >= 3,
            down: self.cursor < 6,
            commit: matches!(self.board.get(self.cursor), Mark::Empty),
        };
        TurnPrompt { png: outlined.to_png(), controls }
    }

    /// The render for the participant waiting for their turn: the persisted
    /// canvas as it stands, with every control disabled.
    pub fn render_waiting(&self) -> (r: Vec<u8>)
        requires
            self.wf(),
        ensures
            r@ == png_encoding(self@.canvas),
    {
        self.canvas.to_png()
    }

    /// The terminal render: after a win, the matching strike overlay is
    /// blended over a copy of the canvas; after a draw the canvas stands as
    /// it is.
    pub fn render_final(&self, assets: &Assets) -> (r: Vec<u8>)
        requires
            self.wf(),
            assets.wf(),
            !(self@.status is Playing),
        ensures
            self@.status matches Status::Won(_, id) ==> r@ == png_encoding(
                overlay_blended(self@.canvas, overlay_for(assets@, id as int), id as int),
            ),
            self@.status is Drawn ==> r@ == png_encoding(self@.canvas),
    {
        match self.status {
            Status::Won(_, id) => {
                let mut shown = self.canvas.duplicate();
                shown.blend_overlay(assets.overlay_of(id), id);
                shown.to_png()
            },
            _ => self.canvas.to_png(),
        }
    }
}

} // verus!
