//! The set of live sessions plus the single pending-challenge slot, with
//! the matchmaking rule that a participant is in at most one of them.

use vstd::prelude::*;

use crate::assets::{Assets, AssetsView, overlay_for};
use crate::board::empty_board;
use crate::canvas::{cursor_outlined, overlay_blended, template_pixels};
use crate::png::png_encoding;
use crate::session::{
    CommitResult, Direction, Player, Session, SessionView, Status, TurnPrompt, active_of,
    other_player, player_id, spec_affordances, spec_commit, spec_navigate,
};

verus! {

/// Answer to a new-match request.
#[derive(Clone, Copy, PartialEq, Eq, Structural, Debug)]
pub enum MatchOutcome {
    /// The requester already waits in the pending slot or plays in a live
    /// session; nothing changes.
    AlreadyInGame,
    /// The slot was empty: the requester now waits in it.
    Waiting,
    /// The requester joined the waiting challenger: the slot was consumed
    /// and a fresh session registered, the challenger moving first.
    Started,
}

/// Answer to a commit request routed through the registry.
pub enum CommitOutcome {
    /// No live session involves the requester.
    NoSession,
    /// The session absorbed the request as a no-op.
    Ignored,
    /// The mark was placed and the match goes on.
    Moved,
    /// The match ended: the terminal render to deliver to the two
    /// participants, the winner's identity (or nobody for a draw) and the
    /// winning line; the session is gone from the registry.
    Finished { participants: (u64, u64), winner: Option<u64>, line: Option<u8>, png: Vec<u8> },
}

/// Everything the caller needs to prompt both sides of a running session:
/// whose turn it is, the prompt for that participant, and the plain canvas
/// for the one waiting.
pub struct SessionPrompts {
    pub active_id: u64,
    pub waiting_id: u64,
    pub prompt: TurnPrompt,
    pub waiting_png: Vec<u8>,
}

pub open spec fn view_involves(s: SessionView, pid: u64) -> bool {
    pid == s.first_id || pid == s.second_id
}

/// All live sessions and the optional pending challenger.
pub struct Registry {
    pending: Option<u64>,
    sessions: Vec<Session>,
}

impl Registry {
    /// The identity waiting in the pending-challenge slot, if any.
    pub closed spec fn pending_slot(&self) -> Option<u64> {
        self.pending
    }

    /// The live sessions, in registration order, as ghost session states.
    pub closed spec fn sessions_view(&self) -> Seq<SessionView> {
        self.sessions@.map_values(|s: Session| s@)
    }

    /// `pid` plays in some live session.
    pub open spec fn in_any_session(&self, pid: u64) -> bool {
        exists|i: int|
            0 <= i < self.sessions_view().len() && view_involves(
                #[trigger] self.sessions_view()[i],
                pid,
            )
    }

    /// `pid` occupies the pending slot or plays in a live session.
    pub open spec fn participant_busy(&self, pid: u64) -> bool {
        self.pending_slot() == Some(pid) || self.in_any_session(pid)
    }

    /// Every live session is well-formed and still running, no participant
    /// appears in two places, and the pending challenger is in no session.
    pub open spec fn wf(&self) -> bool {
        &&& forall|i: int|
            0 <= i < self.sessions_view().len() ==> crate::session::wf_view(
                #[trigger] self.sessions_view()[i],
            ) && self.sessions_view()[i].status is Playing
        &&& forall|i: int, j: int|
            #![trigger self.sessions_view()[i], self.sessions_view()[j]]
            0 <= i < j < self.sessions_view().len() ==> !view_involves(
                self.sessions_view()[j],
                self.sessions_view()[i].first_id,
            ) && !view_involves(self.sessions_view()[j], self.sessions_view()[i].second_id)
        &&& match self.pending_slot() {
            Some(p) => forall|i: int|
                0 <= i < self.sessions_view().len() ==> !view_involves(
                    #[trigger] self.sessions_view()[i],
                    p,
                ),
            None => true,
        }
    }

    /// An empty registry: no pending challenge, no live session.
    pub fn new() -> (r: Registry)
        ensures
            r.wf(),
            r.pending_slot() is None,
            r.sessions_view().len() == 0,
    {
        Registry { pending: None, sessions: Vec::new() }
    }

    /// The identity waiting in the pending slot, if any.
    pub fn pending_participant(&self) -> (r: Option<u64>)
        ensures
            r == self.pending_slot(),
    {
        self.pending
    }

    /// How many matches are live.
    pub fn session_count(&self) -> (r: usize)
        ensures
            r == self.sessions_view().len(),
    {
        self.sessions.len()
    }

    /// Index of the live session `pid` plays in, or nothing. With a
    /// well-formed registry the session is unique.
    pub fn find_session(&self, pid: u64) -> (r: Option<usize>)
        ensures
            match r {
                Some(i) => i < self.sessions_view().len() && view_involves(
                    self.sessions_view()[i as int],
                    pid,
                ),
                None => !self.in_any_session(pid),
            },
    {
        let mut i: usize = 0;
        while i < self.sessions.len()
            invariant
                i <= self.sessions@.len(),
                forall|j: int|
                    0 <= j < i ==> !view_involves(#[trigger] self.sessions_view()[j], pid),
            decreases self.sessions@.len() - i,
        {
            if self.sessions[i].involves(pid) {
                return Some(i);
            }
            i += 1;
        }
        None
    }

    /// Handle a new-match request: a busy participant is refused and
    /// nothing changes; with the slot free the requester starts waiting in
    /// it; with someone else waiting, the slot is consumed and a fresh
    /// session is registered, the erstwhile waiter moving first.
    pub fn request_match(&mut self, pid: u64) -> (r: MatchOutcome)
        requires
            old(self).wf(),
        ensures
            final(self).wf(),
            old(self).participant_busy(pid) ==> final(self).pending_slot() == old(self).pending_slot() && final(self).sessions_view() == old(self).sessions_view() && r
                == MatchOutcome::AlreadyInGame,
            !old(self).participant_busy(pid) ==> match old(self).pending_slot() {
                None => final(self).pending_slot() == Some(pid) && final(self).sessions_view()
                    == old(self).sessions_view() && r == MatchOutcome::Waiting,
                Some(q) => final(self).pending_slot() is None && final(self).sessions_view()
                    == old(self).sessions_view().push(
                    SessionView {
                        first_id: q,
                        second_id: pid,
                        status: Status::Playing(Player::First),
                        cursor: 4,
                        board: empty_board(),
                        canvas: template_pixels(),
                    },
                ) && r == MatchOutcome::Started,
            },
    {
        if let Some(p) = self.pending {
            if p == pid {
                return MatchOutcome::AlreadyInGame;
            }
        }
        let mut i: usize = 0;
        while i < self.sessions.len()
            invariant
                self == old(self),
                self.wf(),
                self.pending_slot() != Some(pid),
                i <= self.sessions@.len(),
                forall|j: int|
                    0 <= j < i ==> !view_involves(#[trigger] self.sessions_view()[j], pid),
            decreases self.sessions@.len() - i,
        {
            if self.sessions[i].involves(pid) {
                proof {
                    assert(view_involves(self.sessions_view()[i as int], pid));
                }
                return MatchOutcome::AlreadyInGame;
            }
            i += 1;
        }
        match self.pending {
            Some(q) => {
                self.pending = None;
                let fresh = Session::new(q, pid);
                self.sessions.push(fresh);
                proof {
                    assert(self.sessions_view() =~= old(self).sessions_view().push(fresh@));
                }
                MatchOutcome::Started
            },
            None => {
                self.pending = Some(pid);
                MatchOutcome::Waiting
            },
        }
    }

    /// Move the cursor of the requester's session; with no such session
    /// this is a no-op. The new prompt for the participant on turn is
    /// returned.
    pub fn request_navigate(&mut self, pid: u64, dir: Direction) -> (r: Option<TurnPrompt>)
        requires
            old(self).wf(),
        ensures
            final(self).wf(),
            final(self).pending_slot() == old(self).pending_slot(),
            !old(self).in_any_session(pid) ==> final(self).sessions_view() == old(self).sessions_view() && r is None,
            old(self).in_any_session(pid) ==> (exists|i: int|
                #![trigger old(self).sessions_view()[i]]
                {
                    let pre = old(self).sessions_view();
                    let s2 = SessionView { cursor: spec_navigate(pre[i].cursor, dir), ..pre[i] };
                    &&& 0 <= i < pre.len()
                    &&& view_involves(pre[i], pid)
                    &&& final(self).sessions_view() == pre.update(i, s2)
                    &&& (r matches Some(p) && p.png@ == png_encoding(
                        cursor_outlined(s2.canvas, s2.cursor),
                    ) && p.controls == spec_affordances(s2))
                }),
    {
        let idx = match self.find_session(pid) {
            Some(i) => i,
            None => {
                return None;
            },
        };
        let ghost pre = self.sessions_view();
        let s = &mut self.sessions[idx];
        s.navigate(dir);
        let prompt = s.render_turn_prompt();
        proof {
            assert(self.sessions_view() =~= pre.update(
                idx as int,
                SessionView { cursor: spec_navigate(pre[idx as int].cursor, dir), ..pre[idx as int] },
            ));
        }
        Some(prompt)
    }

    /// Route a commit request to the requester's session. A finished match
    /// is rendered with its strike overlay, reported, and its session
    /// removed from the registry; an absorbed request changes nothing.
    pub fn request_commit(&mut self, pid: u64, assets: &Assets) -> (r: CommitOutcome)
        requires
            old(self).wf(),
            assets.wf(),
        ensures
            final(self).wf(),
            final(self).pending_slot() == old(self).pending_slot(),
            !old(self).in_any_session(pid) ==> final(self).sessions_view() == old(self).sessions_view() && r is NoSession,
            old(self).in_any_session(pid) ==> (exists|i: int|
                #![trigger old(self).sessions_view()[i]]
                {
                    let pre = old(self).sessions_view();
                    let step = spec_commit(pre[i], pid, assets@);
                    &&& 0 <= i < pre.len()
                    &&& view_involves(pre[i], pid)
                    &&& match step.1 {
                        CommitResult::Ignored => final(self).sessions_view() == pre && r
                            is Ignored,
                        CommitResult::Moved => final(self).sessions_view() == pre.update(i, step.0)
                            && r is Moved,
                        CommitResult::Won(p, id) => final(self).sessions_view() == pre.remove(i)
                            && (r matches CommitOutcome::Finished { participants, winner, line, png }
                            && participants == (pre[i].first_id, pre[i].second_id)
                            && winner == Some(player_id(pre[i], p)) && line == Some(id) && png@
                            == png_encoding(
                            overlay_blended(step.0.canvas, overlay_for(assets@, id as int), id as int),
                        )),
                        CommitResult::Drawn => final(self).sessions_view() == pre.remove(i) && (
                        r matches CommitOutcome::Finished { participants, winner, line, png }
                            && participants == (pre[i].first_id, pre[i].second_id) && winner is None
                            && line is None && png@ == png_encoding(step.0.canvas)),
                    }
                }),
    {
        let idx = match self.find_session(pid) {
            Some(i) => i,
            None => {
                return CommitOutcome::NoSession;
            },
        };
        let ghost pre = self.sessions_view();
        let s = &mut self.sessions[idx];
        let res = s.commit(pid, assets);
        match res {
            CommitResult::Ignored => {
                proof {
                    assert(self.sessions_view() =~= pre);
                }
                CommitOutcome::Ignored
            },
            CommitResult::Moved => {
                proof {
                    assert(self.sessions_view() =~= pre.update(
                        idx as int,
                        spec_commit(pre[idx as int], pid, assets@).0,
                    ));
                }
                CommitOutcome::Moved
            },
            CommitResult::Won(p, id) => {
                let first = self.sessions[idx].first_participant();
                let second = self.sessions[idx].second_participant();
                let winner_id = match p {
                    Player::First => first,
                    Player::Second => second,
                };
                let png = self.sessions[idx].render_final(assets);
                self.sessions.remove(idx);
                proof {
                    assert(self.sessions_view() =~= pre.remove(idx as int));
                }
                CommitOutcome::Finished {
                    participants: (first, second),
                    winner: Some(winner_id),
                    line: Some(id),
                    png,
                }
            },
            CommitResult::Drawn => {
                let first = self.sessions[idx].first_participant();
                let second = self.sessions[idx].second_participant();
                let png = self.sessions[idx].render_final(assets);
                self.sessions.remove(idx);
                proof {
                    assert(self.sessions_view() =~= pre.remove(idx as int));
                }
                CommitOutcome::Finished {
                    participants: (first, second),
                    winner: None,
                    line: None,
                    png,
                }
            },
        }
    }

    /// Remove the live session `pid` plays in, if any; removing an already
    /// gone session is a harmless no-op.
    pub fn remove_session(&mut self, pid: u64)
        requires
            old(self).wf(),
        ensures
            final(self).wf(),
            final(self).pending_slot() == old(self).pending_slot(),
            !old(self).in_any_session(pid) ==> final(self).sessions_view() == old(self).sessions_view(),
            old(self).in_any_session(pid) ==> (exists|i: int|
                0 <= i < old(self).sessions_view().len() && view_involves(
                    old(self).sessions_view()[i],
                    pid,
                ) && final(self).sessions_view() == old(self).sessions_view().remove(i)),
    {
        let ghost pre = self.sessions_view();
        if let Some(idx) = self.find_session(pid) {
            self.sessions.remove(idx);
            proof {
                assert(self.sessions_view() =~= pre.remove(idx as int));
            }
        }
    }

    /// The prompts owed for the requester's running session: the turn
    /// prompt for the participant on turn and the plain canvas for the
    /// other. Nothing changes.
    pub fn render_session(&self, pid: u64) -> (r: Option<SessionPrompts>)
        requires
            self.wf(),
        ensures
            !self.in_any_session(pid) ==> r is None,
            self.in_any_session(pid) ==> (exists|i: int|
                #![trigger self.sessions_view()[i]]
                {
                    let s = self.sessions_view()[i];
                    &&& 0 <= i < self.sessions_view().len()
                    &&& view_involves(s, pid)
                    &&& (r matches Some(p) && p.active_id == player_id(s, active_of(s))
                        && p.waiting_id == player_id(s, other_player(active_of(s))) && p.prompt.png@
                        == png_encoding(cursor_outlined(s.canvas, s.cursor)) && p.prompt.controls
                        == spec_affordances(s) && p.waiting_png@ == png_encoding(s.canvas))
                }),
    {
        let idx = match self.find_session(pid) {
            Some(i) => i,
            None => {
                return None;
            },
        };
        let s = &self.sessions[idx];
        let prompt = s.render_turn_prompt();
        let waiting_png = s.render_waiting();
        let (active_id, waiting_id) = match s.active_participant() {
            Some(a) => (
                a,
                if a == s.first_participant() {
                    s.second_participant()
                } else {
                    s.first_participant()
                },
            ),
            None => vstd::pervasive::unreached(),
        };
        Some(SessionPrompts { active_id, waiting_id, prompt, waiting_png })
    }
}

} // verus!
