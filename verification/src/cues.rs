use vstd::prelude::*;

use crate::roles::GamePhase;
use crate::sabotage::SabotageKind;

verus! {

/// The sound cues of the match.
#[derive(Clone, Copy, PartialEq, Eq, Structural, Debug)]
pub enum Cue {
    RoleReveal,
    Meeting,
    Voting,
    Results,
    CrewWin,
    ImpostorWin,
    Lights,
    SabotageStart,
    TaskDone,
    Vote,
    Chat,
}

/// What the cue logic saw last frame.
#[derive(Clone, Copy, PartialEq, Eq, Structural, Debug)]
pub struct CueMemory {
    pub phase: Option<GamePhase>,
    pub sabotage_kind: Option<SabotageKind>,
    pub task_completed: u32,
    pub votes_len: usize,
    pub local_voted: bool,
    pub chat_len: usize,
}

/// The cue of entering a phase, if it has one.
pub open spec fn spec_phase_cue(phase: GamePhase) -> Option<Cue> {
    match phase {
        GamePhase::RoleReveal => Some(Cue::RoleReveal),
        GamePhase::Meeting => Some(Cue::Meeting),
        GamePhase::Voting => Some(Cue::Voting),
        GamePhase::Results => Some(Cue::Results),
        GamePhase::GameOver { crew_win, .. } => if crew_win { Some(Cue::CrewWin) } else { Some(Cue::ImpostorWin) },
        _ => None,
    }
}

/// The cue of a sabotage starting.
pub open spec fn spec_sabotage_cue(kind: SabotageKind) -> Cue {
    if kind is Lights { Cue::Lights } else { Cue::SabotageStart }
}

impl CueMemory {
    pub fn new() -> (r: Self)
        ensures
            r == (CueMemory { phase: None, sabotage_kind: None, task_completed: 0, votes_len: 0, local_voted: false, chat_len: 0 }),
    {
        CueMemory { phase: None, sabotage_kind: None, task_completed: 0, votes_len: 0, local_voted: false, chat_len: 0 }
    }

    /// A phase change plays the new phase's cue (once per change).
    pub fn phase_cue(&mut self, phase: GamePhase) -> (r: Option<Cue>)
        ensures
            old(self).phase == Some(phase) ==> r is None && *final(self) == *old(self),
            old(self).phase != Some(phase) ==> r == spec_phase_cue(phase) && *final(self) == (CueMemory { phase: Some(phase), ..*old(self) }),
    {
        if self.phase == Some(phase) {
            return None;
        }
        self.phase = Some(phase);
        match phase {
            GamePhase::RoleReveal => Some(Cue::RoleReveal),
            GamePhase::Meeting => Some(Cue::Meeting),
            GamePhase::Voting => Some(Cue::Voting),
            GamePhase::Results => Some(Cue::Results),
            GamePhase::GameOver { crew_win, .. } => if crew_win { Some(Cue::CrewWin) } else { Some(Cue::ImpostorWin) },
            _ => None,
        }
    }

    /// A new sabotage plays its start cue.
    pub fn sabotage_cue(&mut self, kind: Option<SabotageKind>) -> (r: Option<Cue>)
        ensures
            old(self).sabotage_kind == kind ==> r is None && *final(self) == *old(self),
            old(self).sabotage_kind != kind ==> *final(self) == (CueMemory { sabotage_kind: kind, ..*old(self) })
                && r == (match kind { Some(k) => Some(spec_sabotage_cue(k)), None => None }),
    {
        if self.sabotage_kind == kind {
            return None;
        }
        self.sabotage_kind = kind;
        match kind {
            Some(SabotageKind::Lights) => Some(Cue::Lights),
            Some(_) => Some(Cue::SabotageStart),
            None => None,
        }
    }

    /// More completed tasks than last frame play the task cue.
    pub fn task_cue(&mut self, completed: u32) -> (r: Option<Cue>)
        ensures
            r == (if completed > old(self).task_completed { Some(Cue::TaskDone) } else { None }),
            *final(self) == (CueMemory { task_completed: completed, ..*old(self) }),
    {
        let r = if completed > self.task_completed { Some(Cue::TaskDone) } else { None };
        self.task_completed = completed;
        r
    }

    /// The local vote going in, or any new vote, plays the vote cue.
    pub fn vote_cue(&mut self, votes_len: usize, local_voted: bool) -> (r: Option<Cue>)
        ensures
            r == (if (!old(self).local_voted && local_voted) || votes_len > old(self).votes_len { Some(Cue::Vote) } else { None }),
            *final(self) == (CueMemory { votes_len, local_voted, ..*old(self) }),
    {
        let r = if (!self.local_voted && local_voted) || votes_len > self.votes_len { Some(Cue::Vote) } else { None };
        self.votes_len = votes_len;
        self.local_voted = local_voted;
        r
    }

    /// A new chat line plays the chat cue.
    pub fn chat_cue(&mut self, chat_len: usize) -> (r: Option<Cue>)
        ensures
            r == (if chat_len > old(self).chat_len { Some(Cue::Chat) } else { None }),
            *final(self) == (CueMemory { chat_len, ..*old(self) }),
    {
        let r = if chat_len > self.chat_len { Some(Cue::Chat) } else { None };
        self.chat_len = chat_len;
        r
    }
}

} // verus!
