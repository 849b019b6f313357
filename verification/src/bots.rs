use vstd::prelude::*;

use crate::chance::{random_index, random_ratio};
use crate::roles::{GamePhase, Role};
use crate::sabotage::SabotageKind;

verus! {

/// What an offline bot attends to this frame (the steering towards a
/// target is done by the movement code).
#[derive(Clone, Copy, PartialEq, Eq, Structural, Debug)]
pub enum BotFocus {
    /// Outside open play: stand still.
    Stop,
    /// Next to an unreported body: stand still, and report it once.
    Report { send: bool },
    /// A crewmate goes to repair the sabotage in progress.
    FixSabotage,
    /// Work on (or, as an impostor, loiter at) tasks.
    Tasks,
}

/// What a bot remembers between frames.
#[derive(Clone, Copy, PartialEq, Eq, Structural, Debug)]
pub struct BotMemory {
    /// The body next to it was already reported by it.
    pub reported_this_body: bool,
}

/// The focus rule of a living bot: outside open play it stops; next to an
/// unreported body it stays and reports it once; a crewmate repairs an
/// active sabotage while a repair station of it is unfinished; otherwise it
/// goes about the tasks.
pub open spec fn spec_bot_focus(
    reported_before: bool,
    playing: bool,
    near_unreported_body: bool,
    role: Role,
    sabotage: Option<SabotageKind>,
    fix_station_left: bool,
) -> BotFocus {
    if !playing {
        BotFocus::Stop
    } else if near_unreported_body {
        BotFocus::Report { send: !reported_before }
    } else if role is Crewmate && sabotage is Some && fix_station_left {
        BotFocus::FixSabotage
    } else {
        BotFocus::Tasks
    }
}

impl BotMemory {
    pub fn new() -> (r: Self)
        ensures
            !r.reported_this_body,
    {
        BotMemory { reported_this_body: false }
    }

    /// Chooses this frame's focus and updates the report latch: it is set
    /// next to a body and cleared away from one.
    pub fn focus(
        &mut self,
        playing: bool,
        near_unreported_body: bool,
        role: Role,
        sabotage: Option<SabotageKind>,
        fix_station_left: bool,
    ) -> (f: BotFocus)
        ensures
            f == spec_bot_focus(old(self).reported_this_body, playing, near_unreported_body, role, sabotage, fix_station_left),
            final(self).reported_this_body == if !playing { old(self).reported_this_body } else { near_unreported_body },
    {
        if !playing {
            return BotFocus::Stop;
        }
        if near_unreported_body {
            let send = !self.reported_this_body;
            self.reported_this_body = true;
            return BotFocus::Report { send };
        }
        self.reported_this_body = false;
        match (role, sabotage) {
            (Role::Crewmate, Some(_)) => {
                if fix_station_left {
                    BotFocus::FixSabotage
                } else {
                    BotFocus::Tasks
                }
            },
            _ => BotFocus::Tasks,
        }
    }
}

/// The sabotage kinds, in the order a bot draws them from.
pub open spec fn spec_sabotage_at(index: int) -> SabotageKind {
    if index == 0 { SabotageKind::Lights } else if index == 1 { SabotageKind::Oxygen } else { SabotageKind::Reactor }
}

/// The sabotage kind at a drawn index (0, 1 or 2).
pub fn sabotage_at(index: usize) -> (k: SabotageKind)
    ensures
        k == spec_sabotage_at(index as int),
{
    if index == 0 {
        SabotageKind::Lights
    } else if index == 1 {
        SabotageKind::Oxygen
    } else {
        SabotageKind::Reactor
    }
}

/// Whether an impostor bot may try a sabotage this frame: a living impostor
/// bot, with no sabotage in progress, the cooldown over and its action tick
/// due.
pub open spec fn bot_may_sabotage(role: Role, sabotage_active: bool, cooldown_ready: bool, action_due: bool) -> bool {
    role is Impostor && !sabotage_active && cooldown_ready && action_due
}

/// An impostor bot's sabotage attempt: when allowed, it tries with chance
/// 2 in 25 and then picks one of the three kinds at random.
pub fn bot_sabotage_attempt(role: Role, sabotage_active: bool, cooldown_ready: bool, action_due: bool) -> (r: Option<SabotageKind>)
    ensures
        r is Some ==> bot_may_sabotage(role, sabotage_active, cooldown_ready, action_due),
{
    if !(role == Role::Impostor) || sabotage_active || !cooldown_ready || !action_due {
        return None;
    }
    if !random_ratio(2, 25) {
        return None;
    }
    Some(sabotage_at(random_index(3)))
}

/// A dead bot keeps working only as a crewmate, and only in open play.
pub fn ghost_bot_works(phase: GamePhase, role: Role) -> (r: bool)
    ensures
        r == (phase is Playing && role is Crewmate),
{
    phase == GamePhase::Playing && role == Role::Crewmate
}

/// The hint shown to the local player, by priority: a living player next
/// to an unreported body, at a repair station of the sabotage in progress,
/// or at the emergency button; anyone (ghosts too) at a task station.
/// Nothing outside open play.
pub open spec fn spec_local_prompt(
    playing: bool,
    alive: bool,
    near_body: bool,
    near_fix: bool,
    near_button: bool,
    near_task: bool,
) -> Seq<char> {
    if !playing {
        ""@
    } else if alive && near_body {
        "R - Report body"@
    } else if alive && near_fix {
        "E - Hold to fix"@
    } else if alive && near_button {
        "F - Emergency meeting"@
    } else if near_task {
        "E - Hold to work"@
    } else {
        ""@
    }
}

/// The interaction hint for the local player.
pub fn local_prompt(playing: bool, alive: bool, near_body: bool, near_fix: bool, near_button: bool, near_task: bool) -> (r: &'static str)
    ensures
        r@ == spec_local_prompt(playing, alive, near_body, near_fix, near_button, near_task),
{
    proof {
        reveal_strlit("");
        reveal_strlit("R - Report body");
        reveal_strlit("E - Hold to fix");
        reveal_strlit("F - Emergency meeting");
        reveal_strlit("E - Hold to work");
    }
    if !playing {
        ""
    } else if alive && near_body {
        "R - Report body"
    } else if alive && near_fix {
        "E - Hold to fix"
    } else if alive && near_button {
        "F - Emergency meeting"
    } else if near_task {
        "E - Hold to work"
    } else {
        ""
    }
}

} // verus!
