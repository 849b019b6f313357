use vstd::prelude::*;

use crate::roles::{GamePhase, Role};
use crate::sabotage::SabotageKind;
use crate::tasks::TaskAssignments;

verus! {

/// The vision masks around the local player.
#[derive(Clone, Copy, PartialEq, Eq, Structural, Debug)]
pub enum MaskKind {
    /// The impostors' wide view.
    Impostor,
    /// The crew's view.
    Crew,
    /// The crew's narrow view while the lights are out.
    Lights,
}

/// How a task console looks to the local player.
#[derive(Clone, Copy, PartialEq, Eq, Structural, Debug)]
pub enum StationLook {
    /// Completed by this player: greyed out.
    Done,
    /// One of its tasks (or, for an impostor, any console): lit.
    Lit,
    /// Someone else's console: dimmed.
    Dim,
}

/// The vision rule: no mask for a ghost or outside open play; impostors
/// see far; crewmates see less while the lights are sabotaged.
pub open spec fn spec_vision_mask(phase: GamePhase, ghost: bool, role: Option<Role>, sabotage: Option<SabotageKind>) -> Option<MaskKind> {
    if ghost || !(phase is Playing) {
        None
    } else if role == Some(Role::Impostor) {
        Some(MaskKind::Impostor)
    } else if role == Some(Role::Crewmate) && sabotage == Some(SabotageKind::Lights) {
        Some(MaskKind::Lights)
    } else {
        Some(MaskKind::Crew)
    }
}

/// The vision mask over the local player, or `None` when it is hidden.
pub fn vision_mask(phase: GamePhase, ghost: bool, role: Option<Role>, sabotage: Option<SabotageKind>) -> (r: Option<MaskKind>)
    ensures
        r == spec_vision_mask(phase, ghost, role, sabotage),
{
    if ghost || !(phase == GamePhase::Playing) {
        return None;
    }
    match role {
        Some(Role::Impostor) => Some(MaskKind::Impostor),
        Some(Role::Crewmate) => match sabotage {
            Some(SabotageKind::Lights) => Some(MaskKind::Lights),
            _ => Some(MaskKind::Crew),
        },
        None => Some(MaskKind::Crew),
    }
}

/// How a console looks: done ones grey, own (or, for an impostor, all)
/// consoles lit, the rest dim.
pub fn station_look(assignments: &TaskAssignments, station_id: u32, impostor: bool) -> (r: StationLook)
    ensures
        r == (if assignments.completed@.contains(station_id) {
            StationLook::Done
        } else if assignments.assigned@.contains(station_id) || impostor {
            StationLook::Lit
        } else {
            StationLook::Dim
        }),
{
    if assignments.is_done(station_id) {
        StationLook::Done
    } else if assignments.has(station_id) || impostor {
        StationLook::Lit
    } else {
        StationLook::Dim
    }
}

} // verus!
