use vstd::prelude::*;

verus! {

/// A player's secret team.
#[derive(Clone, Copy, PartialEq, Eq, Structural, Debug, Hash)]
pub enum Role {
    Crewmate,
    Impostor,
}

/// Why a match ended.
#[derive(Clone, Copy, PartialEq, Eq, Structural, Debug, Hash)]
pub enum WinReason {
    /// The shared task bar was filled.
    Tasks,
    /// Every impostor was killed or ejected.
    ImpostorsEliminated,
    /// Impostors reached parity with (or outnumbered) the crew.
    ImpostorMajority,
    /// A critical sabotage ran out its timer.
    Sabotage,
}

/// The reason line of the game-over screen.
pub open spec fn spec_win_label(reason: WinReason) -> Seq<char> {
    match reason {
        WinReason::Tasks => "All tasks completed"@,
        WinReason::ImpostorsEliminated => "All impostors eliminated"@,
        WinReason::ImpostorMajority => "Impostors took over the ship"@,
        WinReason::Sabotage => "Critical sabotage was not fixed"@,
    }
}

pub open spec fn spec_crew_win(reason: WinReason) -> bool {
    reason is Tasks || reason is ImpostorsEliminated
}

impl WinReason {
    /// True when the crew wins for this reason.
    pub fn crew_win(self) -> (r: bool)
        ensures
            r == spec_crew_win(self),
    {
        match self {
            WinReason::Tasks | WinReason::ImpostorsEliminated => true,
            WinReason::ImpostorMajority | WinReason::Sabotage => false,
        }
    }

    /// Short human-readable explanation shown on the game-over screen.
    pub fn label(self) -> (r: &'static str)
        ensures
            r@ == spec_win_label(self),
    {
        match self {
            WinReason::Tasks => "All tasks completed",
            WinReason::ImpostorsEliminated => "All impostors eliminated",
            WinReason::ImpostorMajority => "Impostors took over the ship",
            WinReason::Sabotage => "Critical sabotage was not fixed",
        }
    }
}

/// The match phase, owned by the authority.
#[derive(Clone, Copy, PartialEq, Eq, Structural, Debug, Hash)]
pub enum GamePhase {
    Idle,
    RoleReveal,
    Playing,
    Meeting,
    Voting,
    Results,
    GameOver { crew_win: bool, reason: WinReason },
}

impl Default for GamePhase {
    fn default() -> (r: Self)
        ensures
            r == GamePhase::Idle,
    {
        GamePhase::Idle
    }
}

/// Who owns the authoritative game state in this process.
#[derive(Clone, Copy, PartialEq, Eq, Structural, Debug, Hash)]
pub enum RuntimeMode {
    /// Offline sandbox: this process owns all state.
    Local,
    /// Listen server: owns all state and also plays.
    Host,
    /// Remote client: state comes from the server.
    Client,
}

impl Default for RuntimeMode {
    fn default() -> (r: Self)
        ensures
            r == RuntimeMode::Local,
    {
        RuntimeMode::Local
    }
}

impl RuntimeMode {
    /// The local process simulates the match (offline or hosting).
    pub fn has_authority(self) -> (r: bool)
        ensures
            r == (self is Local || self is Host),
    {
        match self {
            RuntimeMode::Local | RuntimeMode::Host => true,
            RuntimeMode::Client => false,
        }
    }

    /// The local process only mirrors a remote server.
    pub fn is_remote_client(self) -> (r: bool)
        ensures
            r == (self is Client),
    {
        match self {
            RuntimeMode::Client => true,
            _ => false,
        }
    }
}

/// Run condition: the mode has authority.
pub fn has_authority(mode: RuntimeMode) -> (r: bool)
    ensures
        r == (mode is Local || mode is Host),
{
    mode.has_authority()
}

/// Run condition: the mode is a remote client.
pub fn is_remote_client(mode: RuntimeMode) -> (r: bool)
    ensures
        r == (mode is Client),
{
    mode.is_remote_client()
}

} // verus!
