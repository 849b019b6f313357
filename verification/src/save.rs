use vstd::prelude::*;

verus! {

/// Current on-disk save format.
pub const SAVE_VERSION: u32 = 1;

/// Number of selectable player colors.
pub const PLAYER_COLOR_COUNT: u8 = 12;

/// Persistent player profile and lifetime statistics.
#[derive(Clone, PartialEq, Eq, Debug)]
pub struct SaveData {
    pub version: u32,
    pub player_name: String,
    pub preferred_color_index: u8,
    pub games_played: u32,
    pub crew_wins: u32,
    pub impostor_wins: u32,
}

impl SaveData {
    /// The profile written on first launch.
    pub fn new_default() -> (r: Self)
        ensures
            r.version == SAVE_VERSION,
            r.player_name@ == "Agent"@,
            r.preferred_color_index == 0,
            r.games_played == 0,
            r.crew_wins == 0,
            r.impostor_wins == 0,
    {
        SaveData {
            version: SAVE_VERSION,
            player_name: String::from_str("Agent"),
            preferred_color_index: 0,
            games_played: 0,
            crew_wins: 0,
            impostor_wins: 0,
        }
    }

    /// Stored format version.
    pub fn version(&self) -> (r: u32)
        ensures
            r == self.version,
    {
        self.version
    }

    /// Stamps the stored format version.
    pub fn set_version(&mut self, version: u32)
        ensures
            *final(self) == (SaveData { version, ..*old(self) }),
    {
        self.version = version;
    }

    /// Steps the preferred color to the next one, wrapping after the last.
    pub fn cycle_color(&mut self)
        requires
            old(self).preferred_color_index < 255,
        ensures
            final(self).preferred_color_index == (old(self).preferred_color_index + 1) % (PLAYER_COLOR_COUNT as int),
            *final(self) == (SaveData { preferred_color_index: final(self).preferred_color_index, ..*old(self) }),
    {
        self.preferred_color_index = (self.preferred_color_index + 1) % PLAYER_COLOR_COUNT;
    }
}

impl Default for SaveData {
    fn default() -> (r: Self)
        ensures
            r.version == SAVE_VERSION,
            r.player_name@ == "Agent"@,
            r.preferred_color_index == 0,
            r.games_played == 0,
            r.crew_wins == 0,
            r.impostor_wins == 0,
    {
        SaveData::new_default()
    }
}

} // verus!
