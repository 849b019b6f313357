use vstd::prelude::*;

use crate::lobby::{LobbyState, first_local};
use crate::roles::{GamePhase, RuntimeMode};
use crate::save::{PLAYER_COLOR_COUNT, SaveData};

verus! {

/// Address a listen server binds, and that a local client joins.
pub open spec fn local_server_address() -> Seq<char> {
    "127.0.0.1:5000"@
}

/// The local listen address, as text.
pub fn local_server_address_text() -> (r: &'static str)
    ensures
        r@ == local_server_address(),
{
    proof {
        reveal_strlit("127.0.0.1:5000");
    }
    "127.0.0.1:5000"
}

/// The screens of the application.
#[derive(Clone, Copy, PartialEq, Eq, Structural, Debug, Hash)]
pub enum AppState {
    Splash,
    Loading,
    Title,
    Lobby,
    InGame,
}

/// The overlay shown above the current screen.
#[derive(Clone, Copy, PartialEq, Eq, Structural, Debug, Hash)]
pub enum OverlayMenu {
    Hidden,
    Settings,
    Credits,
    Pause,
}

/// The network session to start once loading is done.
#[derive(Clone, PartialEq, Eq, Debug)]
pub enum PendingNetworkStart {
    Offline,
    HostLocal { bind_addr: String },
    JoinLocal { server_addr: String },
}

/// A meeting command from the local player's buttons.
#[derive(Clone, Copy, PartialEq, Eq, Structural, Debug)]
pub enum LocalCommand {
    Emergency,
    Vote { target: u64 },
    Skip,
}

/// Buttons of the menus and the HUD (the volume sliders are handled with
/// the audio settings).
#[derive(Clone, PartialEq, Eq, Debug)]
pub enum UiAction {
    PlayOffline,
    HostLobby,
    JoinLobby,
    ToggleReady,
    StartMatch,
    LeaveLobby,
    CallEmergency,
    CastVote(u64),
    SkipVote,
    PlayAgain,
    CycleColor,
    OpenSettings,
    OpenCredits,
    CloseOverlay,
    TogglePause,
    Resume,
    QuitToTitle,
    QuitApp,
    SaveSettings,
    SetLanguage(String),
}

/// Pause, overlay and session choices of the application shell.
#[derive(Clone, PartialEq, Eq, Debug)]
pub struct MenuState {
    pub paused: bool,
    pub overlay: OverlayMenu,
    /// A short delay runs before play resumes.
    pub unpause_pending: bool,
    pub mode: RuntimeMode,
    pub pending_network: PendingNetworkStart,
    /// The language in use, and the one saved in the settings.
    pub language: String,
    pub saved_language: String,
    pub available_languages: Vec<String>,
}

/// What the shell must do after an action, besides the state change.
#[derive(Clone, PartialEq, Eq, Debug)]
pub struct MenuEffects {
    /// Start a screen transition.
    pub transition: Option<AppState>,
    pub start_match: bool,
    pub meeting: Option<LocalCommand>,
    pub exit: bool,
    /// Persist the profile (after the settings are saved).
    pub persist_save: bool,
    /// Store the current audio and language settings in the profile.
    pub store_settings: bool,
    pub pause_clock: bool,
    pub unpause_clock: bool,
}

/// Nothing to do.
pub open spec fn no_effects() -> MenuEffects {
    MenuEffects {
        transition: None,
        start_match: false,
        meeting: None,
        exit: false,
        persist_save: false,
        store_settings: false,
        pause_clock: false,
        unpause_clock: false,
    }
}

fn quiet() -> (r: MenuEffects)
    ensures
        r == no_effects(),
{
    MenuEffects {
        transition: None,
        start_match: false,
        meeting: None,
        exit: false,
        persist_save: false,
        store_settings: false,
        pause_clock: false,
        unpause_clock: false,
    }
}

/// The menu state after pausing from open play.
pub open spec fn paused_state(m: MenuState) -> MenuState {
    MenuState { paused: true, overlay: OverlayMenu::Pause, unpause_pending: false, ..m }
}

/// The menu state after asking to resume: the overlay closes and play
/// resumes after a short delay.
pub open spec fn resuming_state(m: MenuState) -> MenuState {
    MenuState { overlay: OverlayMenu::Hidden, unpause_pending: true, ..m }
}

/// Where closing the settings or credits leads: back to the pause menu
/// when paused, else nowhere.
pub open spec fn after_panel(paused: bool) -> OverlayMenu {
    if paused { OverlayMenu::Pause } else { OverlayMenu::Hidden }
}

/// Whether the language is one of the available ones.
pub open spec fn language_available(langs: Seq<String>, lang: Seq<char>) -> bool {
    exists|i: int| 0 <= i < langs.len() && langs[i]@ == lang
}

fn string_in(list: &Vec<String>, s: &String) -> (r: bool)
    ensures
        r == language_available(list@, s@),
{
    let mut i: usize = 0;
    while i < list.len()
        invariant
            i <= list@.len(),
            forall|j: int| 0 <= j < i ==> list@[j]@ != s@,
        decreases list@.len() - i,
    {
        if list[i] == *s {
            assert(list@[i as int]@ == s@);
            return true;
        }
        i = i + 1;
    }
    false
}

/// The texts of one language, keyed by text id. Each key occurs once: a
/// second text for a key replaces the first.
pub struct Translations {
    entries: Vec<(String, String)>,
}

/// No key occurs twice.
pub open spec fn distinct_keys(s: Seq<(String, String)>) -> bool {
    forall|i: int, j: int| 0 <= i < j < s.len() ==> s[i].0@ != s[j].0@
}

/// The map from key to text that a list of entries spells out.
pub open spec fn entries_map(s: Seq<(String, String)>) -> Map<Seq<char>, Seq<char>>
    decreases s.len(),
{
    if s.len() == 0 {
        Map::empty()
    } else {
        entries_map(s.drop_last()).insert(s.last().0@, s.last().1@)
    }
}

proof fn lemma_entries_map(s: Seq<(String, String)>)
    ensures
        forall|k: Seq<char>| #[trigger] entries_map(s).contains_key(k) <==> exists|i: int| 0 <= i < s.len() && s[i].0@ == k,
        distinct_keys(s) ==> forall|i: int| 0 <= i < s.len() ==> #[trigger] entries_map(s)[s[i].0@] == s[i].1@,
    decreases s.len(),
{
    if s.len() > 0 {
        let t = s.drop_last();
        lemma_entries_map(t);
        assert forall|k: Seq<char>| #[trigger] entries_map(s).contains_key(k) implies exists|i: int| 0 <= i < s.len() && s[i].0@ == k by {
            if k != s.last().0@ {
                assert(entries_map(t).contains_key(k));
                let i = choose|i: int| 0 <= i < t.len() && t[i].0@ == k;
                assert(s[i] == t[i]);
            }
        }
        assert forall|k: Seq<char>| (exists|i: int| 0 <= i < s.len() && s[i].0@ == k) implies #[trigger] entries_map(s).contains_key(k) by {
            let i = choose|i: int| 0 <= i < s.len() && s[i].0@ == k;
            if i < s.len() - 1 {
                assert(t[i] == s[i]);
                assert(t[i].0@ == k);
                assert(entries_map(t).contains_key(k));
            }
        }
        if distinct_keys(s) {
            assert forall|i: int| 0 <= i < s.len() implies #[trigger] entries_map(s)[s[i].0@] == s[i].1@ by {
                if i < s.len() - 1 {
                    assert(t[i] == s[i]);
                    assert(s[i].0@ != s[s.len() - 1].0@);
                    assert(distinct_keys(t)) by {
                        assert forall|a: int, b: int| 0 <= a < b < t.len() implies t[a].0@ != t[b].0@ by {
                            assert(t[a] == s[a] && t[b] == s[b]);
                        }
                    }
                    assert(entries_map(t)[t[i].0@] == t[i].1@);
                }
            }
        }
    }
}

proof fn lemma_entries_map_update(s: Seq<(String, String)>, i: int, e: (String, String))
    requires
        distinct_keys(s),
        0 <= i < s.len(),
        e.0@ == s[i].0@,
    ensures
        distinct_keys(s.update(i, e)),
        entries_map(s.update(i, e)) == entries_map(s).insert(e.0@, e.1@),
{
    let u = s.update(i, e);
    assert forall|a: int, b: int| 0 <= a < b < u.len() implies u[a].0@ != u[b].0@ by {
        assert(s[a].0@ != s[b].0@);
    }
    lemma_entries_map(s);
    lemma_entries_map(u);
    assert forall|k: Seq<char>| #[trigger] entries_map(u).contains_key(k) <==> entries_map(s).insert(e.0@, e.1@).contains_key(k) by {
        if entries_map(u).contains_key(k) {
            let j = choose|j: int| 0 <= j < u.len() && u[j].0@ == k;
            assert(s[j].0@ == k);
        }
        if entries_map(s).contains_key(k) {
            let j = choose|j: int| 0 <= j < s.len() && s[j].0@ == k;
            assert(u[j].0@ == k);
        }
        if k == e.0@ {
            assert(u[i].0@ == k);
        }
    }
    assert forall|k: Seq<char>| #[trigger] entries_map(u).contains_key(k) implies entries_map(u)[k] == entries_map(s).insert(e.0@, e.1@)[k] by {
        let j = choose|j: int| 0 <= j < u.len() && u[j].0@ == k;
        assert(entries_map(u)[u[j].0@] == u[j].1@);
        if j != i {
            assert(entries_map(s)[s[j].0@] == s[j].1@);
        }
    }
    assert(entries_map(u) =~= entries_map(s).insert(e.0@, e.1@));
}

impl View for Translations {
    type V = Map<Seq<char>, Seq<char>>;

    closed spec fn view(&self) -> Map<Seq<char>, Seq<char>> {
        entries_map(self.entries@)
    }
}

impl Translations {
    #[verifier::type_invariant]
    spec fn keys_unique(self) -> bool {
        distinct_keys(self.entries@)
    }

    /// No texts: every lookup falls back.
    pub fn new() -> (r: Self)
        ensures
            r@ == Map::<Seq<char>, Seq<char>>::empty(),
    {
        Translations { entries: Vec::new() }
    }

    /// Sets the text of `key`, replacing the one it had.
    pub fn insert(&mut self, key: String, value: String)
        ensures
            final(self)@ == old(self)@.insert(key@, value@),
    {
        proof {
            use_type_invariant(&*self);
        }
        let mut entries: Vec<(String, String)> = Vec::new();
        std::mem::swap(&mut entries, &mut self.entries);
        let ghost before = entries@;
        assert(before == old(self).entries@);
        let mut i: usize = 0;
        while i < entries.len()
            invariant
                entries@ == before,
                before == old(self).entries@,
                distinct_keys(before),
                i <= before.len(),
                forall|j: int| 0 <= j < i ==> before[j].0@ != key@,
            decreases before.len() - i,
        {
            if entries[i].0 == key {
                proof {
                    lemma_entries_map_update(before, i as int, (key, value));
                }
                entries.set(i, (key, value));
                self.entries = entries;
                return;
            }
            i = i + 1;
        }
        entries.push((key, value));
        proof {
            assert(entries@.drop_last() =~= before);
            assert forall|a: int, b: int| 0 <= a < b < entries@.len() implies entries@[a].0@ != entries@[b].0@ by {
                if b < before.len() {
                    assert(before[a].0@ != before[b].0@);
                }
            }
        }
        self.entries = entries;
    }
}

/// The translation of `key`, or the fallback text when there is none.
pub open spec fn lookup(translations: Map<Seq<char>, Seq<char>>, key: Seq<char>, fallback: Seq<char>) -> Seq<char> {
    if translations.contains_key(key) {
        translations[key]
    } else {
        fallback
    }
}

/// Looks up a user-interface text in the current translations.
pub fn t(translations: &Translations, key: &str, fallback: &str) -> (r: String)
    ensures
        r@ == lookup(translations@, key@, fallback@),
{
    proof {
        use_type_invariant(translations);
        lemma_entries_map(translations.entries@);
    }
    let k = String::from_str(key);
    let mut i: usize = 0;
    while i < translations.entries.len()
        invariant
            i <= translations.entries@.len(),
            k@ == key@,
            distinct_keys(translations.entries@),
            forall|j: int| 0 <= j < i ==> translations.entries@[j].0@ != key@,
        decreases translations.entries@.len() - i,
    {
        if translations.entries[i].0 == k {
            proof {
                let s = translations.entries@;
                lemma_entries_map(s);
                assert(s[i as int].0@ == key@);
                assert(entries_map(s).contains_key(s[i as int].0@));
                assert(entries_map(s)[s[i as int].0@] == s[i as int].1@);
            }
            return translations.entries[i].1.clone();
        }
        i = i + 1;
    }
    proof {
        if entries_map(translations.entries@).contains_key(key@) {
            let j = choose|j: int| 0 <= j < translations.entries@.len() && translations.entries@[j].0@ == key@;
            assert(translations.entries@[j].0@ != key@);
        }
    }
    String::from_str(fallback)
}

impl MenuState {
    /// The shell at start-up: offline, nothing open.
    pub fn new(language: String, available_languages: Vec<String>) -> (r: Self)
        ensures
            !r.paused,
            r.overlay == OverlayMenu::Hidden,
            !r.unpause_pending,
            r.mode == RuntimeMode::Local,
            r.pending_network == PendingNetworkStart::Offline,
            r.language == language,
            r.saved_language@ == language@,
            r.available_languages == available_languages,
    {
        let saved = language.clone();
        MenuState {
            paused: false,
            overlay: OverlayMenu::Hidden,
            unpause_pending: false,
            mode: RuntimeMode::Local,
            pending_network: PendingNetworkStart::Offline,
            language,
            saved_language: saved,
            available_languages,
        }
    }

    /// The saved language is put in use when it is one of the available ones.
    pub fn apply_saved_language(&mut self, saved: &String)
        ensures
            language_available(old(self).available_languages@, saved@) ==> *final(self) == (MenuState { language: final(self).language, ..*old(self) })
                && final(self).language@ == saved@,
            !language_available(old(self).available_languages@, saved@) ==> *final(self) == *old(self),
    {
        if string_in(&self.available_languages, saved) {
            self.language = saved.clone();
        }
    }

    /// The short resume delay ran out: play continues.
    pub fn finish_unpause(&mut self) -> (fx: MenuEffects)
        ensures
            old(self).unpause_pending ==> *final(self) == (MenuState { paused: false, unpause_pending: false, ..*old(self) })
                && fx == (MenuEffects { unpause_clock: true, ..no_effects() }),
            !old(self).unpause_pending ==> *final(self) == *old(self) && fx == no_effects(),
    {
        if !self.unpause_pending {
            return quiet();
        }
        self.unpause_pending = false;
        self.paused = false;
        MenuEffects { unpause_clock: true, ..quiet() }
    }

    /// The Escape key in game (when no transition blocks input): pauses
    /// open play, resumes from the pause menu, and backs out of the
    /// settings or credits.
    pub fn handle_pause_key(&mut self, in_game: bool, input_blocked: bool, escape_pressed: bool) -> (fx: MenuEffects)
        ensures
            !in_game || input_blocked || !escape_pressed ==> *final(self) == *old(self) && fx == no_effects(),
            in_game && !input_blocked && escape_pressed ==> {
                &&& old(self).overlay is Hidden && !old(self).paused ==> *final(self) == paused_state(*old(self))
                    && fx == (MenuEffects { pause_clock: true, ..no_effects() })
                &&& old(self).overlay is Hidden && old(self).paused ==> *final(self) == *old(self) && fx == no_effects()
                &&& old(self).overlay is Pause ==> *final(self) == resuming_state(*old(self)) && fx == no_effects()
                &&& (old(self).overlay is Settings || old(self).overlay is Credits)
                    ==> *final(self) == (MenuState { overlay: after_panel(old(self).paused), ..*old(self) }) && fx == no_effects()
            },
    {
        if !in_game || input_blocked || !escape_pressed {
            return quiet();
        }
        match self.overlay {
            OverlayMenu::Hidden => {
                if !self.paused {
                    self.paused = true;
                    self.overlay = OverlayMenu::Pause;
                    self.unpause_pending = false;
                    return MenuEffects { pause_clock: true, ..quiet() };
                }
                quiet()
            },
            OverlayMenu::Pause => {
                self.overlay = OverlayMenu::Hidden;
                self.unpause_pending = true;
                quiet()
            },
            _ => {
                self.overlay = if self.paused { OverlayMenu::Pause } else { OverlayMenu::Hidden };
                quiet()
            },
        }
    }

    /// Applies one button press of the menus or the HUD.
    pub fn apply_action(
        &mut self,
        action: UiAction,
        lobby: &mut LobbyState,
        phase: &mut GamePhase,
        save: &mut SaveData,
    ) -> (fx: MenuEffects)
        requires
            action is CycleColor ==> old(save).preferred_color_index < 255,
        ensures
            action is HostLobby ==> *final(self) == (MenuState {
                mode: RuntimeMode::Host,
                pending_network: PendingNetworkStart::HostLocal { bind_addr: final(self).pending_network->bind_addr },
                ..*old(self)
            }) && final(self).pending_network->bind_addr@ == local_server_address()
                && fx == (MenuEffects { transition: Some(AppState::Loading), ..no_effects() }),
            action is JoinLobby ==> *final(self) == (MenuState {
                mode: RuntimeMode::Client,
                pending_network: PendingNetworkStart::JoinLocal { server_addr: final(self).pending_network->server_addr },
                ..*old(self)
            }) && final(self).pending_network->server_addr@ == local_server_address()
                && fx == (MenuEffects { transition: Some(AppState::Loading), ..no_effects() }),
            action is ToggleReady ==> *final(self) == *old(self) && fx == no_effects()
                && final(lobby).local_ready == !old(lobby).local_ready
                && (first_local(old(lobby).slots@) >= 0 ==> final(lobby).slots@ == old(lobby).slots@.update(
                    first_local(old(lobby).slots@),
                    crate::lobby::LobbySlot { ready: !old(lobby).local_ready, ..old(lobby).slots@[first_local(old(lobby).slots@)] }))
                && (first_local(old(lobby).slots@) < 0 ==> final(lobby).slots@ == old(lobby).slots@),
            action is StartMatch ==> *final(self) == *old(self) && fx == (MenuEffects { start_match: true, ..no_effects() }),
            action is LeaveLobby ==> *final(self) == (MenuState { mode: RuntimeMode::Local, pending_network: PendingNetworkStart::Offline, ..*old(self) })
                && fx == (MenuEffects { transition: Some(AppState::Title), ..no_effects() }),
            action is CallEmergency ==> *final(self) == *old(self) && fx == (MenuEffects { meeting: Some(LocalCommand::Emergency), ..no_effects() }),
            action matches UiAction::CastVote(id) ==> *final(self) == *old(self)
                && fx == (MenuEffects { meeting: Some(LocalCommand::Vote { target: id }), ..no_effects() }),
            action is SkipVote ==> *final(self) == *old(self) && fx == (MenuEffects { meeting: Some(LocalCommand::Skip), ..no_effects() }),
            action is PlayAgain ==> *final(self) == *old(self) && *final(phase) == GamePhase::Idle
                && fx == (MenuEffects { transition: Some(AppState::Lobby), ..no_effects() }),
            !(action is PlayAgain) ==> *final(phase) == *old(phase),
            action is CycleColor ==> *final(self) == *old(self)
                && final(save).preferred_color_index == (old(save).preferred_color_index + 1) % (PLAYER_COLOR_COUNT as int)
                && final(save).player_name == old(save).player_name
                && final(save).games_played == old(save).games_played
                && (first_local(old(lobby).slots@) >= 0 ==> final(lobby).slots@ == old(lobby).slots@.update(
                    first_local(old(lobby).slots@),
                    crate::lobby::LobbySlot { color_index: final(save).preferred_color_index, ..old(lobby).slots@[first_local(old(lobby).slots@)] }))
                && (first_local(old(lobby).slots@) < 0 ==> final(lobby).slots@ == old(lobby).slots@)
                && fx == no_effects(),
            !(action is CycleColor) ==> *final(save) == *old(save),
            !(action is CycleColor || action is ToggleReady) ==> *final(lobby) == *old(lobby),
            action is OpenSettings ==> *final(self) == (MenuState { overlay: OverlayMenu::Settings, saved_language: final(self).saved_language, ..*old(self) })
                && final(self).saved_language@ == old(self).language@ && fx == no_effects(),
            action is OpenCredits ==> *final(self) == (MenuState { overlay: OverlayMenu::Credits, ..*old(self) }) && fx == no_effects(),
            action is TogglePause ==> fx == (MenuEffects { pause_clock: !old(self).paused, ..no_effects() })
                && (!old(self).paused ==> *final(self) == paused_state(*old(self)))
                && (old(self).paused ==> *final(self) == resuming_state(*old(self))),
            action is CloseOverlay ==> fx == no_effects()
                && final(self).language@ == (if old(self).overlay is Settings { old(self).saved_language@ } else { old(self).language@ })
                && final(self).paused == old(self).paused
                && final(self).mode == old(self).mode
                && final(self).pending_network == old(self).pending_network
                && final(self).saved_language == old(self).saved_language
                && final(self).available_languages == old(self).available_languages
                && ((old(self).overlay is Settings || old(self).overlay is Credits) && old(self).paused ==> final(self).overlay == OverlayMenu::Pause
                    && final(self).unpause_pending == old(self).unpause_pending)
                && (old(self).overlay is Pause && old(self).paused ==> final(self).overlay == OverlayMenu::Hidden && final(self).unpause_pending)
                && (!old(self).paused ==> final(self).overlay == OverlayMenu::Hidden && final(self).unpause_pending == old(self).unpause_pending)
                && (old(self).overlay is Hidden ==> final(self).overlay == OverlayMenu::Hidden && final(self).unpause_pending == old(self).unpause_pending),
            action is Resume ==> *final(self) == resuming_state(*old(self)) && fx == no_effects(),
            action is QuitToTitle ==> *final(self) == (MenuState {
                paused: false,
                overlay: OverlayMenu::Hidden,
                unpause_pending: false,
                mode: RuntimeMode::Local,
                pending_network: PendingNetworkStart::Offline,
                ..*old(self)
            }) && fx == (MenuEffects { transition: Some(AppState::Title), unpause_clock: true, ..no_effects() }),
            action is QuitApp ==> *final(self) == *old(self) && fx == (MenuEffects { exit: true, ..no_effects() }),
            action is SaveSettings ==> *final(self) == (MenuState { overlay: after_panel(old(self).paused), saved_language: final(self).saved_language, ..*old(self) })
                && final(self).saved_language@ == old(self).language@
                && fx == (MenuEffects { store_settings: true, persist_save: true, ..no_effects() }),
            action matches UiAction::SetLanguage(lang) ==> fx == no_effects()
                && (language_available(old(self).available_languages@, lang@) ==> *final(self) == (MenuState { language: lang, ..*old(self) }))
                && (!language_available(old(self).available_languages@, lang@) ==> *final(self) == *old(self)),
            action is PlayOffline ==> *final(self) == *old(self) && fx == no_effects(),
    {
        match action {
            UiAction::HostLobby => {
                self.mode = RuntimeMode::Host;
                self.pending_network = PendingNetworkStart::HostLocal { bind_addr: String::from_str("127.0.0.1:5000") };
                proof {
                    reveal_strlit("127.0.0.1:5000");
                }
                MenuEffects { transition: Some(AppState::Loading), ..quiet() }
            },
            UiAction::JoinLobby => {
                self.mode = RuntimeMode::Client;
                self.pending_network = PendingNetworkStart::JoinLocal { server_addr: String::from_str("127.0.0.1:5000") };
                proof {
                    reveal_strlit("127.0.0.1:5000");
                }
                MenuEffects { transition: Some(AppState::Loading), ..quiet() }
            },
            UiAction::ToggleReady => {
                lobby.toggle_local_ready();
                quiet()
            },
            UiAction::StartMatch => MenuEffects { start_match: true, ..quiet() },
            UiAction::LeaveLobby => {
                self.pending_network = PendingNetworkStart::Offline;
                self.mode = RuntimeMode::Local;
                MenuEffects { transition: Some(AppState::Title), ..quiet() }
            },
            UiAction::CallEmergency => MenuEffects { meeting: Some(LocalCommand::Emergency), ..quiet() },
            UiAction::CastVote(id) => MenuEffects { meeting: Some(LocalCommand::Vote { target: id }), ..quiet() },
            UiAction::SkipVote => MenuEffects { meeting: Some(LocalCommand::Skip), ..quiet() },
            UiAction::PlayAgain => {
                *phase = GamePhase::Idle;
                MenuEffects { transition: Some(AppState::Lobby), ..quiet() }
            },
            UiAction::CycleColor => {
                save.cycle_color();
                lobby.set_local_color(save.preferred_color_index);
                quiet()
            },
            UiAction::OpenSettings => {
                self.saved_language = self.language.clone();
                self.overlay = OverlayMenu::Settings;
                quiet()
            },
            UiAction::OpenCredits => {
                self.overlay = OverlayMenu::Credits;
                quiet()
            },
            UiAction::TogglePause => {
                if !self.paused {
                    self.paused = true;
                    self.overlay = OverlayMenu::Pause;
                    self.unpause_pending = false;
                    MenuEffects { pause_clock: true, ..quiet() }
                } else {
                    self.overlay = OverlayMenu::Hidden;
                    self.unpause_pending = true;
                    quiet()
                }
            },
            UiAction::CloseOverlay => {
                if self.overlay == OverlayMenu::Settings {
                    self.language = self.saved_language.clone();
                }
                match self.overlay {
                    OverlayMenu::Settings | OverlayMenu::Credits => {
                        self.overlay = if self.paused { OverlayMenu::Pause } else { OverlayMenu::Hidden };
                    },
                    OverlayMenu::Pause => {
                        if self.paused {
                            self.overlay = OverlayMenu::Hidden;
                            self.unpause_pending = true;
                        } else {
                            self.overlay = OverlayMenu::Hidden;
                        }
                    },
                    OverlayMenu::Hidden => {},
                }
                quiet()
            },
            UiAction::Resume => {
                self.overlay = OverlayMenu::Hidden;
                self.unpause_pending = true;
                quiet()
            },
            UiAction::QuitToTitle => {
                self.pending_network = PendingNetworkStart::Offline;
                self.mode = RuntimeMode::Local;
                self.paused = false;
                self.overlay = OverlayMenu::Hidden;
                self.unpause_pending = false;
                MenuEffects { transition: Some(AppState::Title), unpause_clock: true, ..quiet() }
            },
            UiAction::QuitApp => MenuEffects { exit: true, ..quiet() },
            UiAction::SaveSettings => {
                self.saved_language = self.language.clone();
                self.overlay = if self.paused { OverlayMenu::Pause } else { OverlayMenu::Hidden };
                MenuEffects { store_settings: true, persist_save: true, ..quiet() }
            },
            UiAction::SetLanguage(lang) => {
                if string_in(&self.available_languages, &lang) {
                    self.language = lang;
                }
                quiet()
            },
            UiAction::PlayOffline => quiet(),
        }
    }
}

/// Stages of a screen fade.
#[derive(Clone, Copy, PartialEq, Eq, Structural, Debug)]
pub enum TransitionPhase {
    Idle,
    Covering,
    Uncovering,
}

/// A fade between screens: it covers the screen, switches to the pending
/// screen, then uncovers it. (Its progress runs on the frame clock.)
#[derive(Clone, Copy, PartialEq, Eq, Structural, Debug)]
pub struct ScreenTransition {
    pub active: bool,
    pub phase: TransitionPhase,
    pub pending_state: Option<AppState>,
}

impl ScreenTransition {
    pub fn new() -> (r: Self)
        ensures
            r == (ScreenTransition { active: false, phase: TransitionPhase::Idle, pending_state: None }),
    {
        ScreenTransition { active: false, phase: TransitionPhase::Idle, pending_state: None }
    }

    /// Starts a fade towards `next` (restarting any fade in progress).
    pub fn begin_to_state(&mut self, next: AppState)
        ensures
            *final(self) == (ScreenTransition { active: true, phase: TransitionPhase::Covering, pending_state: Some(next) }),
    {
        self.active = true;
        self.phase = TransitionPhase::Covering;
        self.pending_state = Some(next);
    }

    /// The current stage's progress is full. Once covered, the pending
    /// screen is handed out (to switch to) and the fade uncovers; once
    /// uncovered, the fade ends.
    pub fn stage_complete(&mut self) -> (switch_to: Option<AppState>)
        ensures
            !old(self).active || old(self).phase is Idle ==> switch_to is None && *final(self) == *old(self),
            old(self).active && old(self).phase is Covering ==> switch_to == old(self).pending_state
                && *final(self) == (ScreenTransition { active: true, phase: TransitionPhase::Uncovering, pending_state: None }),
            old(self).active && old(self).phase is Uncovering ==> switch_to is None
                && *final(self) == (ScreenTransition { active: false, phase: TransitionPhase::Idle, pending_state: old(self).pending_state }),
    {
        if !self.active {
            return None;
        }
        match self.phase {
            TransitionPhase::Covering => {
                let next = self.pending_state;
                self.pending_state = None;
                self.phase = TransitionPhase::Uncovering;
                next
            },
            TransitionPhase::Uncovering => {
                self.active = false;
                self.phase = TransitionPhase::Idle;
                None
            },
            TransitionPhase::Idle => None,
        }
    }
}

} // verus!
