use vstd::prelude::*;

use crate::chat::ChatEntry;
use crate::lobby::LobbySlot;
use crate::meeting::VoteOption;
use crate::menu::{Translations, lookup, t};
use crate::roles::{GamePhase, Role, spec_win_label};
use crate::sabotage::SabotageKind;
use crate::text::{decimal, push_decimal};

verus! {

/// Chat lines shown in the meeting panel.
pub const VISIBLE_CHAT_LINES: usize = 8;

/// A ballot button of the meeting panel.
#[derive(Clone, PartialEq, Eq, Debug)]
pub struct VoteButton {
    pub player_id: u64,
    pub label: String,
}

/// The status line of a lobby seat: ready or not, and who sits there.
pub open spec fn spec_seat_status(slot: LobbySlot, tr: Map<Seq<char>, Seq<char>>) -> Seq<char> {
    let status = if slot.ready { lookup(tr, "ready"@, "Ready"@) } else { lookup(tr, "not-ready"@, "Not ready"@) };
    if slot.is_host {
        status + " · Host"@
    } else if slot.is_bot {
        status + " · Bot"@
    } else if slot.is_local {
        status + " · You"@
    } else {
        status
    }
}

/// The status line of a lobby seat.
pub fn seat_status(slot: &LobbySlot, tr: &Translations) -> (r: String)
    ensures
        r@ == spec_seat_status(*slot, tr@),
{
    proof {
        reveal_strlit("ready");
        reveal_strlit("Ready");
        reveal_strlit("not-ready");
        reveal_strlit("Not ready");
        reveal_strlit(" · Host");
        reveal_strlit(" · Bot");
        reveal_strlit(" · You");
    }
    let status = if slot.ready { t(tr, "ready", "Ready") } else { t(tr, "not-ready", "Not ready") };
    if slot.is_host {
        status.concat(" · Host")
    } else if slot.is_bot {
        status.concat(" · Bot")
    } else if slot.is_local {
        status.concat(" · You")
    } else {
        status
    }
}

/// The badge at the end of a lobby seat.
pub fn seat_badge(ready: bool) -> (r: &'static str)
    ensures
        r@ == (if ready { "READY"@ } else { "WAITING"@ }),
{
    proof {
        reveal_strlit("READY");
        reveal_strlit("WAITING");
    }
    if ready { "READY" } else { "WAITING" }
}

/// Number of ready seats.
pub open spec fn count_ready(slots: Seq<LobbySlot>) -> nat
    decreases slots.len(),
{
    if slots.len() == 0 {
        0
    } else {
        count_ready(slots.drop_last()) + if slots.last().ready { 1nat } else { 0nat }
    }
}

/// "`ready`/`seats` ready".
pub open spec fn spec_ready_summary(slots: Seq<LobbySlot>) -> Seq<char> {
    decimal(count_ready(slots)) + "/"@ + decimal(slots.len()) + " ready"@
}

/// The lobby's ready count line.
pub fn ready_summary(slots: &[LobbySlot]) -> (r: String)
    ensures
        r@ == spec_ready_summary(slots@),
{
    let mut ready: u64 = 0;
    let mut i: usize = 0;
    while i < slots.len()
        invariant
            i <= slots@.len(),
            ready == count_ready(slots@.take(i as int)),
            ready <= i,
        decreases slots@.len() - i,
    {
        proof {
            assert(slots@.take(i as int + 1).drop_last() =~= slots@.take(i as int));
        }
        if slots[i].ready {
            ready = ready + 1;
        }
        i = i + 1;
    }
    proof {
        assert(slots@.take(i as int) =~= slots@);
        reveal_strlit("/");
        reveal_strlit(" ready");
    }
    let mut r = String::new();
    push_decimal(&mut r, ready);
    r.append("/");
    push_decimal(&mut r, slots.len() as u64);
    r.append(" ready");
    proof {
        assert(r@ =~= spec_ready_summary(slots@));
    }
    r
}

/// Who starts the match, as the lobby tells it.
pub fn hosting_note(is_host: bool) -> (r: &'static str)
    ensures
        r@ == (if is_host { "You are hosting this lobby."@ } else { "Waiting for the host to begin."@ }),
{
    proof {
        reveal_strlit("You are hosting this lobby.");
        reveal_strlit("Waiting for the host to begin.");
    }
    if is_host { "You are hosting this lobby." } else { "Waiting for the host to begin." }
}

/// The ready button offers the opposite of the current state.
pub fn ready_button_label(local_ready: bool, tr: &Translations) -> (r: String)
    ensures
        r@ == (if local_ready { lookup(tr@, "unready"@, "Unready"@) } else { lookup(tr@, "ready"@, "Ready"@) }),
{
    proof {
        reveal_strlit("unready");
        reveal_strlit("Unready");
        reveal_strlit("ready");
        reveal_strlit("Ready");
    }
    if local_ready { t(tr, "unready", "Unready") } else { t(tr, "ready", "Ready") }
}

/// The role shown in the match HUD ("-" before roles are known).
pub open spec fn spec_role_label(role: Option<Role>, tr: Map<Seq<char>, Seq<char>>) -> Seq<char> {
    match role {
        Some(Role::Impostor) => lookup(tr, "impostor"@, "Impostor"@),
        Some(Role::Crewmate) => lookup(tr, "crewmate"@, "Crewmate"@),
        None => "-"@,
    }
}

/// The role shown in the match HUD.
pub fn role_label(role: Option<Role>, tr: &Translations) -> (r: String)
    ensures
        r@ == spec_role_label(role, tr@),
{
    proof {
        reveal_strlit("impostor");
        reveal_strlit("Impostor");
        reveal_strlit("crewmate");
        reveal_strlit("Crewmate");
        reveal_strlit("-");
    }
    match role {
        Some(Role::Impostor) => t(tr, "impostor", "Impostor"),
        Some(Role::Crewmate) => t(tr, "crewmate", "Crewmate"),
        None => String::from_str("-"),
    }
}

/// "`done`/`total`", the task counter of the HUD.
pub fn task_counter(done: u32, total: u32) -> (r: String)
    ensures
        r@ == decimal(done as nat) + "/"@ + decimal(total as nat),
{
    proof {
        reveal_strlit("/");
    }
    let mut r = String::new();
    push_decimal(&mut r, done as u64);
    r.append("/");
    push_decimal(&mut r, total as u64);
    proof {
        assert(r@ =~= decimal(done as nat) + "/"@ + decimal(total as nat));
    }
    r
}

/// The sabotage's name on the HUD banner.
pub fn sabotage_name(kind: SabotageKind) -> (r: &'static str)
    ensures
        r@ == (match kind { SabotageKind::Lights => "Lights"@, SabotageKind::Oxygen => "Oxygen"@, SabotageKind::Reactor => "Reactor"@ }),
{
    proof {
        reveal_strlit("Lights");
        reveal_strlit("Oxygen");
        reveal_strlit("Reactor");
    }
    match kind {
        SabotageKind::Lights => "Lights",
        SabotageKind::Oxygen => "Oxygen",
        SabotageKind::Reactor => "Reactor",
    }
}

/// Title and hint of the role reveal.
pub open spec fn spec_role_reveal(role: Option<Role>, tr: Map<Seq<char>, Seq<char>>) -> (Seq<char>, Seq<char>) {
    match role {
        Some(Role::Impostor) => (lookup(tr, "impostor"@, "IMPOSTOR"@), lookup(tr, "impostor-hint"@, "Kill crewmates. Sabotage. Blend in."@)),
        Some(Role::Crewmate) => (lookup(tr, "crewmate"@, "CREWMATE"@), lookup(tr, "crewmate-hint"@, "Finish tasks. Find the impostor."@)),
        None => ("..."@, ""@),
    }
}

/// Title and hint of the role reveal.
pub fn role_reveal_text(role: Option<Role>, tr: &Translations) -> (r: (String, String))
    ensures
        (r.0@, r.1@) == spec_role_reveal(role, tr@),
{
    proof {
        reveal_strlit("impostor");
        reveal_strlit("IMPOSTOR");
        reveal_strlit("impostor-hint");
        reveal_strlit("Kill crewmates. Sabotage. Blend in.");
        reveal_strlit("crewmate");
        reveal_strlit("CREWMATE");
        reveal_strlit("crewmate-hint");
        reveal_strlit("Finish tasks. Find the impostor.");
        reveal_strlit("...");
        reveal_strlit("");
    }
    match role {
        Some(Role::Impostor) => (t(tr, "impostor", "IMPOSTOR"), t(tr, "impostor-hint", "Kill crewmates. Sabotage. Blend in.")),
        Some(Role::Crewmate) => (t(tr, "crewmate", "CREWMATE"), t(tr, "crewmate-hint", "Finish tasks. Find the impostor.")),
        None => (String::from_str("..."), String::new()),
    }
}

/// The meeting stage shown under the meeting title.
pub open spec fn spec_meeting_stage(phase: GamePhase, tr: Map<Seq<char>, Seq<char>>) -> Seq<char> {
    match phase {
        GamePhase::Meeting => lookup(tr, "discussion"@, "Discussion"@),
        GamePhase::Voting => lookup(tr, "voting"@, "Voting"@),
        GamePhase::Results => lookup(tr, "ejected"@, "Results"@),
        _ => ""@,
    }
}

/// The meeting stage shown under the meeting title.
pub fn meeting_stage(phase: GamePhase, tr: &Translations) -> (r: String)
    ensures
        r@ == spec_meeting_stage(phase, tr@),
{
    proof {
        reveal_strlit("discussion");
        reveal_strlit("Discussion");
        reveal_strlit("voting");
        reveal_strlit("Voting");
        reveal_strlit("ejected");
        reveal_strlit("Results");
        reveal_strlit("");
    }
    match phase {
        GamePhase::Meeting => t(tr, "discussion", "Discussion"),
        GamePhase::Voting => t(tr, "voting", "Voting"),
        GamePhase::Results => t(tr, "ejected", "Results"),
        _ => String::new(),
    }
}

/// The living ballot options, in order.
pub open spec fn living_options(options: Seq<VoteOption>) -> Seq<VoteOption> {
    options.filter(|o: VoteOption| !o.dead)
}

/// The ballot buttons: while voting, for a living local player who has
/// not voted, one "Vote <name>" button per living option (a skip button
/// follows them). `None` when no ballot is shown.
pub fn vote_buttons(phase: GamePhase, my_voted: bool, local_alive: bool, options: &Vec<VoteOption>, tr: &Translations) -> (r: Option<Vec<VoteButton>>)
    ensures
        !(phase is Voting && !my_voted && local_alive) ==> r is None,
        phase is Voting && !my_voted && local_alive ==> (r matches Some(b) && b@.len() == living_options(options@).len()
            && forall|k: int| 0 <= k < b@.len() ==> {
                &&& (#[trigger] b@[k]).player_id == living_options(options@)[k].player_id
                &&& b@[k].label@ == lookup(tr@, "vote"@, "Vote"@) + " "@ + living_options(options@)[k].name@
            }),
{
    if !(phase == GamePhase::Voting) || my_voted || !local_alive {
        return None;
    }
    proof {
        reveal_strlit("vote");
        reveal_strlit("Vote");
        reveal_strlit(" ");
    }
    let word = t(tr, "vote", "Vote");
    let mut out: Vec<VoteButton> = Vec::new();
    let mut i: usize = 0;
    while i < options.len()
        invariant
            i <= options@.len(),
            word@ == lookup(tr@, "vote"@, "Vote"@),
            out@.len() == living_options(options@.take(i as int)).len(),
            forall|k: int| 0 <= k < out@.len() ==> {
                &&& (#[trigger] out@[k]).player_id == living_options(options@.take(i as int))[k].player_id
                &&& out@[k].label@ == lookup(tr@, "vote"@, "Vote"@) + " "@ + living_options(options@.take(i as int))[k].name@
            },
        decreases options@.len() - i,
    {
        proof {
            assert(options@.take(i as int + 1).drop_last() =~= options@.take(i as int));
            reveal_with_fuel(Seq::filter, 1);
        }
        let o = &options[i];
        if !o.dead {
            let mut label = word.clone();
            label.append(" ");
            label.append(o.name.as_str());
            out.push(VoteButton { player_id: o.player_id, label });
        }
        i = i + 1;
    }
    proof {
        assert(options@.take(i as int) =~= options@);
    }
    Some(out)
}

/// The speaker column of a chat line: the name, tagged when a ghost speaks.
pub fn chat_speaker(entry: &ChatEntry) -> (r: String)
    ensures
        r@ == entry.name@ + (if entry.is_ghost { " (ghost)"@ } else { ""@ }) + ":"@,
{
    proof {
        reveal_strlit(" (ghost)");
        reveal_strlit("");
        reveal_strlit(":");
    }
    let mut r = entry.name.clone();
    if entry.is_ghost {
        r.append(" (ghost)");
    }
    r.append(":");
    proof {
        assert(r@ =~= entry.name@ + (if entry.is_ghost { " (ghost)"@ } else { ""@ }) + ":"@);
    }
    r
}

/// The chat input line, with its cursor; ghosts type on the ghost channel.
pub fn chat_input_label(buffer: &str, ghost_channel: bool) -> (r: String)
    ensures
        r@ == (if ghost_channel { "> [ghost] "@ } else { "> "@ }) + buffer@ + "_"@,
{
    proof {
        reveal_strlit("> [ghost] ");
        reveal_strlit("> ");
        reveal_strlit("_");
    }
    let mut r = if ghost_channel { String::from_str("> [ghost] ") } else { String::from_str("> ") };
    r.append(buffer);
    r.append("_");
    r
}

/// Index of the first chat line shown: only the last few lines fit.
pub fn first_visible_chat_line(len: usize) -> (r: usize)
    ensures
        r == (if len > VISIBLE_CHAT_LINES { len - VISIBLE_CHAT_LINES } else { 0 }),
{
    len.saturating_sub(VISIBLE_CHAT_LINES)
}

/// Headline and reason of the game-over screen.
pub open spec fn spec_game_over_text(phase: GamePhase, tr: Map<Seq<char>, Seq<char>>) -> (Seq<char>, Seq<char>) {
    match phase {
        GamePhase::GameOver { crew_win, reason } => if crew_win {
            (lookup(tr, "crewmates-win"@, "Crewmates win!"@), spec_win_label(reason))
        } else {
            (lookup(tr, "impostors-win"@, "Impostors win!"@), spec_win_label(reason))
        },
        _ => (""@, ""@),
    }
}

/// Headline and reason of the game-over screen.
pub fn game_over_text(phase: GamePhase, tr: &Translations) -> (r: (String, String))
    ensures
        (r.0@, r.1@) == spec_game_over_text(phase, tr@),
{
    proof {
        reveal_strlit("crewmates-win");
        reveal_strlit("Crewmates win!");
        reveal_strlit("impostors-win");
        reveal_strlit("Impostors win!");
        reveal_strlit("");
    }
    match phase {
        GamePhase::GameOver { crew_win, reason } => {
            let sub = String::from_str(reason.label());
            if crew_win {
                (t(tr, "crewmates-win", "Crewmates win!"), sub)
            } else {
                (t(tr, "impostors-win", "Impostors win!"), sub)
            }
        },
        _ => (String::new(), String::new()),
    }
}

} // verus!
