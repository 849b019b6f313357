use opensus::lobby::{LobbySlot, LobbyState};
use opensus::players::PlayerSummary;
use opensus::roles::{GamePhase, Role, RuntimeMode, WinReason};
use opensus::roster::{Controller, default_roster, impostor_count, plan_roster, spawn_roster};
use opensus::rules::{MatchConfig, MatchStats, TaskBoard};
use opensus::sabotage::{
    ActiveSabotage, SabotageKind, check_sabotage_loss, fixes_needed, is_critical_kind, reactor_plan,
    requested_sabotage,
};
use opensus::save::SaveData;

fn p(id: u64, role: Role, alive: bool) -> PlayerSummary {
    PlayerSummary { id, name: format!("P{id}"), role, alive, is_bot: false }
}

#[test]
fn only_a_living_impostor_starts_a_sabotage() {
    let roster = vec![p(1, Role::Crewmate, true), p(2, Role::Impostor, true), p(3, Role::Impostor, false)];
    let mut sab = ActiveSabotage::new();
    assert!(!sab.apply_sabotage(true, 1, SabotageKind::Lights, &roster));
    assert!(!sab.apply_sabotage(true, 3, SabotageKind::Lights, &roster));
    assert!(!sab.apply_sabotage(false, 2, SabotageKind::Lights, &roster));
    assert!(sab.apply_sabotage(true, 2, SabotageKind::Reactor, &roster));
    assert_eq!(sab, ActiveSabotage { kind: Some(SabotageKind::Reactor), fixes_needed: 2, fixes_done: 0 });
    assert!(!sab.apply_sabotage(true, 2, SabotageKind::Lights, &roster));
    assert!(sab.is_active() && sab.is_critical() && !sab.is_fixed());
}

#[test]
fn repairs_count_only_the_active_kind_and_clear_when_done() {
    let mut sab = ActiveSabotage { kind: Some(SabotageKind::Oxygen), fixes_needed: 2, fixes_done: 0 };
    sab.record_fix_progress(&[SabotageKind::Oxygen, SabotageKind::Reactor]);
    assert_eq!(sab.fixes_done, 1);
    assert!(!sab.clear_fixed());
    sab.record_fix_progress(&[SabotageKind::Oxygen, SabotageKind::Oxygen, SabotageKind::Oxygen]);
    assert_eq!(sab.fixes_done, 2);
    assert!(sab.clear_fixed());
    assert_eq!(sab, ActiveSabotage::default());
    let mut idle = ActiveSabotage::new();
    idle.record_fix_progress(&[SabotageKind::Lights]);
    assert_eq!(idle.fixes_done, 0);
}

#[test]
fn an_unrepaired_critical_sabotage_loses_the_match() {
    let sab = ActiveSabotage { kind: Some(SabotageKind::Reactor), fixes_needed: 2, fixes_done: 1 };
    let mut phase = GamePhase::Playing;
    let mut save = SaveData::new_default();
    assert!(!check_sabotage_loss(&sab, false, &mut phase, &mut save));
    assert!(check_sabotage_loss(&sab, true, &mut phase, &mut save));
    assert_eq!(phase, GamePhase::GameOver { crew_win: false, reason: WinReason::Sabotage });
    assert_eq!((save.games_played, save.impostor_wins), (1, 1));
    assert!(!check_sabotage_loss(&sab, true, &mut phase, &mut save));
    assert_eq!(save.games_played, 1);
    let lights = ActiveSabotage { kind: Some(SabotageKind::Lights), fixes_needed: 1, fixes_done: 0 };
    let mut phase = GamePhase::Playing;
    assert!(!check_sabotage_loss(&lights, true, &mut phase, &mut save));
    let fixed = ActiveSabotage { kind: Some(SabotageKind::Oxygen), fixes_needed: 2, fixes_done: 2 };
    assert!(!check_sabotage_loss(&fixed, true, &mut phase, &mut save));
}

#[test]
fn sabotage_kinds() {
    assert_eq!(fixes_needed(SabotageKind::Lights), 1);
    assert_eq!(fixes_needed(SabotageKind::Oxygen), 2);
    assert!(!is_critical_kind(SabotageKind::Lights));
    assert!(is_critical_kind(SabotageKind::Reactor));
    let idle = ActiveSabotage::new();
    assert_eq!(requested_sabotage(GamePhase::Playing, &idle, true, true, Some(SabotageKind::Oxygen)), Some(SabotageKind::Oxygen));
    assert_eq!(requested_sabotage(GamePhase::Meeting, &idle, true, true, Some(SabotageKind::Oxygen)), None);
    assert_eq!(requested_sabotage(GamePhase::Playing, &idle, false, true, Some(SabotageKind::Oxygen)), None);
    assert_eq!(requested_sabotage(GamePhase::Playing, &idle, true, false, Some(SabotageKind::Oxygen)), None);
}

#[test]
fn reactor_needs_two_stations_and_two_people() {
    assert_eq!(reactor_plan(&vec![vec![1], vec![]]), None);
    assert_eq!(reactor_plan(&vec![vec![1], vec![1]]), None);
    assert_eq!(reactor_plan(&vec![vec![1, 2], vec![]]), None);
    assert_eq!(reactor_plan(&vec![vec![], vec![1], vec![2]]), Some(vec![1, 2]));
    assert_eq!(reactor_plan(&vec![vec![1], vec![1, 3], vec![4]]), Some(vec![0, 1]));
    assert_eq!(reactor_plan(&vec![]), None);
}

#[test]
fn impostor_count_rule() {
    assert_eq!(impostor_count(0, 1), 0);
    assert_eq!(impostor_count(1, 1), 0);
    assert_eq!(impostor_count(2, 0), 1);
    assert_eq!(impostor_count(2, 3), 1);
    assert_eq!(impostor_count(10, 2), 2);
}

fn slot(id: u64, local: bool, bot: bool) -> LobbySlot {
    LobbySlot { id, name: format!("S{id}"), color_index: 0, ready: true, is_local: local, is_host: local, is_bot: bot }
}

#[test]
fn roster_plan_follows_the_pick_order() {
    let slots = vec![slot(1, true, false), slot(10, false, true), slot(20, false, false), slot(30, false, false)];
    let cfg = MatchConfig::default();
    let plan = plan_roster(&slots, &[2, 0, 1, 3], &cfg, RuntimeMode::Host);
    let roles: Vec<Role> = plan.entries.iter().map(|e| e.role).collect();
    assert_eq!(roles, vec![Role::Crewmate, Role::Crewmate, Role::Impostor, Role::Crewmate]);
    let controls: Vec<Controller> = plan.entries.iter().map(|e| e.control).collect();
    assert_eq!(controls, vec![Controller::Local, Controller::Bot, Controller::Remote, Controller::Remote]);
    assert_eq!(plan.stats, MatchStats { impostors_spawned: 1, players_spawned: 4 });
    assert_eq!(plan.task_board, TaskBoard { completed: 0, total: 12 });
    assert_eq!(plan.local_player_id, Some(1));
    assert_eq!(plan.local_role, Some(Role::Crewmate));
    assert!(plan.entries[2].tasks.is_none());
    assert_eq!(plan.entries[0].tasks.as_ref().unwrap().items.len(), 4);
}

#[test]
fn empty_lobby_starts_with_default_roster() {
    let save = SaveData::new_default();
    let cfg = MatchConfig::default();
    let slots = default_roster(&save, &cfg);
    assert_eq!(slots.len(), 4);
    assert_eq!(slots[0].id, 1);
    assert_eq!(slots[1].name, "Agent-2");
    assert_eq!(slots[1].color_index, 1);
    let (plan, order) = spawn_roster(&LobbyState::new(), &save, &cfg, RuntimeMode::Local);
    let mut sorted = order.clone();
    sorted.sort();
    assert_eq!(sorted, vec![0, 1, 2, 3]);
    assert_eq!(plan.stats, MatchStats { impostors_spawned: 1, players_spawned: 4 });
    assert_eq!(plan.entries.iter().filter(|e| e.role == Role::Impostor).count(), 1);
    assert_eq!(plan.entries[order[0]].role, Role::Impostor);
}

#[test]
fn shuffled_pick_order_varies() {
    let save = SaveData::new_default();
    let cfg = MatchConfig { bot_count: 9, ..MatchConfig::default() };
    let mut saw_other_order = false;
    for _ in 0..20 {
        let (_, order) = spawn_roster(&LobbyState::new(), &save, &cfg, RuntimeMode::Local);
        if order != (0..10).collect::<Vec<usize>>() {
            saw_other_order = true;
        }
    }
    assert!(saw_other_order);
}
