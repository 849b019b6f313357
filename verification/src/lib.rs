//! Verified game rules for Opensus, a social-deduction game: roles and win
//! conditions, meetings and votes, tasks, sabotage, lobby management, chat,
//! the network sequencing rules and the static map layout.

mod chance;
pub mod bots;
pub mod chat;
pub mod cues;
pub mod flow;
pub mod client_sync;
pub mod hosting;
pub mod hud;
pub mod laws;
pub mod layout;
pub mod lobby;
pub mod meeting;
pub mod menu;
pub mod net;
pub mod players;
pub mod roles;
pub mod roster;
pub mod sabotage;
pub mod rules;
pub mod save;
pub mod tasks;
pub mod text;
pub mod tint;
pub mod util;
pub mod visuals;
