# opensus

The rules of Opensus, a social-deduction game in the style of Among Us,
as a Verus-verified library, with a small headless program around it.

## Layout

- `src/` — the verified library.
  - `roles`, `rules`, `flow`: roles, win conditions, the meeting/voting/results
    cycle, kills, body reports and ejections.
  - `meeting`, `chat`: ballots and vote counting; the meeting chat and its
    ghost isolation.
  - `sabotage`, `tasks`, `bots`: sabotages and their repair, task lists and
    task work, the offline bots' decisions.
  - `lobby`, `roster`: seats, readiness, the start of a match and role dealing.
  - `net`, `hosting`, `client_sync`: sequence numbers, input queues, the
    host's session rules and the client's mirror of the host.
  - `layout`: the map data, with its geometric properties proved.
  - `menu`, `hud`, `cues`, `visuals`, `tint`: the application shell's state
    machine, on-screen texts, sound cues, vision masks and sprite tinting.
  - `laws`: properties that relate several functions.
  - `chance`: the calls into `rand`.
- `tests/` — tests of the library.
- `app/` — the headless program: transport (renet2), wire formats (serde and
  bincode), the save file, and the floating-point parts (movement, collision,
  navigation, interpolation, rate limits, image generation).

Run `opensus` for an offline round against bots, `opensus host [addr]` to
listen, `opensus join [addr]` to connect.
