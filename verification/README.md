# roomserver

The rules of a turn-based board game's room server, with their behaviour
stated in contracts and proved by Verus.

- `src/room_handler.rs`: the room requests (create, join, search, leave,
  ready, teams, kicks, settings, emojis, character and skill choice, turn
  order and starting cells) and what each answers and changes.
- `src/room.rs`, `src/room_mgr.rs`: rooms, members and the manager that files
  each player under its room.
- `src/battle.rs`, `src/battle_trigger.rs`, `src/action.rs`: battle state and
  the buff triggers that fire on moves, skills, attacks, traps and map
  refreshes.
- `src/season.rs`: season updates; the time strings are read by `chrono`.
- `src/gate_user.rs`: a player's session and its senders.
- `src/laws.rs`: properties that span several operations.
- `app/`: closing a session, which is network work.
