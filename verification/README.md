# snake_cli

A windowed Snake game whose rules are verified with Verus.

- `src/` is the verified library:
  - `game` — board presets and configuration, the snake, food placement, and one
    tick of play (`Game::update`).  Every field of the next state is stated
    exactly but the food after eating: that comes from the random generator,
    and is stated as a free cell and a rolled kind (`place_food` gives the
    exact placement for a drawn index and roll).
  - `session` — a run in progress and `advance_session_ticks`, which runs as many
    ticks as the elapsed time allows (time in microseconds);
    `try_advance_session_ticks` does the same for any session, and stops
    before a tick that would overflow a counter.
  - `app` — the screens (menu, countdown, play, pause, end) as a state machine;
    each frame returns the sounds, flashes and saves for the window to carry out.
  - `input` — what each screen does with a frame's key presses.
  - `persist` — the top-five leaderboards, one per game mode, their
    `score|name` text format, player names and the sound setting.
  - `sound` — the WAV header of the beeps (the sine samples are made in `app/`).
  - `text` — trimming, decimal numbers and line splitting over characters.
  - `rng` — the `rand` generator behind the trusted wrappers the game uses.
  - `laws` — properties of the game as a whole, proved over the contracts.
- `app/` is the macroquad program: keyboard, drawing, sound and files (one
  leaderboard file per mode).
- `tests/` exercises the library.
