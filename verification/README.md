# keyz

The rules of a terminal rhythm game, verified with Verus: lanes and keys per
difficulty, timing grades and scoring, the built-in charts, and the game's
state machine (menus, countdown, hitting and missing notes, results).

- `src/difficulty.rs` – difficulties, their boards, keys and colors
- `src/grade.rs` – timing windows, grades, points, combo multiplier
- `src/song.rs` – songs and notes; times are integer microseconds, beats thousandths
- `src/songs.rs` – the three built-in charts, stated exactly
- `src/game.rs` – the game state, its invariant and every transition
- `src/laws.rs` – properties that span transitions
- `app/` – the terminal front end (crossterm, ratatui) and the WAV analysis
  (hound, rustfft), which work in floating point
