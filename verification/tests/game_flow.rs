use keyz::difficulty::{Difficulty, ALL_DIFFICULTIES, ALL_LANE_COLORS};
use keyz::game::{Game, GamePhase, Key, COUNTDOWN_US};
use keyz::grade::HitGrade;
use keyz::song::Note;

/// A game at the start of play of the selected song under `d`, countdown over,
/// at game time `t` microseconds.
fn playing(d_index: usize, song: usize, t: u64) -> Game {
    let mut g = Game::new();
    g.handle_key(Key::Enter);
    assert_eq!(g.phase, GamePhase::DifficultySelect);
    while g.selected_difficulty < d_index {
        g.handle_key(Key::Down);
    }
    while g.selected_difficulty > d_index {
        g.handle_key(Key::Up);
    }
    g.handle_key(Key::Enter);
    assert_eq!(g.phase, GamePhase::SongSelect);
    for _ in 0..song {
        g.handle_key(Key::Down);
    }
    g.handle_key(Key::Enter);
    assert_eq!(g.phase, GamePhase::Playing);
    g.update(COUNTDOWN_US);
    assert_eq!(g.countdown, None);
    assert_eq!(g.game_time, COUNTDOWN_US);
    if t > g.game_time {
        let dt = t - g.game_time;
        g.update(dt);
    }
    g
}

#[test]
fn new_game_starts_on_title() {
    let g = Game::new();
    assert_eq!(g.phase, GamePhase::Title);
    assert_eq!(g.difficulty, Difficulty::Standard);
    assert_eq!(g.selected_difficulty, 1);
    assert_eq!(g.selected_song, 0);
    assert_eq!(g.songs.len(), 3);
    assert!(g.notes.is_empty());
    assert_eq!(g.score, 0);
    assert_eq!(g.hit_counts, [0, 0, 0, 0]);
    assert_eq!(g.lane_flash, [None; 8]);
    assert_eq!(g.accuracy(), (100, 1));
    assert_eq!(g.grade_letter(), "S");
}

#[test]
fn menus_move_within_bounds() {
    let mut g = Game::new();
    g.handle_key(Key::Char('x'));
    assert_eq!(g.phase, GamePhase::Title);
    g.handle_key(Key::Char(' '));
    assert_eq!(g.phase, GamePhase::DifficultySelect);
    g.handle_key(Key::Up);
    assert_eq!(g.selected_difficulty, 0);
    g.handle_key(Key::Char('k'));
    assert_eq!(g.selected_difficulty, 0);
    g.handle_key(Key::Char('j'));
    g.handle_key(Key::Down);
    g.handle_key(Key::Down);
    assert_eq!(g.selected_difficulty, 2);
    g.handle_key(Key::Enter);
    assert_eq!(g.difficulty, Difficulty::Hardcore);
    assert_eq!(g.phase, GamePhase::SongSelect);
    g.handle_key(Key::Down);
    g.handle_key(Key::Down);
    g.handle_key(Key::Down);
    assert_eq!(g.selected_song, 2);
    g.handle_key(Key::Up);
    assert_eq!(g.selected_song, 1);
}

#[test]
fn starting_a_song_builds_its_notes() {
    let mut g = Game::new();
    g.handle_key(Key::Enter);
    g.handle_key(Key::Enter);
    g.handle_key(Key::Enter);
    assert_eq!(g.phase, GamePhase::Playing);
    assert_eq!(g.countdown, Some(3_000_000));
    assert_eq!(g.notes.len(), 94);
    assert_eq!(g.total_notes, 94);
    // Standard maps charted lanes 0..4 onto board lanes 0, 2, 4, 5, 7
    let n0 = g.notes[0];
    assert_eq!((n0.lane, n0.key, n0.hit_time, n0.active), (0, 'a', 4_000_000, true));
    let n1 = g.notes[1];
    assert_eq!(n1.hit_time, 4_000_000 + 545_454);
    let n8 = g.notes[8];
    assert_eq!((n8.lane, n8.key), (2, 'd'));
    assert!(g.notes.iter().all(|n| n.active && n.hit_grade.is_none()));
}

#[test]
fn beginner_maps_lanes_to_four_keys() {
    let g = playing(0, 0, COUNTDOWN_US);
    assert_eq!(g.num_lanes(), 4);
    // chart lanes 3 and 4 (beats 16..23) land on lanes 2 and 3
    assert_eq!((g.notes[16].lane, g.notes[16].key), (2, 'k'));
    assert_eq!((g.notes[17].lane, g.notes[17].key), (3, 'l'));
    assert_eq!(g.display_key_for_lane(0), 'h');
    assert_eq!(g.lane_color(0), ALL_LANE_COLORS[4]);
}

#[test]
fn hardcore_keys_are_random_letters() {
    let g = playing(2, 2, COUNTDOWN_US);
    assert_eq!(g.difficulty, Difficulty::Hardcore);
    assert_eq!(g.notes.len(), 212);
    assert!(g.notes.iter().all(|n| n.key.is_ascii_lowercase()));
    assert!(g.notes.iter().all(|n| n.lane < 5));
}

#[test]
fn countdown_runs_before_the_clock() {
    let mut g = Game::new();
    g.handle_key(Key::Enter);
    g.handle_key(Key::Enter);
    g.handle_key(Key::Enter);
    g.update(1_000_000);
    assert_eq!(g.countdown, Some(2_000_000));
    assert_eq!(g.game_time, 0);
    // keys are ignored during the countdown
    g.handle_key(Key::Char('a'));
    assert_eq!(g.hit_counts, [0, 0, 0, 0]);
    g.update(2_500_000);
    assert_eq!(g.countdown, None);
    assert_eq!(g.game_time, 2_500_000);
}

#[test]
fn perfect_hit_scores_and_builds_combo() {
    let mut g = playing(1, 0, 4_000_000);
    g.handle_key(Key::Char('a'));
    assert_eq!(g.notes[0].hit_grade, Some(HitGrade::Perfect));
    assert!(!g.notes[0].active);
    assert_eq!(g.score, 100);
    assert_eq!(g.combo, 1);
    assert_eq!(g.max_combo, 1);
    assert_eq!(g.hit_counts, [1, 0, 0, 0]);
    assert_eq!(g.last_hit, Some((HitGrade::Perfect, 4_000_000)));
    assert_eq!(g.lane_flash[0], Some(4_000_000));
}

#[test]
fn timing_windows_grade_presses() {
    // 60 ms late: GREAT
    let mut g = playing(1, 0, 4_060_000);
    g.handle_key(Key::Char('a'));
    assert_eq!(g.notes[0].hit_grade, Some(HitGrade::Great));
    assert_eq!(g.score, 75);
    // 120 ms late: GOOD
    let mut g = playing(1, 0, 4_120_000);
    g.handle_key(Key::Char('a'));
    assert_eq!(g.notes[0].hit_grade, Some(HitGrade::Good));
    assert_eq!(g.score, 50);
    // 180 ms late: reached, but graded MISS, which breaks the combo
    let mut g = playing(1, 0, 4_180_000);
    g.handle_key(Key::Char('a'));
    assert_eq!(g.notes[0].hit_grade, Some(HitGrade::Miss));
    assert_eq!(g.score, 0);
    assert_eq!(g.combo, 0);
    assert_eq!(g.hit_counts, [0, 0, 0, 1]);
}

#[test]
fn presses_out_of_reach_do_nothing() {
    // 250 ms early: out of the widest window
    let mut g = playing(1, 0, 3_750_000);
    g.handle_key(Key::Char('a'));
    assert!(g.notes[0].active);
    assert_eq!(g.hit_counts, [0, 0, 0, 0]);
    // wrong key
    let mut g = playing(1, 0, 4_000_000);
    g.handle_key(Key::Char('s'));
    assert!(g.notes.iter().all(|n| n.active));
    assert_eq!(g.last_hit, None);
}

#[test]
fn press_lands_on_the_closest_note() {
    let mut g = Game::new();
    let note = |hit_time: u64| Note { lane: 0, key: 'a', hit_time, active: true, hit_grade: None };
    g.notes = vec![note(900_000), note(1_050_000), note(1_050_000), note(1_100_000)];
    g.total_notes = 4;
    g.phase = GamePhase::Playing;
    g.game_time = 1_000_000;
    g.handle_key(Key::Char('a'));
    // 100 ms early and 50 ms late: the later, closer one; of two equally close, the first
    assert!(g.notes[0].active);
    assert_eq!(g.notes[1].hit_grade, Some(HitGrade::Great));
    assert!(g.notes[2].active);
    g.handle_key(Key::Char('a'));
    assert_eq!(g.notes[2].hit_grade, Some(HitGrade::Great));
    g.handle_key(Key::Char('a'));
    assert_eq!(g.notes[0].hit_grade, Some(HitGrade::Good));
    assert_eq!(g.combo, 3);
    assert_eq!(g.score, 75 + 75 + 50);
}

#[test]
fn untouched_notes_become_misses() {
    let mut g = playing(1, 0, 4_000_000);
    g.handle_key(Key::Char('a'));
    assert_eq!(g.combo, 1);
    // note 1 is due at 4_545_454; 200 ms later it is still fine, then missed
    let mut h = playing(1, 0, 4_000_000);
    h.handle_key(Key::Char('a'));
    h.update(745_454);
    assert!(h.notes[1].active);
    h.update(1);
    assert_eq!(h.notes[1].hit_grade, Some(HitGrade::Miss));
    assert_eq!(h.combo, 0);
    assert_eq!(h.max_combo, 1);
    assert_eq!(h.hit_counts, [1, 0, 0, 1]);
    assert_eq!(h.last_hit, Some((HitGrade::Miss, 4_745_455)));
    assert_eq!(h.accuracy(), (400, 8));
    assert_eq!(h.grade_letter(), "F");
}

#[test]
fn combo_multiplier_rises_every_ten_hits() {
    let mut g = playing(1, 0, 4_000_000);
    let mut expected = 0u32;
    for i in 0..11usize {
        let due = g.notes[i].hit_time;
        let now = g.game_time;
        g.update(due - now);
        g.handle_key(Key::Char(g.notes[i].key));
        assert_eq!(g.notes[i].hit_grade, Some(HitGrade::Perfect));
        expected += 100 * (1 + g.combo / 10);
    }
    assert_eq!(g.combo, 11);
    // hits 1..=9 at x1, hits 10 and 11 at x2
    assert_eq!(expected, 900 + 400);
    assert_eq!(g.score, 1_300);
}

#[test]
fn song_ends_in_results() {
    let mut g = playing(1, 0, 4_000_000);
    // First Steps: 74 beats at 110 BPM = 40_363_636 us, plus 4.5 s
    g.update(40_363_636 + 4_500_000 - 4_000_000);
    assert_eq!(g.phase, GamePhase::Playing);
    g.update(1);
    assert_eq!(g.phase, GamePhase::Results);
    assert!(g.notes.iter().all(|n| !n.active));
    assert_eq!(g.hit_counts[3], 94);
    assert_eq!(g.grade_letter(), "F");
    assert_eq!(g.accuracy(), (0, 376));
    assert_eq!(g.song_progress(), (40_363_636, 40_363_636));
    g.handle_key(Key::Enter);
    assert_eq!(g.phase, GamePhase::SongSelect);
}

#[test]
fn escape_and_quit_keys() {
    let mut g = Game::new();
    assert!(g.handle_key_press(Key::Esc));
    assert_eq!(g.phase, GamePhase::Title);
    assert!(!g.handle_key_press(Key::Enter));
    assert!(g.handle_key_press(Key::Char('q')));
    assert!(!g.handle_key_press(Key::Enter));
    assert_eq!(g.phase, GamePhase::SongSelect);
    assert!(!g.handle_key_press(Key::Esc));
    assert_eq!(g.phase, GamePhase::DifficultySelect);
    assert!(!g.handle_key_press(Key::Enter));
    assert!(!g.handle_key_press(Key::Enter));
    assert_eq!(g.phase, GamePhase::Playing);
    // during play 'q' is just a key
    assert!(!g.handle_key_press(Key::Char('q')));
    assert!(!g.handle_key_press(Key::Esc));
    assert_eq!(g.phase, GamePhase::Results);
    assert!(!g.handle_key_press(Key::Esc));
    assert_eq!(g.phase, GamePhase::SongSelect);
}

#[test]
fn hardcore_shows_next_key_per_lane() {
    let g = playing(2, 0, COUNTDOWN_US);
    // first note of First Steps is in lane 0
    assert_eq!(g.display_key_for_lane(0), g.notes[0].key);
    assert_eq!(g.next_key_for_lane(0), Some(g.notes[0].key));
    assert_eq!(g.next_key_for_lane(7), None);
    assert_eq!(g.display_key_for_lane(7), '·');
}

#[test]
fn all_difficulties_in_menu_order() {
    assert_eq!(
        ALL_DIFFICULTIES,
        [Difficulty::Beginner, Difficulty::Standard, Difficulty::Hardcore]
    );
}

#[test]
fn escape_in_difficulty_selection_quits() {
    let mut g = Game::new();
    assert!(!g.handle_key_press(Key::Enter));
    assert_eq!(g.phase, GamePhase::DifficultySelect);
    assert!(g.handle_key_press(Key::Esc));
    assert_eq!(g.phase, GamePhase::DifficultySelect);
}

/// A state in play holding one waiting note and counters set by hand.
fn one_note_state(key: char, hit_time: u64, t: u64, score: u32, combo: u32, perfects: u32) -> Game {
    let mut g = Game::new();
    g.phase = GamePhase::Playing;
    g.countdown = None;
    g.game_time = t;
    g.score = score;
    g.combo = combo;
    g.max_combo = combo;
    g.hit_counts = [perfects, 0, 0, 0];
    g.notes = vec![Note { lane: 2, key, hit_time, active: true, hit_grade: None }];
    g
}

#[test]
fn tenth_consecutive_hit_doubles_the_points() {
    let mut g = one_note_state('d', 1_000_000, 1_000_000, 0, 9, 9);
    g.handle_key(Key::Char('d'));
    assert_eq!(g.notes[0].hit_grade, Some(HitGrade::Perfect));
    assert_eq!(g.combo, 10);
    assert_eq!(g.max_combo, 10);
    assert_eq!(g.score, 200);
    assert_eq!(g.hit_counts, [10, 0, 0, 0]);
}

#[test]
fn late_press_is_a_miss_that_breaks_the_combo() {
    let mut g = one_note_state('a', 1_000_000, 1_170_000, 500, 5, 5);
    g.handle_key(Key::Char('a'));
    assert!(!g.notes[0].active);
    assert_eq!(g.notes[0].hit_grade, Some(HitGrade::Miss));
    assert_eq!(g.combo, 0);
    assert_eq!(g.max_combo, 5);
    assert_eq!(g.score, 500);
    assert_eq!(g.hit_counts, [5, 0, 0, 1]);
}
