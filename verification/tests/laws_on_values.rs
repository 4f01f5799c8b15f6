use keyz::game::{Game, GamePhase, Key, COUNTDOWN_US};
use keyz::grade::HitGrade;

fn playing_standard_at(t: u64) -> Game {
    let mut g = Game::new();
    g.handle_key(Key::Enter);
    g.handle_key(Key::Enter);
    g.handle_key(Key::Enter);
    g.update(COUNTDOWN_US);
    g.update(t - COUNTDOWN_US);
    g
}

#[test]
fn a_judged_note_stays_judged() {
    let mut g = playing_standard_at(4_000_000);
    g.handle_key(Key::Char('a'));
    let judged = g.notes[0];
    assert_eq!(judged.hit_grade, Some(HitGrade::Perfect));
    // pressing again reaches no other note and changes nothing
    g.handle_key(Key::Char('a'));
    assert_eq!(g.notes[0].hit_grade, Some(HitGrade::Perfect));
    assert_eq!(g.hit_counts, [1, 0, 0, 0]);
    // time passing does not turn it into a miss
    g.update(1_000_000);
    assert_eq!(g.notes[0].hit_grade, Some(HitGrade::Perfect));
    assert!(!g.notes[0].active);
}

#[test]
fn time_passing_keeps_the_score() {
    let mut g = playing_standard_at(4_000_000);
    g.handle_key(Key::Char('a'));
    let score = g.score;
    g.update(5_000_000);
    assert!(g.hit_counts[3] > 0);
    assert_eq!(g.score, score);
    assert_eq!(g.max_combo, 1);
    assert_eq!(g.combo, 0);
}

#[test]
fn counters_add_up_to_judged_notes() {
    let mut g = playing_standard_at(4_000_000);
    g.handle_key(Key::Char('a'));
    g.update(3_000_000);
    let judged = g.notes.iter().filter(|n| n.hit_grade.is_some()).count() as u32;
    assert_eq!(g.hit_counts.iter().sum::<u32>(), judged);
    assert!(judged <= g.total_notes);
    for (k, grade) in [HitGrade::Perfect, HitGrade::Great, HitGrade::Good, HitGrade::Miss]
        .iter()
        .enumerate()
    {
        let n = g.notes.iter().filter(|n| n.hit_grade == Some(*grade)).count() as u32;
        assert_eq!(g.hit_counts[k], n);
    }
}

#[test]
fn up_then_down_returns_to_the_same_entry() {
    let mut g = Game::new();
    g.handle_key(Key::Enter);
    assert_eq!(g.selected_difficulty, 1);
    g.handle_key(Key::Up);
    g.handle_key(Key::Down);
    assert_eq!(g.selected_difficulty, 1);
    g.handle_key(Key::Down);
    g.handle_key(Key::Up);
    assert_eq!(g.selected_difficulty, 1);
    g.handle_key(Key::Enter);
    g.handle_key(Key::Down);
    g.handle_key(Key::Up);
    assert_eq!(g.selected_song, 0);
    assert_eq!(g.phase, GamePhase::SongSelect);
}

#[test]
fn progress_runs_from_empty_to_full() {
    let mut g = Game::new();
    g.handle_key(Key::Enter);
    g.handle_key(Key::Enter);
    g.handle_key(Key::Enter);
    assert_eq!(g.song_progress(), (0, 40_363_636));
    g.update(COUNTDOWN_US);
    // First Steps lasts 40_363_636 us
    assert_eq!(g.song_progress(), (3_000_000, 40_363_636));
    g.update(40_000_000);
    assert_eq!(g.song_progress(), (40_363_636, 40_363_636));
}

#[test]
fn accuracy_is_full_only_with_perfects() {
    let mut g = playing_standard_at(4_000_000);
    g.handle_key(Key::Char('a'));
    assert_eq!(g.accuracy(), (400, 4));
    assert_eq!(g.grade_letter(), "S");
    // next note (4_545_454) hit 60 ms late: GREAT, 7/8 = 87.5%
    g.update(605_454);
    g.handle_key(Key::Char('a'));
    assert_eq!(g.notes[1].hit_grade, Some(HitGrade::Great));
    assert_eq!(g.accuracy(), (700, 8));
    assert_eq!(g.grade_letter(), "B");
}
