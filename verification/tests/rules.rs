use keyz::difficulty::{board_lane_for, Difficulty};
use keyz::grade::{grade_offset, HitGrade};
use keyz::song::{Note, Song};
use keyz::songs::builtin_songs;

#[test]
fn difficulty_texts_and_colors() {
    assert_eq!(Difficulty::Beginner.label(), "Beginner");
    assert_eq!(Difficulty::Standard.label(), "Standard");
    assert_eq!(Difficulty::Hardcore.label(), "Hardcore");
    assert_eq!(Difficulty::Beginner.description(), "4 lanes  ·  fixed keys: H J K L");
    assert_eq!(Difficulty::Standard.description(), "8 lanes  ·  fixed keys: A S D F H J K L");
    assert_eq!(Difficulty::Hardcore.description(), "5 lanes  ·  random key on every note");
    assert_eq!(Difficulty::Beginner.color(), (80, 220, 120));
    assert_eq!(Difficulty::Standard.color(), (80, 170, 255));
    assert_eq!(Difficulty::Hardcore.color(), (255, 80, 80));
}

#[test]
fn grade_texts_points_and_colors() {
    assert_eq!(HitGrade::Perfect.label(), "PERFECT");
    assert_eq!(HitGrade::Great.label(), "GREAT");
    assert_eq!(HitGrade::Good.label(), "GOOD");
    assert_eq!(HitGrade::Miss.label(), "MISS");
    assert_eq!(HitGrade::Perfect.points(), 100);
    assert_eq!(HitGrade::Great.points(), 75);
    assert_eq!(HitGrade::Good.points(), 50);
    assert_eq!(HitGrade::Miss.points(), 0);
    assert_eq!(HitGrade::Perfect.color(), (255, 255, 80));
    assert_eq!(HitGrade::Miss.color(), (255, 60, 60));
    assert_eq!(HitGrade::Good.index(), 2);
}

#[test]
fn timing_window_edges() {
    assert_eq!(grade_offset(0), HitGrade::Perfect);
    assert_eq!(grade_offset(45_000), HitGrade::Perfect);
    assert_eq!(grade_offset(45_001), HitGrade::Great);
    assert_eq!(grade_offset(90_000), HitGrade::Great);
    assert_eq!(grade_offset(90_001), HitGrade::Good);
    assert_eq!(grade_offset(140_000), HitGrade::Good);
    assert_eq!(grade_offset(140_001), HitGrade::Miss);
}

#[test]
fn chart_lanes_map_onto_boards() {
    let std_lanes: Vec<usize> = (0..6).map(|l| board_lane_for(Difficulty::Standard, l)).collect();
    assert_eq!(std_lanes, vec![0, 2, 4, 5, 7, 7]);
    let beg_lanes: Vec<usize> = (0..5).map(|l| board_lane_for(Difficulty::Beginner, l)).collect();
    assert_eq!(beg_lanes, vec![0, 1, 2, 2, 3]);
    assert_eq!(board_lane_for(Difficulty::Hardcore, 9), 4);
}

#[test]
fn song_timing() {
    let s = Song {
        name: "x".to_string(),
        artist: "y".to_string(),
        bpm_milli: 120_000,
        chart: vec![(0, 0)],
        total_beats_milli: 8_000,
    };
    assert_eq!(s.beat_duration(), 500_000);
    assert_eq!(s.duration_secs(), 4_000_000);
}

#[test]
fn note_depth() {
    let n = Note { lane: 0, key: 'a', hit_time: 4_000_000, active: true, hit_grade: None };
    // depth = z_position / 2_500_000
    assert_eq!(n.z_position(4_000_000), 2_500_000);
    assert_eq!(n.z_position(1_500_000), 0);
    assert_eq!(n.z_position(2_750_000), 1_250_000);
    assert_eq!(n.z_position(4_250_000), 2_750_000);
    assert_eq!(n.z_position(0), -1_500_000);
    assert_eq!(n.z_position(1), -1_499_999);
}

#[test]
fn note_from_chart_entry() {
    let n = Note::from_chart(2_000, 3, Difficulty::Standard, 120_000, 0);
    assert_eq!((n.lane, n.key, n.hit_time), (5, 'j', 5_000_000));
    let h = Note::from_chart(2_000, 3, Difficulty::Hardcore, 120_000, 25);
    assert_eq!((h.lane, h.key), (3, 'z'));
}

#[test]
fn builtin_song_shapes() {
    let songs = builtin_songs();
    let names: Vec<&str> = songs.iter().map(|s| s.name.as_str()).collect();
    assert_eq!(names, vec!["First Steps", "Neon Cascade", "Stardust"]);
    let lens: Vec<usize> = songs.iter().map(|s| s.chart.len()).collect();
    assert_eq!(lens, vec![94, 156, 212]);
    assert_eq!(songs[1].chart[136], (56_000, 0));
    assert_eq!(songs[1].chart[137], (56_485, 1));
    assert_eq!(songs[2].chart[149], (56_333, 2));
    assert!(songs.iter().all(|s| s.chart.iter().all(|&(_, l)| l < 5)));
}
