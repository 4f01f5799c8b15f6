use vstd::prelude::*;
use crate::difficulty::{
    fixed_key, has_fixed_keys, lane_count, lane_color_of, lane_in_table, Difficulty,
    ALL_DIFFICULTIES, MAX_LANES,
};
use crate::grade::{
    combo_multiplier, grade_for_offset, grade_index, grade_points, grade_offset, HitGrade,
    APPROACH_TIME_US, MISS_CUTOFF_US, WINDOW_MISS_US,
};
use crate::song::{spec_note_for, Note, Song, LEAD_IN_US};
use crate::songs::{
    builtin_shape, builtin_songs, first_steps_chart, neon_cascade_chart, stardust_chart,
};
use crate::rng::random_below;

verus! {

/// Which screen the game is on.
#[derive(Clone, Copy, PartialEq, Eq, Structural, Debug)]
pub enum GamePhase {
    Title,
    DifficultySelect,
    SongSelect,
    Playing,
    Results,
    Quit,
}

/// The keys the game reacts to.
#[derive(Clone, Copy, PartialEq, Eq, Structural, Debug)]
pub enum Key {
    Up,
    Down,
    Enter,
    Esc,
    Char(char),
    Other,
}

/// Length of the countdown before a song starts, in microseconds.
pub const COUNTDOWN_US: u64 = 3_000_000;

/// How long after the last beat (plus the approach time) a song ends, in microseconds.
pub const END_PADDING_US: u64 = 2_000_000;

/// The whole state of a game session.
pub struct Game {
    pub phase: GamePhase,
    pub difficulty: Difficulty,
    pub selected_difficulty: usize,
    pub songs: Vec<Song>,
    pub selected_song: usize,
    /// The notes of the song being played.
    pub notes: Vec<Note>,
    /// Time since the song started, in microseconds.
    pub game_time: u64,
    /// Time left before play starts, in microseconds.
    pub countdown: Option<u64>,
    pub score: u32,
    pub combo: u32,
    pub max_combo: u32,
    pub total_notes: u32,
    /// Judged notes per grade: perfect, great, good, miss.
    pub hit_counts: [u32; 4],
    /// The latest judgement and the game time at which it was made.
    pub last_hit: Option<(HitGrade, u64)>,
    /// Per lane, the game time of the latest note hit in that lane.
    pub lane_flash: [Option<u64>; MAX_LANES],
}

/// A game session as a value: the fields of `Game`, with its collections as sequences.
pub struct GameView {
    pub phase: GamePhase,
    pub difficulty: Difficulty,
    pub selected_difficulty: usize,
    pub songs: Seq<Song>,
    pub selected_song: usize,
    pub notes: Seq<Note>,
    pub game_time: u64,
    pub countdown: Option<u64>,
    pub score: u32,
    pub combo: u32,
    pub max_combo: u32,
    pub total_notes: u32,
    pub hit_counts: Seq<u32>,
    pub last_hit: Option<(HitGrade, u64)>,
    pub lane_flash: Seq<Option<u64>>,
}

impl View for Game {
    type V = GameView;

    open spec fn view(&self) -> GameView {
        GameView {
            phase: self.phase,
            difficulty: self.difficulty,
            selected_difficulty: self.selected_difficulty,
            songs: self.songs@,
            selected_song: self.selected_song,
            notes: self.notes@,
            game_time: self.game_time,
            countdown: self.countdown,
            score: self.score,
            combo: self.combo,
            max_combo: self.max_combo,
            total_notes: self.total_notes,
            hit_counts: self.hit_counts@,
            last_hit: self.last_hit,
            lane_flash: self.lane_flash@,
        }
    }
}

// ── Counting judged notes ───────────────────────────────────────────────────

/// The number of notes judged with grade `g`.
pub open spec fn count_grade(notes: Seq<Note>, g: HitGrade) -> nat
    decreases notes.len(),
{
    if notes.len() == 0 {
        0
    } else {
        count_grade(notes.drop_last(), g) + if notes.last().hit_grade == Some(g) {
            1nat
        } else {
            0nat
        }
    }
}

/// The number of notes that have a judgement.
pub open spec fn count_judged(notes: Seq<Note>) -> nat
    decreases notes.len(),
{
    if notes.len() == 0 {
        0
    } else {
        count_judged(notes.drop_last()) + if notes.last().hit_grade is Some {
            1nat
        } else {
            0nat
        }
    }
}

/// No grade is given to more notes than are judged, nor are more notes judged than exist.
pub proof fn lemma_count_bounds(notes: Seq<Note>, g: HitGrade)
    ensures
        count_grade(notes, g) <= count_judged(notes),
        count_judged(notes) <= notes.len(),
    decreases notes.len(),
{
    if notes.len() > 0 {
        lemma_count_bounds(notes.drop_last(), g);
    }
}

/// Judging one unjudged note with grade `g0` adds one to the count of `g0`,
/// leaves the other grades' counts alone, and adds one to the judged notes.
pub proof fn lemma_count_judge(notes: Seq<Note>, i: int, n: Note, g0: HitGrade, g: HitGrade)
    requires
        0 <= i < notes.len(),
        notes[i].hit_grade is None,
        n.hit_grade == Some(g0),
    ensures
        count_grade(notes.update(i, n), g) == count_grade(notes, g) + if g == g0 {
            1nat
        } else {
            0nat
        },
        count_judged(notes.update(i, n)) == count_judged(notes) + 1,
    decreases notes.len(),
{
    let u = notes.update(i, n);
    if i == notes.len() - 1 {
        assert(u.drop_last() =~= notes.drop_last());
    } else {
        assert(u.drop_last() =~= notes.drop_last().update(i, n));
        lemma_count_judge(notes.drop_last(), i, n, g0, g);
    }
}

/// Counts grow by one per note judged: with an unjudged note present, fewer
/// notes are judged than exist.
pub proof fn lemma_unjudged_leaves_room(notes: Seq<Note>, i: int)
    requires
        0 <= i < notes.len(),
        notes[i].hit_grade is None,
    ensures
        count_judged(notes) < notes.len(),
{
    let n = Note { hit_grade: Some(HitGrade::Miss), ..notes[i] };
    lemma_count_judge(notes, i, n, HitGrade::Miss, HitGrade::Miss);
    lemma_count_bounds(notes.update(i, n), HitGrade::Miss);
}

/// The number of notes still waiting to be judged.
pub open spec fn count_active(notes: Seq<Note>) -> nat
    decreases notes.len(),
{
    if notes.len() == 0 {
        0
    } else {
        count_active(notes.drop_last()) + if notes.last().active {
            1nat
        } else {
            0nat
        }
    }
}

/// No more notes wait than exist.
pub proof fn lemma_active_bound(notes: Seq<Note>)
    ensures
        count_active(notes) <= notes.len(),
    decreases notes.len(),
{
    if notes.len() > 0 {
        lemma_active_bound(notes.drop_last());
    }
}

/// Taking a waiting note out of play leaves one note fewer waiting.
pub proof fn lemma_active_retire(notes: Seq<Note>, i: int, n: Note)
    requires
        0 <= i < notes.len(),
        notes[i].active,
        !n.active,
    ensures
        count_active(notes.update(i, n)) + 1 == count_active(notes),
    decreases notes.len(),
{
    let u = notes.update(i, n);
    if i == notes.len() - 1 {
        assert(u.drop_last() =~= notes.drop_last());
    } else {
        assert(u.drop_last() =~= notes.drop_last().update(i, n));
        lemma_active_retire(notes.drop_last(), i, n);
    }
}

/// With every note judged, the judged notes are all the notes.
pub proof fn lemma_all_judged(notes: Seq<Note>)
    requires
        forall|i: int| 0 <= i < notes.len() ==> (#[trigger] notes[i]).hit_grade is Some,
    ensures
        count_judged(notes) == notes.len(),
    decreases notes.len(),
{
    if notes.len() > 0 {
        lemma_all_judged(notes.drop_last());
    }
}

/// Every judged note carries exactly one grade: the four per-grade counts add
/// up to the number of judged notes.
pub proof fn lemma_grades_partition(notes: Seq<Note>)
    ensures
        count_grade(notes, HitGrade::Perfect) + count_grade(notes, HitGrade::Great) + count_grade(
            notes,
            HitGrade::Good,
        ) + count_grade(notes, HitGrade::Miss) == count_judged(notes),
    decreases notes.len(),
{
    if notes.len() > 0 {
        lemma_grades_partition(notes.drop_last());
        match notes.last().hit_grade {
            Some(HitGrade::Perfect) => {},
            Some(HitGrade::Great) => {},
            Some(HitGrade::Good) => {},
            Some(HitGrade::Miss) => {},
            None => {},
        }
    }
}

// ── Well-formedness ─────────────────────────────────────────────────────────

/// Every beat of song `s`'s chart lies within the song's length.
pub open spec fn chart_ends_by_total(s: Song) -> bool {
    forall|i: int| 0 <= i < s.chart@.len() ==> (#[trigger] s.chart@[i]).0 <= s.total_beats_milli
}

/// Every note is due no later than the selected song's end plus the lead-in.
pub open spec fn notes_due_by_end(g: GameView) -> bool {
    forall|i: int|
        0 <= i < g.notes.len() ==> (#[trigger] g.notes[i]).hit_time <= g.songs[g.selected_song as int].spec_duration()
            + LEAD_IN_US
}

impl GameView {
    /// What the game's operations need of a state to run without fault: the
    /// menus point at existing entries of well-formed songs, every note lies
    /// on the board, and no counter nor the combo can overflow however many
    /// of the waiting notes are still judged.
    pub open spec fn inv(&self) -> bool {
        &&& 0 < self.songs.len() <= usize::MAX
        &&& self.selected_song < self.songs.len()
        &&& forall|i: int| 0 <= i < self.songs.len() ==> #[trigger] self.songs[i].well_formed()
        &&& self.selected_difficulty < 3
        &&& forall|i: int| 0 <= i < self.notes.len() ==> #[trigger] self.notes[i].lane < MAX_LANES
        &&& self.hit_counts.len() == 4
        &&& self.lane_flash.len() == MAX_LANES
        &&& forall|g: HitGrade| #[trigger]
            self.hit_counts[grade_index(g)] + count_active(self.notes) <= u32::MAX
        &&& self.combo + count_active(self.notes) <= u32::MAX
    }

    /// What every state that the game itself reaches satisfies: every note is
    /// judged exactly when it is no longer active, the per-grade counters
    /// count the notes judged with each grade, the combo never exceeds the
    /// best combo, which never exceeds the number of judged notes, and during
    /// play of a song whose chart lies within its length every note is due
    /// before the song ends.
    pub open spec fn consistent(&self) -> bool {
        &&& self.notes.len() <= u32::MAX
        &&& self.total_notes == self.notes.len()
        &&& forall|i: int|
            0 <= i < self.notes.len() ==> (#[trigger] self.notes[i].active
                <==> self.notes[i].hit_grade is None)
        &&& forall|g: HitGrade| #[trigger]
            self.hit_counts[grade_index(g)] == count_grade(self.notes, g)
        &&& self.combo <= self.max_combo
        &&& self.max_combo <= count_judged(self.notes)
        &&& self.phase == GamePhase::Playing && chart_ends_by_total(
            self.songs[self.selected_song as int],
        ) ==> notes_due_by_end(*self)
    }
}

// ── Hitting a note ──────────────────────────────────────────────────────────

/// Distance in microseconds between a note's hit time and the game time `t`.
pub open spec fn offset(n: Note, t: int) -> int {
    if n.hit_time >= t {
        n.hit_time - t
    } else {
        t - n.hit_time
    }
}

/// A press of `key` at game time `t` can reach note `n`: the note still waits,
/// carries that key, and is within the widest timing window.
pub open spec fn reachable(n: Note, key: char, t: int) -> bool {
    &&& n.active
    &&& n.key == key
    &&& offset(n, t) <= WINDOW_MISS_US
}

/// Among the first `k` notes, note `i` is the one a press of `key` at `t`
/// lands on: it is reachable, no reachable note is closer in time, and every
/// reachable note before it is farther.
pub open spec fn closest_in(notes: Seq<Note>, key: char, t: int, k: int, i: int) -> bool {
    &&& 0 <= i < k
    &&& reachable(notes[i], key, t)
    &&& forall|j: int|
        0 <= j < k && #[trigger] reachable(notes[j], key, t) ==> offset(notes[i], t) <= offset(
            notes[j],
            t,
        )
    &&& forall|j: int|
        0 <= j < i && #[trigger] reachable(notes[j], key, t) ==> offset(notes[i], t) < offset(
            notes[j],
            t,
        )
}

/// Note `i` is the one a press of `key` at `t` lands on.
pub open spec fn is_target(notes: Seq<Note>, key: char, t: int, i: int) -> bool {
    closest_in(notes, key, t, notes.len() as int, i)
}

/// Some note is reachable by a press of `key` at `t`.
pub open spec fn has_reachable(notes: Seq<Note>, key: char, t: int) -> bool {
    exists|i: int| 0 <= i < notes.len() && #[trigger] reachable(notes[i], key, t)
}

/// `a` saturating-plus `b` in 32 bits.
pub open spec fn sat_add_u32(a: int, b: int) -> u32 {
    if a + b > u32::MAX {
        u32::MAX
    } else {
        (a + b) as u32
    }
}

/// `a` saturating-times `b` in 32 bits.
pub open spec fn sat_mul_u32(a: int, b: int) -> u32 {
    if a * b > u32::MAX {
        u32::MAX
    } else {
        (a * b) as u32
    }
}

/// The state after note `i` is judged at the current game time: the note is
/// graded by its distance from the hit time, its lane flashes, the grade's
/// counter grows, a MISS breaks the combo while any other grade extends it,
/// and the grade's points times the combo multiplier are added to the score.
pub open spec fn spec_judge(g: GameView, i: int) -> GameView {
    let n = g.notes[i];
    let grade = grade_for_offset(offset(n, g.game_time as int));
    let combo: u32 = if grade == HitGrade::Miss {
        0
    } else {
        (g.combo + 1) as u32
    };
    let max_combo: u32 = if combo > g.max_combo {
        combo
    } else {
        g.max_combo
    };
    GameView {
        notes: g.notes.update(i, Note { active: false, hit_grade: Some(grade), ..n }),
        lane_flash: g.lane_flash.update(n.lane as int, Some(g.game_time)),
        hit_counts: g.hit_counts.update(
            grade_index(grade),
            (g.hit_counts[grade_index(grade)] + 1) as u32,
        ),
        combo: combo,
        max_combo: max_combo,
        score: sat_add_u32(
            g.score as int,
            sat_mul_u32(grade_points(grade) as int, combo_multiplier(combo as int)) as int,
        ),
        last_hit: Some((grade, g.game_time)),
        ..g
    }
}

/// The state after the player presses `key` during play: the note the press
/// lands on is judged; with no reachable note nothing changes.
pub open spec fn spec_press(g: GameView, key: char) -> GameView {
    if has_reachable(g.notes, key, g.game_time as int) {
        spec_judge(g, choose|i: int| is_target(g.notes, key, g.game_time as int, i))
    } else {
        g
    }
}

/// A press that reaches some note lands on exactly one.
pub proof fn lemma_target_exists_unique(notes: Seq<Note>, key: char, t: int)
    requires
        has_reachable(notes, key, t),
    ensures
        exists|i: int| is_target(notes, key, t, i),
        forall|i: int, j: int|
            is_target(notes, key, t, i) && is_target(notes, key, t, j) ==> i == j,
{
    let w = choose|i: int| 0 <= i < notes.len() && #[trigger] reachable(notes[i], key, t);
    let best = lemma_closest(notes, key, t, notes.len() as int, w);
    assert(is_target(notes, key, t, best));
    assert forall|i: int, j: int|
        is_target(notes, key, t, i) && is_target(notes, key, t, j) implies i == j by {
        if i < j {
            assert(reachable(notes[i], key, t));
        } else if j < i {
            assert(reachable(notes[j], key, t));
        }
    }
}

proof fn lemma_closest(notes: Seq<Note>, key: char, t: int, k: int, w: int) -> (i: int)
    requires
        0 <= w < k <= notes.len(),
        reachable(notes[w], key, t),
    ensures
        closest_in(notes, key, t, k, i),
    decreases k,
{
    if exists|j: int| 0 <= j < k - 1 && #[trigger] reachable(notes[j], key, t) {
        let w2 = choose|j: int| 0 <= j < k - 1 && #[trigger] reachable(notes[j], key, t);
        let i2 = lemma_closest(notes, key, t, k - 1, w2);
        if reachable(notes[k - 1], key, t) && offset(notes[k - 1], t) < offset(notes[i2], t) {
            assert forall|j: int|
                0 <= j < k - 1 && #[trigger] reachable(notes[j], key, t) implies offset(
                    notes[k - 1],
                    t,
                ) < offset(notes[j], t) by {}
            k - 1
        } else {
            i2
        }
    } else {
        assert(w == k - 1);
        k - 1
    }
}

// ── Advancing the clock ─────────────────────────────────────────────────────

/// Note `n` has passed the hit zone by more than the miss cutoff at game time
/// `t` without being hit.
pub open spec fn missed_by(n: Note, t: int) -> bool {
    n.active && t > n.hit_time + MISS_CUTOFF_US
}

/// Note `n` after the miss check at game time `t`.
pub open spec fn after_miss_check(n: Note, t: int) -> Note {
    if missed_by(n, t) {
        Note { active: false, hit_grade: Some(HitGrade::Miss), ..n }
    } else {
        n
    }
}

/// The number of notes that the miss check at game time `t` judges.
pub open spec fn count_missed(notes: Seq<Note>, t: int) -> nat
    decreases notes.len(),
{
    if notes.len() == 0 {
        0
    } else {
        count_missed(notes.drop_last(), t) + if missed_by(notes.last(), t) {
            1nat
        } else {
            0nat
        }
    }
}

/// The game time after a frame of `dt` microseconds that is not spent in the
/// countdown: a frame that ends the countdown starts the clock at `dt`.
pub open spec fn clock_after(g: GameView, dt: u64) -> u64 {
    if g.countdown is Some {
        dt
    } else if g.game_time + dt > u64::MAX {
        u64::MAX
    } else {
        (g.game_time + dt) as u64
    }
}

/// At game time `t` the selected song is over: its last beat has passed the
/// hit zone by more than the end padding.
pub open spec fn song_over_at(g: GameView, t: int) -> bool {
    t > g.songs[g.selected_song as int].spec_duration() + APPROACH_TIME_US + END_PADDING_US
}

/// The state after a frame of `dt` microseconds. Outside play nothing
/// changes. During the countdown only the countdown runs down. Otherwise the
/// clock advances, every waiting note more than the miss cutoff past its hit
/// time is judged a MISS (which breaks the combo), and once the song is over
/// the results are shown.
pub open spec fn spec_update(g: GameView, dt: u64) -> GameView {
    if g.phase != GamePhase::Playing {
        g
    } else if g.countdown is Some && dt < g.countdown->0 {
        GameView { countdown: Some((g.countdown->0 - dt) as u64), ..g }
    } else {
        let t = clock_after(g, dt);
        let missed = count_missed(g.notes, t as int);
        GameView {
            countdown: None,
            game_time: t,
            notes: Seq::new(g.notes.len(), |i: int| after_miss_check(g.notes[i], t as int)),
            combo: if missed > 0 {
                0
            } else {
                g.combo
            },
            hit_counts: g.hit_counts.update(3, (g.hit_counts[3] + missed) as u32),
            last_hit: if missed > 0 {
                Some((HitGrade::Miss, t))
            } else {
                g.last_hit
            },
            phase: if song_over_at(g, t as int) {
                GamePhase::Results
            } else {
                GamePhase::Playing
            },
            ..g
        }
    }
}

// ── Starting a song ─────────────────────────────────────────────────────────

/// Note `n` is the note of chart entry `entry` of a song at `bpm_milli` played
/// at difficulty `d`, with any lowercase letter as its key where keys are random.
pub open spec fn fits_entry(n: Note, entry: (u64, usize), d: Difficulty, bpm_milli: int) -> bool {
    if has_fixed_keys(d) {
        n == spec_note_for(entry.0 as int, entry.1 as int, d, bpm_milli, 0)
    } else {
        &&& 'a' <= n.key <= 'z'
        &&& n == spec_note_for(entry.0 as int, entry.1 as int, d, bpm_milli, (n.key as int - 97) as u8)
    }
}

/// `new` is `old` with the selected song started: one fresh note per chart
/// entry, the countdown running, score, combo and counters cleared, and
/// nothing flashing.
pub open spec fn song_started(old: GameView, new: GameView) -> bool {
    let song = old.songs[old.selected_song as int];
    &&& new.notes.len() == song.chart@.len()
    &&& forall|i: int|
        0 <= i < new.notes.len() ==> fits_entry(
            #[trigger] new.notes[i],
            song.chart@[i],
            old.difficulty,
            song.bpm_milli as int,
        )
    &&& new == GameView {
        notes: new.notes,
        total_notes: new.notes.len() as u32,
        score: 0,
        combo: 0,
        max_combo: 0,
        hit_counts: seq![0u32, 0u32, 0u32, 0u32],
        last_hit: None,
        lane_flash: Seq::new(MAX_LANES as nat, |i: int| None),
        game_time: 0,
        countdown: Some(COUNTDOWN_US),
        phase: GamePhase::Playing,
        ..old
    }
}

/// No note of a freshly started song is judged yet.
proof fn lemma_fresh_counts(notes: Seq<Note>, g: HitGrade)
    requires
        forall|i: int| 0 <= i < notes.len() ==> (#[trigger] notes[i]).hit_grade is None,
    ensures
        count_grade(notes, g) == 0,
        count_judged(notes) == 0,
    decreases notes.len(),
{
    if notes.len() > 0 {
        lemma_fresh_counts(notes.drop_last(), g);
    }
}

// ── Keys ────────────────────────────────────────────────────────────────────

/// Enter or space confirms.
pub open spec fn is_confirm(k: Key) -> bool {
    k == Key::Enter || k == Key::Char(' ')
}

/// Up or `k` moves up a menu.
pub open spec fn is_up(k: Key) -> bool {
    k == Key::Up || k == Key::Char('k')
}

/// Down or `j` moves down a menu.
pub open spec fn is_down(k: Key) -> bool {
    k == Key::Down || k == Key::Char('j')
}

/// The key starts the selected song.
pub open spec fn starts_song(g: GameView, k: Key) -> bool {
    g.phase == GamePhase::SongSelect && is_confirm(k)
}

/// The state after `key` is pressed, for every press that does not start a
/// song: the title screen leads to difficulty selection; the menus move their
/// selection within bounds and confirm; during play (once the countdown is
/// over) a letter judges a note; the results lead back to song selection.
pub open spec fn spec_handle_key(g: GameView, key: Key) -> GameView {
    match g.phase {
        GamePhase::Title => if is_confirm(key) {
            GameView { phase: GamePhase::DifficultySelect, ..g }
        } else {
            g
        },
        GamePhase::DifficultySelect => if is_up(key) {
            if g.selected_difficulty > 0 {
                GameView { selected_difficulty: (g.selected_difficulty - 1) as usize, ..g }
            } else {
                g
            }
        } else if is_down(key) {
            if g.selected_difficulty < 2 {
                GameView { selected_difficulty: (g.selected_difficulty + 1) as usize, ..g }
            } else {
                g
            }
        } else if is_confirm(key) {
            GameView {
                difficulty: ALL_DIFFICULTIES@[g.selected_difficulty as int],
                phase: GamePhase::SongSelect,
                ..g
            }
        } else {
            g
        },
        GamePhase::SongSelect => if is_up(key) {
            if g.selected_song > 0 {
                GameView { selected_song: (g.selected_song - 1) as usize, ..g }
            } else {
                g
            }
        } else if is_down(key) {
            if g.selected_song < g.songs.len() - 1 {
                GameView { selected_song: (g.selected_song + 1) as usize, ..g }
            } else {
                g
            }
        } else {
            g
        },
        GamePhase::Playing => if g.countdown is Some {
            g
        } else {
            match key {
                Key::Char(c) => spec_press(g, c),
                _ => g,
            }
        },
        GamePhase::Results => if is_confirm(key) {
            GameView { phase: GamePhase::SongSelect, ..g }
        } else {
            g
        },
        GamePhase::Quit => g,
    }
}

/// A key press ends the session: Escape where there is no screen to step back
/// to, or `q` anywhere but during play.
pub open spec fn quits_on(g: GameView, key: Key) -> bool {
    ||| key == Key::Esc && g.phase != GamePhase::Playing && g.phase != GamePhase::SongSelect
        && g.phase != GamePhase::Results
    ||| key == Key::Char('q') && g.phase != GamePhase::Playing
}

/// The state after Escape where it steps back: play ends in the results, song
/// selection returns to difficulty selection, the results return to song
/// selection.
pub open spec fn spec_escape(g: GameView) -> GameView {
    match g.phase {
        GamePhase::Playing => GameView { phase: GamePhase::Results, ..g },
        GamePhase::SongSelect => GameView { phase: GamePhase::DifficultySelect, ..g },
        GamePhase::Results => GameView { phase: GamePhase::SongSelect, ..g },
        _ => g,
    }
}

// ── Scoring summaries ───────────────────────────────────────────────────────

/// Judged notes weighted in quarters: PERFECT 4, GREAT 3, GOOD 2, MISS 0.
pub open spec fn weighted_quarters(c: Seq<u32>) -> int {
    4 * c[0] + 3 * c[1] + 2 * c[2]
}

/// All judged notes.
pub open spec fn judged_total(c: Seq<u32>) -> int {
    c[0] + c[1] + c[2] + c[3]
}

/// Accuracy in percent, as (numerator, denominator): PERFECT counts fully,
/// GREAT three quarters, GOOD half, MISS nothing; 100% before any judgement.
pub open spec fn accuracy_fraction(c: Seq<u32>) -> (int, int) {
    if judged_total(c) == 0 {
        (100, 1)
    } else {
        (100 * weighted_quarters(c), 4 * judged_total(c))
    }
}

/// The accuracy is at least `pct` percent (exactly, before rounding).
pub open spec fn accuracy_at_least(c: Seq<u32>, pct: int) -> bool {
    judged_total(c) == 0 || 100 * weighted_quarters(c) >= pct * 4 * judged_total(c)
}

/// The accuracy thresholds of the letter grades, multiplied out.
pub proof fn lemma_thresholds(c: Seq<u32>)
    ensures
        accuracy_at_least(c, 95) == (judged_total(c) == 0 || 100 * weighted_quarters(c) >= 380
            * judged_total(c)),
        accuracy_at_least(c, 90) == (judged_total(c) == 0 || 100 * weighted_quarters(c) >= 360
            * judged_total(c)),
        accuracy_at_least(c, 80) == (judged_total(c) == 0 || 100 * weighted_quarters(c) >= 320
            * judged_total(c)),
        accuracy_at_least(c, 70) == (judged_total(c) == 0 || 100 * weighted_quarters(c) >= 280
            * judged_total(c)),
        accuracy_at_least(c, 60) == (judged_total(c) == 0 || 100 * weighted_quarters(c) >= 240
            * judged_total(c)),
{
    let t = judged_total(c);
    assert(95 * 4 * t == 380 * t) by (nonlinear_arith);
    assert(90 * 4 * t == 360 * t) by (nonlinear_arith);
    assert(80 * 4 * t == 320 * t) by (nonlinear_arith);
    assert(70 * 4 * t == 280 * t) by (nonlinear_arith);
    assert(60 * 4 * t == 240 * t) by (nonlinear_arith);
}

/// The letter grade of an accuracy: S from 95%, A from 90%, B from 80%,
/// C from 70%, D from 60%, F below.
pub open spec fn letter_for(c: Seq<u32>) -> Seq<char> {
    if accuracy_at_least(c, 95) {
        "S"@
    } else if accuracy_at_least(c, 90) {
        "A"@
    } else if accuracy_at_least(c, 80) {
        "B"@
    } else if accuracy_at_least(c, 70) {
        "C"@
    } else if accuracy_at_least(c, 60) {
        "D"@
    } else {
        "F"@
    }
}

/// Among the first `k` notes, note `i` is the next one due in `lane`: active,
/// in that lane, due no later than any other such note, and due strictly
/// before every such note ahead of it.
pub open spec fn next_in_lane(notes: Seq<Note>, lane: usize, k: int, i: int) -> bool {
    &&& 0 <= i < k
    &&& waiting_in(notes[i], lane)
    &&& forall|j: int|
        0 <= j < k && #[trigger] waiting_in(notes[j], lane) ==> notes[i].hit_time
            <= notes[j].hit_time
    &&& forall|j: int|
        0 <= j < i && #[trigger] waiting_in(notes[j], lane) ==> notes[i].hit_time
            < notes[j].hit_time
}

/// Note `n` is active in `lane`.
pub open spec fn waiting_in(n: Note, lane: usize) -> bool {
    n.active && n.lane == lane
}

/// The key of the next note due in `lane`, if any note waits there.
pub open spec fn spec_next_key(notes: Seq<Note>, lane: usize) -> Option<char> {
    if exists|i: int| 0 <= i < notes.len() && #[trigger] waiting_in(notes[i], lane) {
        Some(notes[choose|i: int| next_in_lane(notes, lane, notes.len() as int, i)].key)
    } else {
        None
    }
}

/// The key shown for `lane` at difficulty `d`: the lane's own key where the
/// difficulty fixes keys, else the key of the next note due in the lane, or
/// '·' when none waits there.
pub open spec fn shown_key(d: Difficulty, notes: Seq<Note>, lane: usize) -> char {
    if has_fixed_keys(d) {
        fixed_key(d, lane as int)
    } else {
        match spec_next_key(notes, lane) {
            Some(k) => k,
            None => '·',
        }
    }
}

/// Where a note waits in a lane, exactly one note is the next due there.
pub proof fn lemma_next_in_lane_unique(notes: Seq<Note>, lane: usize)
    requires
        exists|i: int| 0 <= i < notes.len() && #[trigger] waiting_in(notes[i], lane),
    ensures
        exists|i: int| next_in_lane(notes, lane, notes.len() as int, i),
        forall|i: int, j: int|
            next_in_lane(notes, lane, notes.len() as int, i) && next_in_lane(
                notes,
                lane,
                notes.len() as int,
                j,
            ) ==> i == j,
{
    let w = choose|i: int| 0 <= i < notes.len() && #[trigger] waiting_in(notes[i], lane);
    let best = lemma_next_exists(notes, lane, notes.len() as int, w);
    assert forall|i: int, j: int|
        next_in_lane(notes, lane, notes.len() as int, i) && next_in_lane(
            notes,
            lane,
            notes.len() as int,
            j,
        ) implies i == j by {
        if i < j {
            assert(waiting_in(notes[i], lane));
        } else if j < i {
            assert(waiting_in(notes[j], lane));
        }
    }
}

proof fn lemma_next_exists(notes: Seq<Note>, lane: usize, k: int, w: int) -> (i: int)
    requires
        0 <= w < k <= notes.len(),
        waiting_in(notes[w], lane),
    ensures
        next_in_lane(notes, lane, k, i),
    decreases k,
{
    if exists|j: int| 0 <= j < k - 1 && #[trigger] waiting_in(notes[j], lane) {
        let w2 = choose|j: int| 0 <= j < k - 1 && #[trigger] waiting_in(notes[j], lane);
        let i2 = lemma_next_exists(notes, lane, k - 1, w2);
        if waiting_in(notes[k - 1], lane) && notes[k - 1].hit_time < notes[i2].hit_time {
            k - 1
        } else {
            i2
        }
    } else {
        k - 1
    }
}

/// The song's progress at game time `time` as (numerator, denominator): the
/// share of the song's length played, clamped to the whole; zero for a song
/// of no length.
pub open spec fn progress_fraction(time: int, duration: int) -> (int, int) {
    if duration <= 0 {
        (0, 1)
    } else if time >= duration {
        (duration, duration)
    } else {
        (time, duration)
    }
}

/// The state of a new session: the title screen, Standard difficulty
/// preselected, the first song selected, nothing played.
pub open spec fn initial_view(songs: Seq<Song>) -> GameView {
    GameView {
        phase: GamePhase::Title,
        difficulty: Difficulty::Standard,
        selected_difficulty: 1,
        songs: songs,
        selected_song: 0,
        notes: Seq::empty(),
        game_time: 0,
        countdown: None,
        score: 0,
        combo: 0,
        max_combo: 0,
        total_notes: 0,
        hit_counts: seq![0u32, 0u32, 0u32, 0u32],
        last_hit: None,
        lane_flash: Seq::new(MAX_LANES as nat, |i: int| None),
    }
}

/// `a` times `b`, or `u32::MAX` where the product does not fit.
fn saturating_mul_u32(a: u32, b: u32) -> (r: u32)
    ensures
        r == sat_mul_u32(a as int, b as int),
{
    match a.checked_mul(b) {
        Some(v) => v,
        None => u32::MAX,
    }
}

impl Game {
    /// The state lets every operation run without fault (see `GameView::inv`).
    pub open spec fn inv(&self) -> bool {
        self@.inv()
    }

    /// Judges the note that a press of `ch` lands on: of the active notes
    /// with that key within the widest timing window, the one closest to its
    /// hit time (the earliest of equally close ones).
    fn try_hit(&mut self, ch: char)
        requires
            old(self).inv(),
        ensures
            final(self).inv(),
            old(self)@.consistent() ==> final(self)@.consistent(),
            final(self)@ == spec_press(old(self)@, ch),
    {
        let t = self.game_time;
        let ghost notes = self.notes@;
        let mut best: Option<(usize, u64, HitGrade)> = None;
        let len = self.notes.len();
        for i in 0..len
            invariant
                len == self.notes@.len(),
                notes == self.notes@,
                t == self.game_time,
                best is None ==> forall|j: int|
                    0 <= j < i ==> !#[trigger] reachable(notes[j], ch, t as int),
                best matches Some((b, d, g)) ==> {
                    &&& closest_in(notes, ch, t as int, i as int, b as int)
                    &&& d == offset(notes[b as int], t as int)
                    &&& g == grade_for_offset(d as int)
                },
        {
            let note = self.notes[i];
            if note.active && note.key == ch {
                let diff = if note.hit_time >= t {
                    note.hit_time - t
                } else {
                    t - note.hit_time
                };
                if diff <= WINDOW_MISS_US {
                    let grade = grade_offset(diff);
                    let better = match best {
                        None => true,
                        Some((_, d, _)) => diff < d,
                    };
                    if better {
                        proof {
                            if let Some((b, d, g)) = best {
                                assert forall|j: int|
                                    0 <= j < i && #[trigger] reachable(notes[j], ch, t as int)
                                    implies diff < offset(notes[j], t as int) by {}
                            }
                        }
                        best = Some((i, diff, grade));
                    }
                }
            }
        }
        match best {
            None => {
                proof {
                    assert(!has_reachable(notes, ch, t as int));
                }
            },
            Some((idx, diff, grade)) => {
                proof {
                    lemma_target_exists_unique(notes, ch, t as int);
                    assert(is_target(notes, ch, t as int, idx as int));
                }
                let ghost old_view = self@;
                let mut n = self.notes[idx];
                let lane = n.lane;
                n.active = false;
                n.hit_grade = Some(grade);
                proof {
                    lemma_active_retire(notes, idx as int, n);
                    assert(self.hit_counts@[grade_index(grade)] + count_active(notes) <= u32::MAX);
                }
                self.notes.set(idx, n);
                self.lane_flash[lane] = Some(t);
                let k = grade.index();
                self.hit_counts[k] = self.hit_counts[k] + 1;
                match grade {
                    HitGrade::Miss => {
                        self.combo = 0;
                    },
                    _ => {
                        self.combo = self.combo + 1;
                    },
                }
                if self.combo > self.max_combo {
                    self.max_combo = self.combo;
                }
                let multiplier = 1 + self.combo / 10;
                self.score = self.score.saturating_add(
                    saturating_mul_u32(grade.points(), multiplier),
                );
                self.last_hit = Some((grade, t));
                proof {
                    assert(self@ =~= spec_judge(old_view, idx as int));
                    assert forall|g: HitGrade| #[trigger]
                        self.hit_counts@[grade_index(g)] + count_active(self.notes@) <= u32::MAX by {
                        assert(old_view.hit_counts[grade_index(g)] + count_active(notes) <= u32::MAX);
                    }
                    if old_view.consistent() {
                        lemma_unjudged_leaves_room(notes, idx as int);
                        assert forall|g: HitGrade| #[trigger]
                            self.hit_counts@[grade_index(g)] == count_grade(self.notes@, g) by {
                            lemma_count_judge(notes, idx as int, n, grade, g);
                        }
                        lemma_count_judge(notes, idx as int, n, grade, grade);
                        if self.phase == GamePhase::Playing && chart_ends_by_total(
                            self.songs@[self.selected_song as int],
                        ) {
                            assert forall|i: int| 0 <= i < self.notes@.len() implies (
                            #[trigger] self.notes@[i]).hit_time
                                <= self.songs@[self.selected_song as int].spec_duration()
                                + LEAD_IN_US by {
                                assert(notes[i].hit_time == self.notes@[i].hit_time);
                            }
                        }
                    }
                }
            },
        }
    }

    /// Advances the game by a frame of `dt` microseconds (see `spec_update`).
    ///
    /// Once play of a song whose chart lies within its length ends in the
    /// results, every note has been judged and the hit counters add up to
    /// the song's notes.
    #[verifier::spinoff_prover]
    pub fn update(&mut self, dt: u64)
        requires
            old(self).inv(),
        ensures
            final(self).inv(),
            final(self)@ == spec_update(old(self)@, dt),
            old(self)@.consistent() ==> final(self)@.consistent(),
            old(self)@.consistent() && old(self).phase == GamePhase::Playing && chart_ends_by_total(
                old(self).songs@[old(self).selected_song as int],
            ) && final(self).phase == GamePhase::Results ==> {
                &&& forall|i: int|
                    0 <= i < final(self).notes@.len() ==> !(#[trigger] final(self).notes@[i]).active
                &&& final(self).hit_counts[0] + final(self).hit_counts[1] + final(self).hit_counts[2]
                    + final(self).hit_counts[3] == final(self).total_notes
            },
    {
        if self.phase != GamePhase::Playing {
            return;
        }
        match self.countdown {
            Some(cd) => {
                if dt < cd {
                    self.countdown = Some(cd - dt);
                    return;
                } else {
                    self.countdown = None;
                    self.game_time = 0;
                }
            },
            None => {},
        }
        self.game_time = self.game_time.saturating_add(dt);
        let t = self.game_time;
        let ghost pre = self@;
        let ghost old_notes = self.notes@;
        let len = self.notes.len();
        for i in 0..len
            invariant
                len == old_notes.len(),
                t == self.game_time,
                self@ == (GameView {
                    notes: self.notes@,
                    hit_counts: self.hit_counts@,
                    combo: self.combo,
                    last_hit: self.last_hit,
                    ..pre
                }),
                pre.inv(),
                pre.notes == old_notes,
                self.notes@.len() == len,
                forall|j: int|
                    0 <= j < i ==> #[trigger] self.notes@[j] == after_miss_check(
                        old_notes[j],
                        t as int,
                    ),
                forall|j: int| i <= j < len ==> #[trigger] self.notes@[j] == old_notes[j],
                self.hit_counts@.len() == 4,
                forall|g: HitGrade| #[trigger]
                    self.hit_counts@[grade_index(g)] + count_active(self.notes@) <= u32::MAX,
                self.combo + count_active(self.notes@) <= u32::MAX,
                pre.consistent() ==> forall|g: HitGrade| #[trigger]
                    self.hit_counts@[grade_index(g)] == count_grade(self.notes@, g),
                pre.consistent() ==> pre.max_combo <= count_judged(self.notes@),
                pre.consistent() ==> forall|j: int|
                    0 <= j < len ==> (#[trigger] self.notes@[j].active <==> self.notes@[j].hit_grade is None),
                self.hit_counts@[3] == pre.hit_counts[3] + count_missed(
                    old_notes.take(i as int),
                    t as int,
                ),
                forall|k: int| 0 <= k < 3 ==> #[trigger] self.hit_counts@[k] == pre.hit_counts[k],
                count_missed(old_notes.take(i as int), t as int) > 0 ==> self.combo == 0
                    && self.last_hit == Some((HitGrade::Miss, t)),
                count_missed(old_notes.take(i as int), t as int) == 0 ==> self.combo == pre.combo
                    && self.last_hit == pre.last_hit,
                self.combo <= pre.combo,
        {
            proof {
                assert(old_notes.take(i + 1).drop_last() =~= old_notes.take(i as int));
            }
            let note = self.notes[i];
            if note.active && t > note.hit_time && t - note.hit_time > MISS_CUTOFF_US {
                let mut n = note;
                n.active = false;
                n.hit_grade = Some(HitGrade::Miss);
                let ghost before = self.notes@;
                let ghost counts_before = self.hit_counts@;
                proof {
                    lemma_active_retire(before, i as int, n);
                    assert(self.hit_counts@[grade_index(HitGrade::Miss)] + count_active(before)
                        <= u32::MAX);
                    if pre.consistent() {
                        lemma_unjudged_leaves_room(before, i as int);
                        assert forall|g: HitGrade| #[trigger]
                            count_grade(before.update(i as int, n), g) == count_grade(
                                before,
                                g,
                            ) + if g == HitGrade::Miss {
                                1nat
                            } else {
                                0nat
                            } by {
                            lemma_count_judge(before, i as int, n, HitGrade::Miss, g);
                        }
                        lemma_count_judge(before, i as int, n, HitGrade::Miss, HitGrade::Miss);
                    }
                }
                self.notes.set(i, n);
                self.combo = 0;
                self.hit_counts[3] = self.hit_counts[3] + 1;
                self.last_hit = Some((HitGrade::Miss, t));
                proof {
                    assert forall|g: HitGrade| #[trigger]
                        self.hit_counts@[grade_index(g)] + count_active(self.notes@) <= u32::MAX by {
                        assert(counts_before[grade_index(g)] + count_active(before) <= u32::MAX);
                    }
                }
            }
        }
        proof {
            assert(old_notes.take(len as int) =~= old_notes);
            assert(self.notes@ =~= Seq::new(
                old_notes.len(),
                |i: int| after_miss_check(old_notes[i], t as int),
            ));
            assert(self.hit_counts@ =~= pre.hit_counts.update(
                3,
                (pre.hit_counts[3] + count_missed(old_notes, t as int)) as u32,
            ));
        }
        let song = &self.songs[self.selected_song];
        assert(self.songs@[self.selected_song as int].well_formed());
        if self.game_time > song.duration_secs() + APPROACH_TIME_US + END_PADDING_US {
            self.phase = GamePhase::Results;
            proof {
                if pre.consistent() && chart_ends_by_total(pre.songs[pre.selected_song as int]) {
                    assert forall|i: int| 0 <= i < len implies !(#[trigger] self.notes@[i]).active by {
                        assert(old_notes[i].hit_time <= pre.songs[pre.selected_song as int].spec_duration()
                            + LEAD_IN_US);
                    }
                    lemma_all_judged(self.notes@);
                    lemma_grades_partition(self.notes@);
                    assert(self.hit_counts@[grade_index(HitGrade::Perfect)] == count_grade(self.notes@, HitGrade::Perfect));
                    assert(self.hit_counts@[grade_index(HitGrade::Great)] == count_grade(self.notes@, HitGrade::Great));
                    assert(self.hit_counts@[grade_index(HitGrade::Good)] == count_grade(self.notes@, HitGrade::Good));
                    assert(self.hit_counts@[grade_index(HitGrade::Miss)] == count_grade(self.notes@, HitGrade::Miss));
                }
            }
        }
        proof {
            if pre.consistent() && self.phase == GamePhase::Playing && chart_ends_by_total(
                pre.songs[pre.selected_song as int],
            ) {
                assert forall|i: int| 0 <= i < len implies (#[trigger] self.notes@[i]).hit_time
                    <= pre.songs[pre.selected_song as int].spec_duration() + LEAD_IN_US by {
                    assert(old_notes[i].hit_time == self.notes@[i].hit_time);
                }
            }
        }
    }

    /// Starts the selected song (see `song_started`). Under Hardcore every
    /// note gets a random letter as its key.
    pub fn start_song(&mut self)
        requires
            old(self).inv(),
        ensures
            final(self).inv(),
            final(self)@.consistent(),
            song_started(old(self)@, final(self)@),
    {
        let d = self.difficulty;
        let mut notes: Vec<Note> = Vec::new();
        let song = &self.songs[self.selected_song];
        let len = song.chart.len();
        assert(song.well_formed());
        for i in 0..len
            invariant
                notes@.len() == i,
                len == song.chart@.len(),
                song.well_formed(),
                forall|j: int|
                    0 <= j < i ==> fits_entry(#[trigger] notes@[j], song.chart@[j], d, song.bpm_milli as int)
                        && notes@[j].lane < lane_count(d),
        {
            let (beat, chart_lane) = song.chart[i];
            assert(song.chart@[i as int].0 <= crate::song::MAX_BEAT_MILLI);
            let letter: u8 = match d {
                Difficulty::Hardcore => random_below(26),
                _ => 0,
            };
            let n = Note::from_chart(beat, chart_lane, d, song.bpm_milli, letter);
            notes.push(n);
        }
        let total = notes.len() as u32;
        self.notes = notes;
        self.total_notes = total;
        self.score = 0;
        self.combo = 0;
        self.max_combo = 0;
        self.hit_counts = [0, 0, 0, 0];
        self.last_hit = None;
        self.lane_flash = [None, None, None, None, None, None, None, None];
        self.game_time = 0;
        self.countdown = Some(COUNTDOWN_US);
        self.phase = GamePhase::Playing;
        proof {
            assert forall|g: HitGrade| #[trigger]
                self.hit_counts@[grade_index(g)] == count_grade(self.notes@, g) by {
                lemma_fresh_counts(self.notes@, g);
            }
            lemma_fresh_counts(self.notes@, HitGrade::Miss);
            lemma_active_bound(self.notes@);
            assert(self.hit_counts@ =~= seq![0u32, 0u32, 0u32, 0u32]);
            assert forall|g: HitGrade| #[trigger]
                self.hit_counts@[grade_index(g)] + count_active(self.notes@) <= u32::MAX by {}
            if chart_ends_by_total(self.songs@[self.selected_song as int]) {
                let s = self.songs@[self.selected_song as int];
                assert forall|i: int| 0 <= i < self.notes@.len() implies (#[trigger] self.notes@[i]).hit_time
                    <= s.spec_duration() + LEAD_IN_US by {
                    assert(s.chart@[i].0 <= s.total_beats_milli);
                    crate::song::lemma_beat_time_within(
                        s.chart@[i].0 as int,
                        s.total_beats_milli as int,
                        s.bpm_milli as int,
                    );
                }
            }
            assert(self.lane_flash@ =~= Seq::new(MAX_LANES as nat, |i: int| None));
        }
    }

    /// Reacts to a key press (see `spec_handle_key`); confirming a song in
    /// song selection starts it (see `song_started`).
    pub fn handle_key(&mut self, key: Key)
        requires
            old(self).inv(),
        ensures
            final(self).inv(),
            old(self)@.consistent() ==> final(self)@.consistent(),
            starts_song(old(self)@, key) ==> song_started(old(self)@, final(self)@),
            !starts_song(old(self)@, key) ==> final(self)@ == spec_handle_key(old(self)@, key),
    {
        let confirm = key == Key::Enter || key == Key::Char(' ');
        let up = key == Key::Up || key == Key::Char('k');
        let down = key == Key::Down || key == Key::Char('j');
        match self.phase {
            GamePhase::Title => {
                if confirm {
                    self.phase = GamePhase::DifficultySelect;
                }
            },
            GamePhase::DifficultySelect => {
                if up {
                    if self.selected_difficulty > 0 {
                        self.selected_difficulty = self.selected_difficulty - 1;
                    }
                } else if down {
                    if self.selected_difficulty < ALL_DIFFICULTIES.len() - 1 {
                        self.selected_difficulty = self.selected_difficulty + 1;
                    }
                } else if confirm {
                    self.difficulty = ALL_DIFFICULTIES[self.selected_difficulty];
                    self.phase = GamePhase::SongSelect;
                }
            },
            GamePhase::SongSelect => {
                if up {
                    if self.selected_song > 0 {
                        self.selected_song = self.selected_song - 1;
                    }
                } else if down {
                    if self.selected_song < self.songs.len() - 1 {
                        self.selected_song = self.selected_song + 1;
                    }
                } else if confirm {
                    self.start_song();
                }
            },
            GamePhase::Playing => {
                if self.countdown.is_none() {
                    match key {
                        Key::Char(ch) => self.try_hit(ch),
                        _ => {},
                    }
                }
            },
            GamePhase::Results => {
                if confirm {
                    self.phase = GamePhase::SongSelect;
                }
            },
            GamePhase::Quit => {},
        }
    }

    /// Reacts to a key press in the main loop and says whether it ends the
    /// session: Escape steps back a screen where there is one (ending play
    /// shows the results), `q` outside play ends the session, and every other
    /// press goes to `handle_key`.
    pub fn handle_key_press(&mut self, key: Key) -> (quit: bool)
        requires
            old(self).inv(),
        ensures
            final(self).inv(),
            old(self)@.consistent() ==> final(self)@.consistent(),
            quit == quits_on(old(self)@, key),
            quit ==> final(self)@ == old(self)@,
            !quit && key == Key::Esc ==> final(self)@ == spec_escape(old(self)@),
            !quit && key != Key::Esc && starts_song(old(self)@, key) ==> song_started(
                old(self)@,
                final(self)@,
            ),
            !quit && key != Key::Esc && !starts_song(old(self)@, key) ==> final(self)@
                == spec_handle_key(old(self)@, key),
    {
        match key {
            Key::Esc => match self.phase {
                GamePhase::Playing => {
                    self.phase = GamePhase::Results;
                    false
                },
                GamePhase::SongSelect => {
                    self.phase = GamePhase::DifficultySelect;
                    false
                },
                GamePhase::Results => {
                    self.phase = GamePhase::SongSelect;
                    false
                },
                _ => true,
            },
            Key::Char('q') if self.phase != GamePhase::Playing => true,
            _ => {
                self.handle_key(key);
                false
            },
        }
    }

    /// A new session with the built-in songs (see `initial_view`).
    pub fn new() -> (g: Game)
        ensures
            g.inv(),
            g@.consistent(),
            g@ == initial_view(g.songs@),
            g.songs@.len() == 3,
            builtin_shape(g.songs@[0], "First Steps"@, "Tutorial"@, 110, 74, 94),
            builtin_shape(g.songs@[1], "Neon Cascade"@, "Synthwave"@, 138, 66, 156),
            builtin_shape(g.songs@[2], "Stardust"@, "Hardmode"@, 160, 74, 212),
            g.songs@[0].chart@ == first_steps_chart(),
            g.songs@[1].chart@ == neon_cascade_chart(),
            g.songs@[2].chart@ == stardust_chart(),
            forall|i: int| 0 <= i < 3 ==> chart_ends_by_total(#[trigger] g.songs@[i]),
    {
        let songs = builtin_songs();
        let g = Game {
            phase: GamePhase::Title,
            difficulty: Difficulty::Standard,
            selected_difficulty: 1,
            songs,
            selected_song: 0,
            notes: Vec::new(),
            game_time: 0,
            countdown: None,
            score: 0,
            combo: 0,
            max_combo: 0,
            total_notes: 0,
            hit_counts: [0, 0, 0, 0],
            last_hit: None,
            lane_flash: [None, None, None, None, None, None, None, None],
        };
        proof {
            assert(g.hit_counts@ =~= seq![0u32, 0u32, 0u32, 0u32]);
            assert(g.lane_flash@ =~= Seq::new(MAX_LANES as nat, |i: int| None));
            assert(g.notes@ =~= Seq::<Note>::empty());
            assert forall|i: int| 0 <= i < g.songs@.len() implies #[trigger] g.songs@[i].well_formed() by {
                if i == 0 {} else if i == 1 {} else {}
            }
            assert forall|i: int| 0 <= i < 3 implies chart_ends_by_total(#[trigger] g.songs@[i]) by {
                let s = g.songs@[i];
                assert forall|k: int| 0 <= k < s.chart@.len() implies (#[trigger] s.chart@[k]).0
                    <= s.total_beats_milli by {
                    if i == 0 {} else if i == 1 {} else {}
                }
            }
        }
        g
    }

    /// The number of lanes on the board of the current difficulty.
    pub fn num_lanes(&self) -> (n: usize)
        ensures
            n == lane_count(self.difficulty),
    {
        match self.difficulty {
            Difficulty::Beginner => 4,
            Difficulty::Standard => 8,
            Difficulty::Hardcore => 5,
        }
    }

    /// The color of `lane` on the board of the current difficulty.
    pub fn lane_color(&self, lane: usize) -> (c: (u8, u8, u8))
        requires
            lane_in_table(self.difficulty, lane as int),
        ensures
            c == lane_color_of(self.difficulty, lane as int),
    {
        crate::difficulty::lane_color_for(self.difficulty, lane)
    }

    /// The key to show for `lane`: the lane's own key where the difficulty
    /// fixes keys, else the key of the next note due in the lane, or '·'
    /// when none waits there.
    pub fn display_key_for_lane(&self, lane: usize) -> (c: char)
        requires
            has_fixed_keys(self.difficulty) ==> lane_in_table(self.difficulty, lane as int),
        ensures
            c == if has_fixed_keys(self.difficulty) {
                fixed_key(self.difficulty, lane as int)
            } else {
                match spec_next_key(self.notes@, lane) {
                    Some(k) => k,
                    None => '·',
                }
            },
            c == shown_key(self.difficulty, self.notes@, lane),
    {
        match self.difficulty {
            Difficulty::Beginner => crate::difficulty::fixed_key_for(self.difficulty, lane),
            Difficulty::Standard => crate::difficulty::fixed_key_for(self.difficulty, lane),
            Difficulty::Hardcore => match self.next_key_for_lane(lane) {
                Some(k) => k,
                None => '·',
            },
        }
    }

    /// The key of the next note due in `lane`: of the active notes in that
    /// lane, the one with the earliest hit time (the first of equally early ones).
    pub fn next_key_for_lane(&self, lane: usize) -> (k: Option<char>)
        ensures
            k == spec_next_key(self.notes@, lane),
    {
        let ghost notes = self.notes@;
        let mut best: Option<usize> = None;
        let len = self.notes.len();
        for i in 0..len
            invariant
                len == notes.len(),
                notes == self.notes@,
                best is None ==> forall|j: int| 0 <= j < i ==> !#[trigger] waiting_in(notes[j], lane),
                best matches Some(b) ==> next_in_lane(notes, lane, i as int, b as int),
        {
            let n = self.notes[i];
            if n.active && n.lane == lane {
                let better = match best {
                    None => true,
                    Some(b) => n.hit_time < self.notes[b].hit_time,
                };
                if better {
                    proof {
                        if let Some(b) = best {
                            assert forall|j: int|
                                0 <= j < i && #[trigger] waiting_in(notes[j], lane) implies n.hit_time
                                < notes[j].hit_time by {}
                        }
                    }
                    best = Some(i);
                }
            }
        }
        match best {
            None => None,
            Some(b) => {
                proof {
                    lemma_next_in_lane_unique(notes, lane);
                }
                Some(self.notes[b].key)
            },
        }
    }

    /// Accuracy in percent, as (numerator, denominator) (see `accuracy_fraction`).
    pub fn accuracy(&self) -> (a: (u64, u64))
        ensures
            (a.0 as int, a.1 as int) == accuracy_fraction(self.hit_counts@),
    {
        let p = self.hit_counts[0] as u64;
        let gr = self.hit_counts[1] as u64;
        let go = self.hit_counts[2] as u64;
        let m = self.hit_counts[3] as u64;
        let total = p + gr + go + m;
        if total == 0 {
            (100, 1)
        } else {
            (100 * (4 * p + 3 * gr + 2 * go), 4 * total)
        }
    }

    /// The letter grade of the accuracy (see `letter_for`).
    pub fn grade_letter(&self) -> (s: &'static str)
        ensures
            s@ == letter_for(self.hit_counts@),
    {
        let p = self.hit_counts[0] as u64;
        let gr = self.hit_counts[1] as u64;
        let go = self.hit_counts[2] as u64;
        let m = self.hit_counts[3] as u64;
        let total = p + gr + go + m;
        let w100 = 100 * (4 * p + 3 * gr + 2 * go);
        let t4 = 4 * total;
        assert(w100 == 100 * weighted_quarters(self.hit_counts@));
        assert(total == judged_total(self.hit_counts@));
        proof {
            lemma_thresholds(self.hit_counts@);
        }
        if total == 0 || w100 >= 95 * t4 {
            "S"
        } else if w100 >= 90 * t4 {
            "A"
        } else if w100 >= 80 * t4 {
            "B"
        } else if w100 >= 70 * t4 {
            "C"
        } else if w100 >= 60 * t4 {
            "D"
        } else {
            "F"
        }
    }

    /// How far the selected song has played, as (numerator, denominator)
    /// (see `progress_fraction`).
    pub fn song_progress(&self) -> (p: (u64, u64))
        requires
            self.inv(),
        ensures
            (p.0 as int, p.1 as int) == progress_fraction(
                self.game_time as int,
                self.songs@[self.selected_song as int].spec_duration(),
            ),
    {
        let song = &self.songs[self.selected_song];
        assert(self.songs@[self.selected_song as int].well_formed());
        let dur = song.duration_secs();
        if dur == 0 {
            (0, 1)
        } else if self.game_time >= dur {
            (dur, dur)
        } else {
            (self.game_time, dur)
        }
    }
}

} // verus!
