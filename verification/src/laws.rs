use vstd::prelude::*;
use crate::game::{
    count_grade, count_judged, is_target, lemma_count_bounds, lemma_grades_partition, lemma_target_exists_unique,
    quits_on, spec_escape, spec_handle_key, spec_press, spec_update, GamePhase, GameView, Key,
};
use crate::game::{
    accuracy_fraction, judged_total, lemma_next_in_lane_unique, shown_key, lemma_thresholds, letter_for,
    progress_fraction, spec_next_key, starts_song, weighted_quarters,
};
use crate::difficulty::Difficulty;
use crate::grade::{combo_multiplier, grade_index, HitGrade, APPROACH_TIME_US};
use crate::song::{z_numerator, Note};

verus! {

/// In every reachable state the hit counters add up to the number of judged
/// notes, which never exceeds the number of notes of the song.
pub proof fn lemma_counters_add_up(g: GameView)
    requires
        g.consistent(),
    ensures
        g.hit_counts[0] + g.hit_counts[1] + g.hit_counts[2] + g.hit_counts[3] == count_judged(
            g.notes,
        ),
        count_judged(g.notes) <= g.total_notes,
{
    lemma_grades_partition(g.notes);
    lemma_count_bounds(g.notes, HitGrade::Miss);
    assert(g.hit_counts[grade_index(HitGrade::Perfect)] == count_grade(g.notes, HitGrade::Perfect));
    assert(g.hit_counts[grade_index(HitGrade::Great)] == count_grade(g.notes, HitGrade::Great));
    assert(g.hit_counts[grade_index(HitGrade::Good)] == count_grade(g.notes, HitGrade::Good));
    assert(g.hit_counts[grade_index(HitGrade::Miss)] == count_grade(g.notes, HitGrade::Miss));
}

/// A key press never lowers the score, and a press that lands on a note
/// judges exactly that note: every other note stays as it was.
pub proof fn lemma_press_judges_one_note(g: GameView, key: char)
    requires
        g.inv(),
    ensures
        spec_press(g, key).score >= g.score,
        spec_press(g, key).notes.len() == g.notes.len(),
        forall|i: int|
            0 <= i < g.notes.len() && !is_target(g.notes, key, g.game_time as int, i)
                ==> #[trigger] spec_press(g, key).notes[i] == g.notes[i],
        forall|i: int|
            0 <= i < g.notes.len() && is_target(g.notes, key, g.game_time as int, i) ==> {
                &&& g.notes[i].active
                &&& !(#[trigger] spec_press(g, key).notes[i]).active
            },
{
    if crate::game::has_reachable(g.notes, key, g.game_time as int) {
        lemma_target_exists_unique(g.notes, key, g.game_time as int);
    }
}

/// A judged note keeps its judgement: neither a key press nor the passing of
/// time changes a note that is no longer active.
pub proof fn lemma_judgement_is_final(g: GameView, key: char, dt: u64, i: int)
    requires
        g.inv(),
        0 <= i < g.notes.len(),
        !g.notes[i].active,
    ensures
        spec_press(g, key).notes[i] == g.notes[i],
        spec_update(g, dt).notes[i] == g.notes[i],
{
    lemma_press_judges_one_note(g, key);
}

/// The passing of time never changes the score nor the best combo, and
/// during play the clock never runs backwards once the countdown is over.
pub proof fn lemma_update_keeps_score(g: GameView, dt: u64)
    requires
        g.inv(),
    ensures
        spec_update(g, dt).score == g.score,
        spec_update(g, dt).max_combo == g.max_combo,
        g.countdown is None ==> spec_update(g, dt).game_time >= g.game_time,
{
}

/// Every ten consecutive hits raise the score multiplier by one.
pub proof fn lemma_multiplier_steps(combo: int)
    requires
        combo >= 0,
    ensures
        combo_multiplier(combo + 10) == combo_multiplier(combo) + 1,
        combo_multiplier(combo) >= 1,
        0 <= combo < 10 ==> combo_multiplier(combo) == 1,
{
}

/// Moving up a menu and then down again returns to the same entry (where
/// the first move was not blocked by the top of the menu); moving down and
/// then up likewise.
pub proof fn lemma_menu_moves_undo(g: GameView)
    requires
        g.inv(),
        g.phase == GamePhase::DifficultySelect || g.phase == GamePhase::SongSelect,
    ensures
        g.phase == GamePhase::DifficultySelect && g.selected_difficulty > 0 ==> spec_handle_key(
            spec_handle_key(g, Key::Up),
            Key::Down,
        ) == g,
        g.phase == GamePhase::DifficultySelect && g.selected_difficulty < 2 ==> spec_handle_key(
            spec_handle_key(g, Key::Down),
            Key::Up,
        ) == g,
        g.phase == GamePhase::SongSelect && g.selected_song > 0 ==> spec_handle_key(
            spec_handle_key(g, Key::Up),
            Key::Down,
        ) == g,
        g.phase == GamePhase::SongSelect && g.selected_song < g.songs.len() - 1 ==> spec_handle_key(
            spec_handle_key(g, Key::Down),
            Key::Up,
        ) == g,
{
    if g.phase == GamePhase::SongSelect && g.selected_song < g.songs.len() - 1 {
        let down = spec_handle_key(g, Key::Down);
        assert(down == GameView { selected_song: (g.selected_song + 1) as usize, ..g });
        assert(spec_handle_key(down, Key::Up) == g);
    }
}

/// Escape steps back through the screens: from the results to song
/// selection, and from song selection to difficulty selection; ending play
/// shows the results of what was played. Elsewhere Escape ends the session
/// and leaves the state as it is.
pub proof fn lemma_escape_steps_back(g: GameView)
    requires
        g.inv(),
    ensures
        g.phase == GamePhase::Results ==> spec_escape(g).phase == GamePhase::SongSelect,
        g.phase == GamePhase::SongSelect ==> spec_escape(g).phase == GamePhase::DifficultySelect,
        g.phase == GamePhase::Title || g.phase == GamePhase::DifficultySelect || g.phase
            == GamePhase::Quit ==> quits_on(g, Key::Esc) && spec_escape(g) == g,
        g.phase == GamePhase::Playing ==> spec_escape(g) == (GameView {
            phase: GamePhase::Results,
            ..g
        }),
{
}

/// A note travels toward the player: its depth is 0 one approach time
/// before its hit time, 1 (the hit zone) at its hit time, and never
/// decreases as the game time advances.
pub proof fn lemma_note_approaches(hit_time: int, t1: int, t2: int)
    requires
        t1 <= t2,
    ensures
        z_numerator(hit_time, hit_time - APPROACH_TIME_US) == 0,
        z_numerator(hit_time, hit_time) == APPROACH_TIME_US,
        z_numerator(hit_time, t1) <= z_numerator(hit_time, t2),
{
}

/// Accuracy lies between 0% and 100%, and is 100% exactly when no judged
/// note got less than PERFECT.
pub proof fn lemma_accuracy_range(c: Seq<u32>)
    requires
        c.len() == 4,
    ensures
        accuracy_fraction(c).1 > 0,
        0 <= accuracy_fraction(c).0 <= 100 * accuracy_fraction(c).1,
        accuracy_fraction(c).0 == 100 * accuracy_fraction(c).1 <==> c[1] + c[2] + c[3] == 0,
{
}

/// The progress bar is full from the end of the song on, and empty at its start.
pub proof fn lemma_progress_range(time: int, duration: int)
    requires
        time >= 0,
    ensures
        progress_fraction(time, duration).1 > 0,
        0 <= progress_fraction(time, duration).0 <= progress_fraction(time, duration).1,
        duration > 0 && time >= duration ==> progress_fraction(time, duration).0
            == progress_fraction(time, duration).1,
        progress_fraction(0, duration).0 == 0,
{
}

/// The key shown for a lane is the key of a note still waiting there, one
/// due no later than any other waiting note of that lane; with no note
/// waiting in the lane there is no key. Judged notes never decide it.
pub proof fn lemma_next_key_is_waiting(notes: Seq<Note>, lane: usize)
    ensures
        spec_next_key(notes, lane) is None <==> (forall|i: int|
            0 <= i < notes.len() ==> !((#[trigger] notes[i]).active && notes[i].lane == lane)),
        spec_next_key(notes, lane) is Some ==> exists|i: int|
                0 <= i < notes.len() && (#[trigger] notes[i]).active && notes[i].lane == lane
                    && notes[i].key == spec_next_key(notes, lane)->0 && (forall|j: int|
                    0 <= j < notes.len() && (#[trigger] notes[j]).active && notes[j].lane == lane
                        ==> notes[i].hit_time <= notes[j].hit_time) && (forall|j: int|
                    0 <= j < i && (#[trigger] notes[j]).active && notes[j].lane == lane
                        ==> notes[i].hit_time < notes[j].hit_time),
{
    if exists|i: int| 0 <= i < notes.len() && #[trigger] crate::game::waiting_in(notes[i], lane) {
        lemma_next_in_lane_unique(notes, lane);
        let i = choose|i: int| crate::game::next_in_lane(notes, lane, notes.len() as int, i);
        assert forall|j: int|
            0 <= j < notes.len() && (#[trigger] notes[j]).active && notes[j].lane == lane implies notes[i].hit_time
            <= notes[j].hit_time by {
            assert(crate::game::waiting_in(notes[j], lane));
        }
        assert forall|j: int|
            0 <= j < i && (#[trigger] notes[j]).active && notes[j].lane == lane implies notes[i].hit_time
            < notes[j].hit_time by {
            assert(crate::game::waiting_in(notes[j], lane));
        }
        assert(notes[i].active && notes[i].lane == lane);
    } else {
        assert forall|i: int| 0 <= i < notes.len() implies !((#[trigger] notes[i]).active
            && notes[i].lane == lane) by {
            if notes[i].active && notes[i].lane == lane {
                assert(crate::game::waiting_in(notes[i], lane));
            }
        }
    }
}

/// The key shown for a lane: on the beginner board lanes 0 to 3 show
/// H J K L, on the standard board lanes 0 to 7 show A S D F H J K L; in
/// Hardcore a lane shows the key of its next waiting note, or '·' when no
/// note waits there.
pub proof fn lemma_shown_keys(notes: Seq<Note>, lane: usize)
    ensures
        lane < 4 ==> shown_key(Difficulty::Beginner, notes, lane) == seq!['h', 'j', 'k', 'l'][lane as int],
        lane < 8 ==> shown_key(Difficulty::Standard, notes, lane)
            == seq!['a', 's', 'd', 'f', 'h', 'j', 'k', 'l'][lane as int],
        (forall|i: int| 0 <= i < notes.len() ==> !((#[trigger] notes[i]).active && notes[i].lane == lane))
            ==> shown_key(Difficulty::Hardcore, notes, lane) == '·',
        spec_next_key(notes, lane) is Some ==> exists|i: int|
            0 <= i < notes.len() && (#[trigger] notes[i]).active && notes[i].lane == lane
                && notes[i].key == shown_key(Difficulty::Hardcore, notes, lane),
{
    lemma_next_key_is_waiting(notes, lane);
}

/// In both menus `j` moves down exactly as the Down arrow does and `k` up
/// exactly as the Up arrow; a move changes the selection by one within the
/// menu's bounds and stops at its ends; Enter and space confirm alike.
pub proof fn lemma_menu_keys(g: GameView)
    requires
        g.inv(),
    ensures
        g.phase == GamePhase::DifficultySelect || g.phase == GamePhase::SongSelect ==> {
            &&& spec_handle_key(g, Key::Char('j')) == spec_handle_key(g, Key::Down)
            &&& spec_handle_key(g, Key::Char('k')) == spec_handle_key(g, Key::Up)
            &&& spec_handle_key(g, Key::Char(' ')) == spec_handle_key(g, Key::Enter)
        },
        g.phase == GamePhase::DifficultySelect ==> {
            &&& g.selected_difficulty < 2 ==> spec_handle_key(g, Key::Down) == (GameView {
                selected_difficulty: (g.selected_difficulty + 1) as usize,
                ..g
            })
            &&& g.selected_difficulty == 2 ==> spec_handle_key(g, Key::Down) == g
            &&& g.selected_difficulty > 0 ==> spec_handle_key(g, Key::Up) == (GameView {
                selected_difficulty: (g.selected_difficulty - 1) as usize,
                ..g
            })
            &&& g.selected_difficulty == 0 ==> spec_handle_key(g, Key::Up) == g
            &&& spec_handle_key(g, Key::Enter).phase == GamePhase::SongSelect
            &&& g.selected_difficulty == 0 ==> spec_handle_key(g, Key::Enter).difficulty
                == Difficulty::Beginner
            &&& g.selected_difficulty == 1 ==> spec_handle_key(g, Key::Enter).difficulty
                == Difficulty::Standard
            &&& g.selected_difficulty == 2 ==> spec_handle_key(g, Key::Enter).difficulty
                == Difficulty::Hardcore
        },
        g.phase == GamePhase::SongSelect ==> {
            &&& g.selected_song + 1 < g.songs.len() ==> spec_handle_key(g, Key::Down) == (GameView {
                selected_song: (g.selected_song + 1) as usize,
                ..g
            })
            &&& g.selected_song + 1 == g.songs.len() ==> spec_handle_key(g, Key::Down) == g
            &&& g.selected_song > 0 ==> spec_handle_key(g, Key::Up) == (GameView {
                selected_song: (g.selected_song - 1) as usize,
                ..g
            })
            &&& g.selected_song == 0 ==> spec_handle_key(g, Key::Up) == g
            &&& starts_song(g, Key::Enter)
            &&& starts_song(g, Key::Char(' '))
            &&& !starts_song(g, Key::Char('j'))
            &&& !starts_song(g, Key::Down)
        },
        g.phase == GamePhase::Title ==> spec_handle_key(g, Key::Enter).phase
            == GamePhase::DifficultySelect && spec_handle_key(g, Key::Char(' ')).phase
            == GamePhase::DifficultySelect,
        g.phase == GamePhase::Results ==> spec_handle_key(g, Key::Enter).phase
            == GamePhase::SongSelect && spec_handle_key(g, Key::Char(' ')).phase
            == GamePhase::SongSelect,
{
}

/// `q` ends the session on every screen but play, and Escape ends it on the
/// title screen, in difficulty selection and once the game is over; in play
/// neither key ends the session.
pub proof fn lemma_quit_keys(g: GameView)
    ensures
        g.phase != GamePhase::Playing ==> quits_on(g, Key::Char('q')),
        g.phase == GamePhase::Playing ==> !quits_on(g, Key::Char('q')) && !quits_on(g, Key::Esc),
        quits_on(g, Key::Esc) <==> (g.phase == GamePhase::Title || g.phase
            == GamePhase::DifficultySelect || g.phase == GamePhase::Quit),
        !quits_on(g, Key::Enter) && !quits_on(g, Key::Char('a')),
{
}

/// Accuracy weighs each judged note by its share of a PERFECT: PERFECT 100%,
/// GREAT 75%, GOOD 50%, MISS 0%. With `n` judged notes the accuracy is
/// (100·perfect + 75·great + 50·good) / n percent; before any judgement it is 100%.
pub proof fn lemma_accuracy_weights(c: Seq<u32>)
    requires
        c.len() == 4,
    ensures
        accuracy_fraction(c).1 > 0,
        c[0] + c[1] + c[2] + c[3] > 0 ==> accuracy_fraction(c).0 * (c[0] + c[1] + c[2] + c[3])
            == accuracy_fraction(c).1 * (100 * c[0] + 75 * c[1] + 50 * c[2]),
        c[0] + c[1] + c[2] + c[3] == 0 ==> accuracy_fraction(c).0 == 100 * accuracy_fraction(c).1,
        c[0] == 0 && c[1] == 0 && c[3] == 0 && c[2] > 0 ==> 2 * accuracy_fraction(c).0 == 100
            * accuracy_fraction(c).1,
{
    let t = c[0] + c[1] + c[2] + c[3];
    let pts = 100 * c[0] + 75 * c[1] + 50 * c[2];
    if t > 0 {
        let num = accuracy_fraction(c).0;
        let den = accuracy_fraction(c).1;
        assert(num == 4 * pts && den == 4 * t);
        assert(num * t == den * pts) by (nonlinear_arith)
            requires num == 4 * pts, den == 4 * t;
    }
}

/// The letter is the tier of the accuracy: with `n` judged notes worth `p`
/// percent points (PERFECT 100, GREAT 75, GOOD 50, MISS 0), S from 95%, A from
/// 90%, B from 80%, C from 70%, D from 60%, F below; S before any judgement.
pub proof fn lemma_letter_tiers(c: Seq<u32>)
    requires
        c.len() == 4,
    ensures
        ({
            let n = c[0] + c[1] + c[2] + c[3];
            let p = 100 * c[0] + 75 * c[1] + 50 * c[2];
            &&& n == 0 || p >= 95 * n ==> letter_for(c) == "S"@
            &&& n > 0 && 90 * n <= p < 95 * n ==> letter_for(c) == "A"@
            &&& n > 0 && 80 * n <= p < 90 * n ==> letter_for(c) == "B"@
            &&& n > 0 && 70 * n <= p < 80 * n ==> letter_for(c) == "C"@
            &&& n > 0 && 60 * n <= p < 70 * n ==> letter_for(c) == "D"@
            &&& n > 0 && p < 60 * n ==> letter_for(c) == "F"@
        }),
{
    lemma_thresholds(c);
}

} // verus!
