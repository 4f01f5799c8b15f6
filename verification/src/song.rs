use vstd::prelude::*;
use crate::difficulty::{
    board_lane, board_lane_for, fixed_key, fixed_key_for, has_fixed_keys, Difficulty,
};
use crate::grade::{HitGrade, APPROACH_TIME_US};

verus! {

/// Largest beat position (in thousandths of a beat) a chart may hold: the
/// largest whose time in microseconds (60_000_000 per thousand beats per
/// minute), plus the lead-in and the end padding of 4.5 s, fits in a `u64`.
pub const MAX_BEAT_MILLI: u64 = 307_445_734_561;

/// Lead-in before beat 0 of a chart reaches the hit zone: the approach time
/// plus one and a half seconds, in microseconds.
pub const LEAD_IN_US: u64 = 4_000_000;

/// A playable song: its tempo and a chart of (beat, lane) entries.
#[derive(Clone)]
pub struct Song {
    pub name: String,
    pub artist: String,
    /// Tempo in thousandths of a beat per minute.
    pub bpm_milli: u64,
    /// (beat, lane) pairs, the beat in thousandths of a beat; charts are
    /// authored for five lanes, 0 to 4.
    pub chart: Vec<(u64, usize)>,
    /// Length of the song in thousandths of a beat.
    pub total_beats_milli: u64,
}

/// The time, in microseconds from the start of beat 0, at which a beat
/// (in thousandths) falls at a tempo of `bpm_milli` thousandths of a beat per minute.
pub open spec fn beat_time_us(beat_milli: int, bpm_milli: int) -> int {
    beat_milli * 60_000_000 / bpm_milli
}

impl Song {
    /// A song can be played: it has a tempo and every position in it stays
    /// within `MAX_BEAT_MILLI`; its note count fits the 32-bit counters.
    pub open spec fn well_formed(&self) -> bool {
        &&& self.bpm_milli > 0
        &&& self.total_beats_milli <= MAX_BEAT_MILLI
        &&& self.chart@.len() <= u32::MAX
        &&& forall|i: int| 0 <= i < self.chart@.len() ==> (#[trigger] self.chart@[i]).0 <= MAX_BEAT_MILLI
    }

    /// Length of one beat, in microseconds.
    pub open spec fn spec_beat_duration(&self) -> int {
        60_000_000_000int / self.bpm_milli as int
    }

    /// Length of the whole song, in microseconds.
    pub open spec fn spec_duration(&self) -> int {
        beat_time_us(self.total_beats_milli as int, self.bpm_milli as int)
    }

    /// Length of one beat, in microseconds.
    pub fn beat_duration(&self) -> (d: u64)
        requires
            self.bpm_milli > 0,
        ensures
            d == self.spec_beat_duration(),
    {
        60_000_000_000 / self.bpm_milli
    }

    /// Length of the whole song, in microseconds.
    pub fn duration_secs(&self) -> (d: u64)
        requires
            self.bpm_milli > 0,
            self.total_beats_milli <= MAX_BEAT_MILLI,
        ensures
            d == self.spec_duration(),
            d <= MAX_BEAT_MILLI * 60_000_000,
    {
        let total = self.total_beats_milli;
        assert(total * 60_000_000 <= MAX_BEAT_MILLI * 60_000_000) by (nonlinear_arith)
            requires total <= MAX_BEAT_MILLI;
        let n = total * 60_000_000;
        let d = n / self.bpm_milli;
        assert(d <= n) by (nonlinear_arith)
            requires d == n / self.bpm_milli, self.bpm_milli > 0, n >= 0;
        d
    }
}

/// A later beat never falls earlier: the note of a beat no later than the
/// song's end is due no later than the end plus the lead-in.
pub proof fn lemma_beat_time_within(beat: int, total: int, bpm_milli: int)
    requires
        0 <= beat <= total <= MAX_BEAT_MILLI,
        bpm_milli > 0,
    ensures
        (beat_time_us(beat, bpm_milli) + LEAD_IN_US) as u64 == beat_time_us(beat, bpm_milli)
            + LEAD_IN_US,
        beat_time_us(beat, bpm_milli) <= beat_time_us(total, bpm_milli),
{
    assert(beat * 60_000_000 / bpm_milli <= total * 60_000_000 / bpm_milli) by (nonlinear_arith)
        requires 0 <= beat <= total, bpm_milli > 0;
    assert(beat * 60_000_000 / bpm_milli <= beat * 60_000_000) by (nonlinear_arith)
        requires 0 <= beat, bpm_milli > 0;
    assert(beat * 60_000_000 <= MAX_BEAT_MILLI * 60_000_000) by (nonlinear_arith)
        requires 0 <= beat <= MAX_BEAT_MILLI;
}

/// One note of a song being played.
#[derive(Clone, Copy)]
pub struct Note {
    /// The board lane the note travels down.
    pub lane: usize,
    /// The key the player must press to hit this note.
    pub key: char,
    /// Game time, in microseconds, at which the note should be hit.
    pub hit_time: u64,
    /// Whether the note still waits to be judged.
    pub active: bool,
    /// The judgement, once the note has one.
    pub hit_grade: Option<HitGrade>,
}

/// The depth of a note at a game time, as a numerator over the approach
/// time: 0 when the note has just appeared far away, `APPROACH_TIME_US` (a
/// depth of 1) when it reaches the hit zone.
pub open spec fn z_numerator(hit_time: int, game_time: int) -> int {
    game_time - hit_time + APPROACH_TIME_US
}

/// The note of chart entry (`beat_milli`, `chart_lane`) of a song at
/// `bpm_milli` played at difficulty `d`: it travels down the board lane the
/// entry maps to, is due when its beat falls (after the lead-in), waits to be
/// judged, and carries the lane's key, or where keys are random the letter
/// `letter` places after 'a'.
pub open spec fn spec_note_for(
    beat_milli: int,
    chart_lane: int,
    d: Difficulty,
    bpm_milli: int,
    letter: u8,
) -> Note {
    let lane = board_lane(d, chart_lane);
    Note {
        lane: lane as usize,
        key: if has_fixed_keys(d) {
            fixed_key(d, lane)
        } else {
            (97 + letter) as char
        },
        hit_time: (beat_time_us(beat_milli, bpm_milli) + LEAD_IN_US) as u64,
        active: true,
        hit_grade: None,
    }
}

impl Note {
    /// Returns the note's depth at `game_time` as the numerator of a fraction
    /// over `APPROACH_TIME_US`: the depth is 1 − (hit time − game time) /
    /// approach time, so 0 = far (just appeared), 1 = at the hit zone.
    pub fn z_position(&self, game_time: u64) -> (z: i128)
        ensures
            z == z_numerator(self.hit_time as int, game_time as int),
    {
        game_time as i128 - self.hit_time as i128 + APPROACH_TIME_US as i128
    }

    /// The note of chart entry (`beat_milli`, `chart_lane`) of a song at
    /// `bpm_milli` played at difficulty `d`. Its key is the lane's key where
    /// the difficulty fixes keys, else the letter `letter` places after 'a'.
    pub fn from_chart(
        beat_milli: u64,
        chart_lane: usize,
        d: Difficulty,
        bpm_milli: u64,
        letter: u8,
    ) -> (n: Note)
        requires
            bpm_milli > 0,
            beat_milli <= MAX_BEAT_MILLI,
            letter < 26,
        ensures
            n == spec_note_for(beat_milli as int, chart_lane as int, d, bpm_milli as int, letter),
    {
        let lane = board_lane_for(d, chart_lane);
        let key = match d {
            Difficulty::Hardcore => (97u8 + letter) as char,
            _ => fixed_key_for(d, lane),
        };
        assert(beat_milli * 60_000_000 <= MAX_BEAT_MILLI * 60_000_000) by (nonlinear_arith)
            requires beat_milli <= MAX_BEAT_MILLI;
        let num = beat_milli * 60_000_000;
        let q = num / bpm_milli;
        assert(q <= num) by (nonlinear_arith)
            requires q == num / bpm_milli, bpm_milli > 0, num >= 0;
        Note {
            lane,
            key,
            hit_time: q + LEAD_IN_US,
            active: true,
            hit_grade: None,
        }
    }
}

} // verus!
