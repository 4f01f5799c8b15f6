use vstd::prelude::*;
use crate::song::Song;

verus! {

/// Every entry of `chart` lies on one of the five charted lanes, at a beat no
/// later than `last_beat_milli`.
pub open spec fn chart_within(chart: Seq<(u64, usize)>, last_beat_milli: int) -> bool {
    forall|i: int| 0 <= i < chart.len() ==> (#[trigger] chart[i]).1 < 5 && chart[i].0 <= last_beat_milli
}

/// A built-in song: `name` by `artist` at `bpm` beats per minute, lasting
/// `total_beats` beats, with a chart of `notes` entries on the five charted
/// lanes, every one before the song's end.
pub open spec fn builtin_shape(
    s: Song,
    name: Seq<char>,
    artist: Seq<char>,
    bpm: int,
    total_beats: int,
    notes: int,
) -> bool {
    &&& s.well_formed()
    &&& s.name@ == name
    &&& s.artist@ == artist
    &&& s.bpm_milli == bpm * 1000
    &&& s.total_beats_milli == total_beats * 1000
    &&& s.chart@.len() == notes
    &&& chart_within(s.chart@, s.total_beats_milli - 1)
}

/// A chart entry.
pub type Entry = (u64, usize);

/// The entries of blocks `block(0)`, ..., `block(n - 1)`, in that order.
pub open spec fn rep(n: nat, block: spec_fn(int) -> Seq<Entry>) -> Seq<Entry>
    decreases n,
{
    if n == 0 {
        Seq::empty()
    } else {
        rep((n - 1) as nat, block) + block(n - 1)
    }
}

/// The single entry at `beat` thousandths of a beat in `lane`.
pub open spec fn one(beat: int, lane: int) -> Seq<Entry> {
    seq![(beat as u64, lane as usize)]
}

// First Steps

/// Beats 0 to 39: lane 0, then lane 1, then lanes 3 and 4 in turn, then the
/// four lanes 0, 2, 3, 4 in turn, one note per beat.
pub open spec fn first_steps_intro() -> spec_fn(int) -> Seq<Entry> {
    |i: int|
        one(
            i * 1000,
            if i < 8 {
                0
            } else if i < 16 {
                1
            } else if i < 24 {
                if i % 2 == 0 {
                    3
                } else {
                    4
                }
            } else {
                seq![0int, 2, 3, 4][i % 4]
            },
        )
}

/// From beat 40: eighth notes rolling across the lanes and back.
pub open spec fn first_steps_rolls() -> spec_fn(int) -> Seq<Entry> {
    |i: int| one(40_000 + i * 500, seq![0int, 1, 2, 3, 4, 3, 2, 1][i % 8])
}

/// From beat 56: one note per beat cycling the lanes, with an off-beat note
/// two lanes further on every third beat.
pub open spec fn first_steps_mixed() -> spec_fn(int) -> Seq<Entry> {
    |i: int|
        one(56_000 + i * 1000, i % 5) + if i % 3 == 0 {
            one(56_000 + i * 1000 + 500, (i + 2) % 5)
        } else {
            Seq::empty()
        }
}

/// The chart of First Steps.
pub open spec fn first_steps_chart() -> Seq<Entry> {
    rep(40, first_steps_intro()) + rep(32, first_steps_rolls()) + rep(16, first_steps_mixed())
}

// Neon Cascade

/// Beats 0 to 7 on the center lane.
pub open spec fn neon_intro() -> spec_fn(int) -> Seq<Entry> {
    |i: int| one(i * 1000, 2)
}

/// From beat 8: eighth notes in alternating pairs.
pub open spec fn neon_build() -> spec_fn(int) -> Seq<Entry> {
    |i: int| one(8_000 + i * 500, seq![0int, 4, 1, 3][i % 4])
}

/// From beat 16: sixteenth notes cascading across the lanes.
pub open spec fn neon_chorus() -> spec_fn(int) -> Seq<Entry> {
    |i: int| one(16_000 + i * 250, i % 5)
}

/// From beat 24: one measure of four beats per block, kick, snare and
/// off-beat hi-hat, with melody accents that alternate between measures.
pub open spec fn neon_bridge() -> spec_fn(int) -> Seq<Entry> {
    |m: int|
        {
            let b = 24_000 + m * 4000;
            one(b, 0) + one(b + 2000, 0) + one(b + 1000, 4) + one(b + 3000, 4) + one(b + 500, 2)
                + one(b + 1500, 2) + one(b + 2500, 2) + one(b + 3500, 2) + if m % 2 == 0 {
                one(b + 750, 1) + one(b + 2750, 3)
            } else {
                one(b + 1250, 3) + one(b + 3250, 1)
            }
        }
}

/// From beat 56: notes whose spacing shrinks by 0.015 beat each (to no
/// less than 0.2 beat).
pub open spec fn neon_outro() -> spec_fn(int) -> Seq<Entry> {
    |i: int| one(56_000 + i * if 500 - i * 15 > 200 { 500 - i * 15 } else { 200 }, i % 5)
}

/// The chart of Neon Cascade.
pub open spec fn neon_cascade_chart() -> Seq<Entry> {
    rep(8, neon_intro()) + rep(16, neon_build()) + rep(32, neon_chorus()) + rep(8, neon_bridge())
        + rep(20, neon_outro())
}

// Stardust

/// Beats 0 to 7: a center note, then a two-lane chord on the next beat.
pub open spec fn stardust_intro() -> spec_fn(int) -> Seq<Entry> {
    |i: int| one(i * 2000, 2) + one(i * 2000 + 1000, 0) + one(i * 2000 + 1000, 4)
}

/// The lanes of the arpeggio pattern of group `g`.
pub open spec fn arpeggio_lane(g: int, j: int) -> int {
    if g % 4 == 0 {
        seq![0int, 1, 2, 3, 4][j]
    } else if g % 4 == 1 {
        seq![4int, 3, 2, 1, 0][j]
    } else if g % 4 == 2 {
        seq![0int, 2, 4, 2, 0][j]
    } else {
        seq![1int, 3, 4, 3, 1][j]
    }
}

/// The first `j` notes of arpeggio group `g`: sixteenth notes from beat 8 + 2g.
pub open spec fn arpeggio_notes(g: int, j: nat) -> Seq<Entry>
    decreases j,
{
    if j == 0 {
        Seq::empty()
    } else {
        arpeggio_notes(g, (j - 1) as nat) + one(8_000 + g * 2000 + (j - 1) * 250, arpeggio_lane(g, j - 1))
    }
}

/// From beat 8: groups of five fast arpeggio notes.
pub open spec fn stardust_arpeggios() -> spec_fn(int) -> Seq<Entry> {
    |g: int| arpeggio_notes(g, 5)
}

/// The first `e` eighth notes of chorus measure `m`.
pub open spec fn chorus_eighths(m: int, e: nat) -> Seq<Entry>
    decreases e,
{
    if e == 0 {
        Seq::empty()
    } else {
        chorus_eighths(m, (e - 1) as nat) + one(24_000 + m * 4000 + (e - 1) * 500, (m + e - 1) % 5)
    }
}

/// From beat 24: measures of eight eighth notes, then chords on the first and
/// third beats.
pub open spec fn stardust_chorus() -> spec_fn(int) -> Seq<Entry> {
    |m: int|
        {
            let b = 24_000 + m * 4000;
            chorus_eighths(m, 8) + one(b, 1) + one(b, 3) + one(b + 2000, 0) + one(b + 2000, 4)
        }
}

/// From beat 56: a triplet feel, notes 0.333 beat apart.
pub open spec fn stardust_break() -> spec_fn(int) -> Seq<Entry> {
    |i: int| one(56_000 + i * 333, seq![0int, 2, 4, 3, 2, 1][i % 6])
}

/// The lane of finale step `i`: across the lanes and back.
pub open spec fn finale_lane(i: int) -> int {
    seq![0int, 1, 2, 3, 4, 4, 3, 2, 1, 0][i % 10]
}

/// From beat 64: sixteenth notes, doubled on the mirrored lane every fourth step.
pub open spec fn stardust_finale() -> spec_fn(int) -> Seq<Entry> {
    |i: int|
        one(64_000 + i * 250, finale_lane(i)) + if i % 4 == 0 {
            one(64_000 + i * 250, 4 - finale_lane(i))
        } else {
            Seq::empty()
        }
}

/// The chart of Stardust.
pub open spec fn stardust_chart() -> Seq<Entry> {
    rep(4, stardust_intro()) + rep(8, stardust_arpeggios()) + rep(8, stardust_chorus()) + rep(
        24,
        stardust_break(),
    ) + rep(32, stardust_finale())
}

/// One more block extends the entries by that block.
pub proof fn lemma_rep_step(n: nat, block: spec_fn(int) -> Seq<Entry>)
    ensures
        rep(n + 1, block) == rep(n, block) + block(n as int),
{
}

/// The three songs that ship with the game, easiest first.
pub fn builtin_songs() -> (songs: Vec<Song>)
    ensures
        songs@.len() == 3,
        builtin_shape(songs@[0], "First Steps"@, "Tutorial"@, 110, 74, 94),
        builtin_shape(songs@[1], "Neon Cascade"@, "Synthwave"@, 138, 66, 156),
        builtin_shape(songs@[2], "Stardust"@, "Hardmode"@, 160, 74, 212),
        songs@[0].chart@ == first_steps_chart(),
        songs@[1].chart@ == neon_cascade_chart(),
        songs@[2].chart@ == stardust_chart(),
{
    let mut songs = Vec::new();
    songs.push(first_steps());
    songs.push(neon_cascade());
    songs.push(stardust());
    songs
}

/// Tutorial song: introduces the lanes one at a time, then builds.
fn first_steps() -> (s: Song)
    ensures
        builtin_shape(s, "First Steps"@, "Tutorial"@, 110, 74, 94),
        s.chart@ == first_steps_chart(),
{
    let mut chart: Vec<Entry> = Vec::new();
    // Section 1: lane 0, then lane 1, quarter notes
    for i in 0..8u64
        invariant
            chart@.len() == i,
            chart_within(chart@, 73_999),
            chart@ == rep(i as nat, first_steps_intro()),
    {
        chart.push((i * 1000, 0));
        proof {
            lemma_rep_step(i as nat, first_steps_intro());
            assert(chart@ =~= rep((i + 1) as nat, first_steps_intro()));
        }
    }
    for i in 8..16u64
        invariant
            chart@.len() == i,
            chart_within(chart@, 73_999),
            chart@ == rep(i as nat, first_steps_intro()),
    {
        chart.push((i * 1000, 1));
        proof {
            lemma_rep_step(i as nat, first_steps_intro());
            assert(chart@ =~= rep((i + 1) as nat, first_steps_intro()));
        }
    }
    // Section 2: right hand only
    for i in 16..24u64
        invariant
            chart@.len() == i,
            chart_within(chart@, 73_999),
            chart@ == rep(i as nat, first_steps_intro()),
    {
        chart.push((i * 1000, if i % 2 == 0 { 3 } else { 4 }));
        proof {
            lemma_rep_step(i as nat, first_steps_intro());
            assert(chart@ =~= rep((i + 1) as nat, first_steps_intro()));
        }
    }
    // Section 3: alternating left and right
    for i in 24..40u64
        invariant
            chart@.len() == i,
            chart_within(chart@, 73_999),
            chart@ == rep(i as nat, first_steps_intro()),
    {
        let lane: usize = match i % 4 {
            0 => 0,
            1 => 2,
            2 => 3,
            _ => 4,
        };
        chart.push((i * 1000, lane));
        proof {
            lemma_rep_step(i as nat, first_steps_intro());
            assert(chart@ =~= rep((i + 1) as nat, first_steps_intro()));
        }
    }
    // Section 4: eighth notes, rolling patterns
    for i in 0..32u64
        invariant
            chart@.len() == 40 + i,
            chart_within(chart@, 73_999),
            chart@ == rep(40, first_steps_intro()) + rep(i as nat, first_steps_rolls()),
    {
        let lane: usize = match i % 8 {
            0 => 0,
            1 => 1,
            2 => 2,
            3 => 3,
            4 => 4,
            5 => 3,
            6 => 2,
            _ => 1,
        };
        chart.push((40_000 + i * 500, lane));
        proof {
            lemma_rep_step(i as nat, first_steps_rolls());
            assert(chart@ =~= rep(40, first_steps_intro()) + rep((i + 1) as nat, first_steps_rolls()));
        }
    }
    // Section 5: mixed rhythms, with an off-beat note on every third beat
    for i in 0..16u64
        invariant
            chart@.len() == 72 + i + (i + 2) / 3,
            chart_within(chart@, 73_999),
            chart@ == rep(40, first_steps_intro()) + rep(32, first_steps_rolls()) + rep(
                i as nat,
                first_steps_mixed(),
            ),
    {
        let beat = 56_000 + i * 1000;
        chart.push((beat, (i % 5) as usize));
        if i % 3 == 0 {
            chart.push((beat + 500, ((i + 2) % 5) as usize));
        }
        proof {
            lemma_rep_step(i as nat, first_steps_mixed());
            assert(chart@ =~= rep(40, first_steps_intro()) + rep(32, first_steps_rolls()) + rep(
                (i + 1) as nat,
                first_steps_mixed(),
            ));
        }
    }
    Song {
        name: "First Steps".to_owned(),
        artist: "Tutorial".to_owned(),
        bpm_milli: 110_000,
        chart,
        total_beats_milli: 74_000,
    }
}

/// Appends measure `measure` of the Neon Cascade bridge.
fn push_bridge_measure(chart: &mut Vec<Entry>, measure: u64)
    requires
        measure < 8,
        chart_within(old(chart)@, 65_999),
    ensures
        final(chart)@ == old(chart)@ + neon_bridge()(measure as int),
        chart_within(final(chart)@, 65_999),
{
    let base = 24_000 + measure * 4000;
    // kick on beats 1 and 3, snare on 2 and 4
    chart.push((base, 0));
    chart.push((base + 2000, 0));
    chart.push((base + 1000, 4));
    chart.push((base + 3000, 4));
    // hi-hat on the off-beats
    chart.push((base + 500, 2));
    chart.push((base + 1500, 2));
    chart.push((base + 2500, 2));
    chart.push((base + 3500, 2));
    // melody accents
    if measure % 2 == 0 {
        chart.push((base + 750, 1));
        chart.push((base + 2750, 3));
    } else {
        chart.push((base + 1250, 3));
        chart.push((base + 3250, 1));
    }
    assert(chart@ =~= old(chart)@ + neon_bridge()(measure as int));
}

/// Medium song: syncopation and faster patterns.
fn neon_cascade() -> (s: Song)
    ensures
        builtin_shape(s, "Neon Cascade"@, "Synthwave"@, 138, 66, 156),
        s.chart@ == neon_cascade_chart(),
{
    let mut chart: Vec<Entry> = Vec::new();
    // Intro: pulsing center lane
    for i in 0..8u64
        invariant
            chart@.len() == i,
            chart_within(chart@, 65_999),
            chart@ == rep(i as nat, neon_intro()),
    {
        chart.push((i * 1000, 2));
        proof {
            lemma_rep_step(i as nat, neon_intro());
            assert(chart@ =~= rep((i + 1) as nat, neon_intro()));
        }
    }
    // Build: alternating pairs
    for i in 0..16u64
        invariant
            chart@.len() == 8 + i,
            chart_within(chart@, 65_999),
            chart@ == rep(8, neon_intro()) + rep(i as nat, neon_build()),
    {
        let lane: usize = match i % 4 {
            0 => 0,
            1 => 4,
            2 => 1,
            _ => 3,
        };
        chart.push((8_000 + i * 500, lane));
        proof {
            lemma_rep_step(i as nat, neon_build());
            assert(chart@ =~= rep(8, neon_intro()) + rep((i + 1) as nat, neon_build()));
        }
    }
    // Chorus: cascading waterfall
    for i in 0..32u64
        invariant
            chart@.len() == 24 + i,
            chart_within(chart@, 65_999),
            chart@ == rep(8, neon_intro()) + rep(16, neon_build()) + rep(i as nat, neon_chorus()),
    {
        chart.push((16_000 + i * 250, (i % 5) as usize));
        proof {
            lemma_rep_step(i as nat, neon_chorus());
            assert(chart@ =~= rep(8, neon_intro()) + rep(16, neon_build()) + rep(
                (i + 1) as nat,
                neon_chorus(),
            ));
        }
    }
    // Bridge: syncopated groove
    for measure in 0..8u64
        invariant
            chart@.len() == 56 + 10 * measure,
            chart_within(chart@, 65_999),
            chart@ == rep(8, neon_intro()) + rep(16, neon_build()) + rep(32, neon_chorus()) + rep(
                measure as nat,
                neon_bridge(),
            ),
    {
        push_bridge_measure(&mut chart, measure);
        proof {
            lemma_rep_step(measure as nat, neon_bridge());
            assert(chart@ =~= rep(8, neon_intro()) + rep(16, neon_build()) + rep(32, neon_chorus())
                + rep((measure + 1) as nat, neon_bridge()));
        }
    }
    // Outro: rolls that get faster
    for i in 0..20u64
        invariant
            chart@.len() == 136 + i,
            chart_within(chart@, 65_999),
            chart@ == rep(8, neon_intro()) + rep(16, neon_build()) + rep(32, neon_chorus()) + rep(
                8,
                neon_bridge(),
            ) + rep(i as nat, neon_outro()),
    {
        let step: u64 = if 500 - i * 15 > 200 { 500 - i * 15 } else { 200 };
        assert(i * step <= 19 * 500) by (nonlinear_arith)
            requires i < 20, step <= 500;
        chart.push((56_000 + i * step, (i % 5) as usize));
        proof {
            lemma_rep_step(i as nat, neon_outro());
            assert(chart@ =~= rep(8, neon_intro()) + rep(16, neon_build()) + rep(32, neon_chorus())
                + rep(8, neon_bridge()) + rep((i + 1) as nat, neon_outro()));
        }
    }
    Song {
        name: "Neon Cascade".to_owned(),
        artist: "Synthwave".to_owned(),
        bpm_milli: 138_000,
        chart,
        total_beats_milli: 66_000,
    }
}

/// Hard song: fast arpeggios and chords.
fn stardust() -> (s: Song)
    ensures
        builtin_shape(s, "Stardust"@, "Hardmode"@, 160, 74, 212),
        s.chart@ == stardust_chart(),
{
    let mut chart: Vec<Entry> = Vec::new();
    // Intro: dramatic build
    for i in 0..4u64
        invariant
            chart@.len() == 3 * i,
            chart_within(chart@, 73_999),
            chart@ == rep(i as nat, stardust_intro()),
    {
        let beat = i * 2000;
        chart.push((beat, 2));
        chart.push((beat + 1000, 0));
        chart.push((beat + 1000, 4));
        proof {
            lemma_rep_step(i as nat, stardust_intro());
            assert(chart@ =~= rep((i + 1) as nat, stardust_intro()));
        }
    }
    // Fast arpeggios
    for group in 0..8u64
        invariant
            chart@.len() == 12 + 5 * group,
            chart_within(chart@, 73_999),
            chart@ == rep(4, stardust_intro()) + rep(group as nat, stardust_arpeggios()),
    {
        let base = 8_000 + group * 2000;
        let pattern: [usize; 5] = match group % 4 {
            0 => [0, 1, 2, 3, 4],
            1 => [4, 3, 2, 1, 0],
            2 => [0, 2, 4, 2, 0],
            _ => [1, 3, 4, 3, 1],
        };
        assert(forall|j: int| 0 <= j < 5 ==> #[trigger] pattern@[j] == arpeggio_lane(group as int, j));
        let ghost before = chart@;
        for j in 0..5u64
            invariant
                chart@.len() == 12 + 5 * group + j,
                chart_within(chart@, 73_999),
                base == 8_000 + group * 2000,
                group < 8,
                forall|k: int| 0 <= k < 5 ==> #[trigger] pattern@[k] == arpeggio_lane(group as int, k),
                forall|k: int| 0 <= k < 5 ==> #[trigger] pattern@[k] < 5,
                chart@ == before + arpeggio_notes(group as int, j as nat),
        {
            chart.push((base + j * 250, pattern[j as usize]));
            proof {
                assert(chart@ =~= before + arpeggio_notes(group as int, (j + 1) as nat));
            }
        }
        proof {
            lemma_rep_step(group as nat, stardust_arpeggios());
            assert(chart@ =~= rep(4, stardust_intro()) + rep((group + 1) as nat, stardust_arpeggios()));
        }
    }
    // Chorus: dense patterns with chords
    for measure in 0..8u64
        invariant
            chart@.len() == 52 + 12 * measure,
            chart_within(chart@, 73_999),
            chart@ == rep(4, stardust_intro()) + rep(8, stardust_arpeggios()) + rep(
                measure as nat,
                stardust_chorus(),
            ),
    {
        let base = 24_000 + measure * 4000;
        let ghost before = chart@;
        for eighth in 0..8u64
            invariant
                chart@.len() == 52 + 12 * measure + eighth,
                chart_within(chart@, 73_999),
                base == 24_000 + measure * 4000,
                measure < 8,
                chart@ == before + chorus_eighths(measure as int, eighth as nat),
        {
            chart.push((base + eighth * 500, ((measure + eighth) % 5) as usize));
            proof {
                assert(chart@ =~= before + chorus_eighths(measure as int, (eighth + 1) as nat));
            }
        }
        // chord accents on the strong beats
        chart.push((base, 1));
        chart.push((base, 3));
        chart.push((base + 2000, 0));
        chart.push((base + 2000, 4));
        proof {
            lemma_rep_step(measure as nat, stardust_chorus());
            assert(chart@ =~= rep(4, stardust_intro()) + rep(8, stardust_arpeggios()) + rep(
                (measure + 1) as nat,
                stardust_chorus(),
            ));
        }
    }
    // Break: triplet feel
    for i in 0..24u64
        invariant
            chart@.len() == 148 + i,
            chart_within(chart@, 73_999),
            chart@ == rep(4, stardust_intro()) + rep(8, stardust_arpeggios()) + rep(
                8,
                stardust_chorus(),
            ) + rep(i as nat, stardust_break()),
    {
        let lane: usize = match i % 6 {
            0 => 0,
            1 => 2,
            2 => 4,
            3 => 3,
            4 => 2,
            _ => 1,
        };
        chart.push((56_000 + i * 333, lane));
        proof {
            lemma_rep_step(i as nat, stardust_break());
            assert(chart@ =~= rep(4, stardust_intro()) + rep(8, stardust_arpeggios()) + rep(
                8,
                stardust_chorus(),
            ) + rep((i + 1) as nat, stardust_break()));
        }
    }
    // Finale: everything, with doubled notes every fourth step
    for i in 0..32u64
        invariant
            chart@.len() == 172 + i + (i + 3) / 4,
            chart_within(chart@, 73_999),
            chart@ == rep(4, stardust_intro()) + rep(8, stardust_arpeggios()) + rep(
                8,
                stardust_chorus(),
            ) + rep(24, stardust_break()) + rep(i as nat, stardust_finale()),
    {
        let beat = 64_000 + i * 250;
        let lane: usize = match i % 10 {
            0 => 0,
            1 => 1,
            2 => 2,
            3 => 3,
            4 => 4,
            5 => 4,
            6 => 3,
            7 => 2,
            8 => 1,
            _ => 0,
        };
        chart.push((beat, lane));
        if i % 4 == 0 {
            chart.push((beat, 4 - lane));
        }
        proof {
            lemma_rep_step(i as nat, stardust_finale());
            assert(chart@ =~= rep(4, stardust_intro()) + rep(8, stardust_arpeggios()) + rep(
                8,
                stardust_chorus(),
            ) + rep(24, stardust_break()) + rep((i + 1) as nat, stardust_finale()));
        }
    }
    Song {
        name: "Stardust".to_owned(),
        artist: "Hardmode".to_owned(),
        bpm_milli: 160_000,
        chart,
        total_beats_milli: 74_000,
    }
}

} // verus!
