use vstd::prelude::*;

verus! {

/// How long a note is on screen before it reaches the hit zone, in microseconds.
pub const APPROACH_TIME_US: u64 = 2_500_000;

/// Largest distance from the exact hit time that still grades PERFECT, in microseconds.
pub const WINDOW_PERFECT_US: u64 = 45_000;

/// Largest distance from the exact hit time that still grades GREAT, in microseconds.
pub const WINDOW_GREAT_US: u64 = 90_000;

/// Largest distance from the exact hit time that still grades GOOD, in microseconds.
pub const WINDOW_GOOD_US: u64 = 140_000;

/// Largest distance from the exact hit time at which a key press reaches a note at all.
pub const WINDOW_MISS_US: u64 = 200_000;

/// How long after its hit time an untouched note counts as missed, in microseconds.
pub const MISS_CUTOFF_US: u64 = 200_000;

/// The judgement given to a note.
#[derive(Clone, Copy, PartialEq, Eq, Structural, Debug)]
pub enum HitGrade {
    Perfect,
    Great,
    Good,
    Miss,
}

/// The text shown for each grade.
pub open spec fn grade_label(g: HitGrade) -> Seq<char> {
    match g {
        HitGrade::Perfect => "PERFECT"@,
        HitGrade::Great => "GREAT"@,
        HitGrade::Good => "GOOD"@,
        HitGrade::Miss => "MISS"@,
    }
}

/// The color each grade is shown in.
pub open spec fn grade_color(g: HitGrade) -> (u8, u8, u8) {
    match g {
        HitGrade::Perfect => (255, 255, 80),
        HitGrade::Great => (80, 255, 120),
        HitGrade::Good => (80, 180, 255),
        HitGrade::Miss => (255, 60, 60),
    }
}

/// The base points of each grade.
pub open spec fn grade_points(g: HitGrade) -> u32 {
    match g {
        HitGrade::Perfect => 100,
        HitGrade::Great => 75,
        HitGrade::Good => 50,
        HitGrade::Miss => 0,
    }
}

/// The slot of each grade in the per-grade hit counters.
pub open spec fn grade_index(g: HitGrade) -> int {
    match g {
        HitGrade::Perfect => 0,
        HitGrade::Great => 1,
        HitGrade::Good => 2,
        HitGrade::Miss => 3,
    }
}

/// The grade of a key press `offset` microseconds away from a note's hit time.
pub open spec fn grade_for_offset(offset: int) -> HitGrade {
    if offset <= WINDOW_PERFECT_US {
        HitGrade::Perfect
    } else if offset <= WINDOW_GREAT_US {
        HitGrade::Great
    } else if offset <= WINDOW_GOOD_US {
        HitGrade::Good
    } else {
        HitGrade::Miss
    }
}

/// The score multiplier at a combo: one more for every ten consecutive hits.
pub open spec fn combo_multiplier(combo: int) -> int {
    1 + combo / 10
}

impl HitGrade {
    pub fn label(&self) -> (s: &'static str)
        ensures
            s@ == grade_label(*self),
    {
        match self {
            HitGrade::Perfect => "PERFECT",
            HitGrade::Great => "GREAT",
            HitGrade::Good => "GOOD",
            HitGrade::Miss => "MISS",
        }
    }

    pub fn color(&self) -> (c: (u8, u8, u8))
        ensures
            c == grade_color(*self),
    {
        match self {
            HitGrade::Perfect => (255, 255, 80),
            HitGrade::Great => (80, 255, 120),
            HitGrade::Good => (80, 180, 255),
            HitGrade::Miss => (255, 60, 60),
        }
    }

    pub fn points(&self) -> (p: u32)
        ensures
            p == grade_points(*self),
    {
        match self {
            HitGrade::Perfect => 100,
            HitGrade::Great => 75,
            HitGrade::Good => 50,
            HitGrade::Miss => 0,
        }
    }

    /// The slot of this grade in the per-grade hit counters.
    pub fn index(&self) -> (i: usize)
        ensures
            i == grade_index(*self),
    {
        match self {
            HitGrade::Perfect => 0,
            HitGrade::Great => 1,
            HitGrade::Good => 2,
            HitGrade::Miss => 3,
        }
    }
}

/// Grades a key press `offset` microseconds away from a note's hit time.
pub fn grade_offset(offset: u64) -> (g: HitGrade)
    ensures
        g == grade_for_offset(offset as int),
{
    if offset <= WINDOW_PERFECT_US {
        HitGrade::Perfect
    } else if offset <= WINDOW_GREAT_US {
        HitGrade::Great
    } else if offset <= WINDOW_GOOD_US {
        HitGrade::Good
    } else {
        HitGrade::Miss
    }
}

/// A closer press never grades worse: the grade's base points fall as the
/// distance from the hit time grows.
pub proof fn lemma_closer_scores_no_less(a: int, b: int)
    requires
        0 <= a <= b,
    ensures
        grade_points(grade_for_offset(a)) >= grade_points(grade_for_offset(b)),
{
}

/// Base points are strictly ordered PERFECT > GREAT > GOOD > MISS, and a MISS is worth nothing.
pub proof fn lemma_points_order()
    ensures
        grade_points(HitGrade::Perfect) > grade_points(HitGrade::Great),
        grade_points(HitGrade::Great) > grade_points(HitGrade::Good),
        grade_points(HitGrade::Good) > grade_points(HitGrade::Miss),
        grade_points(HitGrade::Miss) == 0,
{
}

} // verus!
