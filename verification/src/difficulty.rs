use vstd::prelude::*;

verus! {

/// Number of lanes on the widest board.
pub const MAX_LANES: usize = 8;

/// The three ways a chart can be played.
#[derive(Clone, Copy, PartialEq, Eq, Structural, Debug)]
pub enum Difficulty {
    Beginner,
    Standard,
    Hardcore,
}

/// The name shown for each difficulty.
pub open spec fn difficulty_label(d: Difficulty) -> Seq<char> {
    match d {
        Difficulty::Beginner => "Beginner"@,
        Difficulty::Standard => "Standard"@,
        Difficulty::Hardcore => "Hardcore"@,
    }
}

/// The one-line description shown for each difficulty.
pub open spec fn difficulty_description(d: Difficulty) -> Seq<char> {
    match d {
        Difficulty::Beginner => "4 lanes  ·  fixed keys: H J K L"@,
        Difficulty::Standard => "8 lanes  ·  fixed keys: A S D F H J K L"@,
        Difficulty::Hardcore => "5 lanes  ·  random key on every note"@,
    }
}

/// The accent color of each difficulty.
pub open spec fn difficulty_color(d: Difficulty) -> (u8, u8, u8) {
    match d {
        Difficulty::Beginner => (80, 220, 120),
        Difficulty::Standard => (80, 170, 255),
        Difficulty::Hardcore => (255, 80, 80),
    }
}

impl Difficulty {
    pub fn label(&self) -> (s: &'static str)
        ensures
            s@ == difficulty_label(*self),
    {
        match self {
            Difficulty::Beginner => "Beginner",
            Difficulty::Standard => "Standard",
            Difficulty::Hardcore => "Hardcore",
        }
    }

    pub fn description(&self) -> (s: &'static str)
        ensures
            s@ == difficulty_description(*self),
    {
        match self {
            Difficulty::Beginner => "4 lanes  ·  fixed keys: H J K L",
            Difficulty::Standard => "8 lanes  ·  fixed keys: A S D F H J K L",
            Difficulty::Hardcore => "5 lanes  ·  random key on every note",
        }
    }

    pub fn color(&self) -> (c: (u8, u8, u8))
        ensures
            c == difficulty_color(*self),
    {
        match self {
            Difficulty::Beginner => (80, 220, 120),
            Difficulty::Standard => (80, 170, 255),
            Difficulty::Hardcore => (255, 80, 80),
        }
    }
}


/// Lane colors of the full eight-lane board (keys a s d f h j k l).
pub const ALL_LANE_COLORS: [(u8, u8, u8); MAX_LANES] = [
    (255, 70, 100),
    (255, 180, 50),
    (120, 255, 100),
    (80, 170, 255),
    (200, 120, 255),
    (255, 220, 80),
    (80, 220, 220),
    (255, 140, 50),
];

/// Every difficulty, in the order the menu lists them.
pub const ALL_DIFFICULTIES: [Difficulty; 3] = [
    Difficulty::Beginner,
    Difficulty::Standard,
    Difficulty::Hardcore,
];

pub const BEGINNER_KEYS: [char; 4] = ['h', 'j', 'k', 'l'];

pub const STANDARD_KEYS: [char; MAX_LANES] = ['a', 's', 'd', 'f', 'h', 'j', 'k', 'l'];

/// Where each of the five charted lanes lands on the eight-lane board.
pub const STANDARD_REMAP: [usize; 5] = [0, 2, 4, 5, 7];

/// Where each of the five charted lanes lands on the four-lane board.
pub const BEGINNER_REMAP: [usize; 5] = [0, 1, 2, 2, 3];

/// Number of lanes on the board of each difficulty.
pub open spec fn lane_count(d: Difficulty) -> nat {
    match d {
        Difficulty::Beginner => 4,
        Difficulty::Standard => 8,
        Difficulty::Hardcore => 5,
    }
}

/// The board lane that a charted lane (charts have five lanes, 0 to 4; a
/// larger index counts as 4) is played on.
pub open spec fn board_lane(d: Difficulty, chart_lane: int) -> int {
    let src = if chart_lane < 4 { chart_lane } else { 4 };
    match d {
        Difficulty::Beginner => BEGINNER_REMAP@[src] as int,
        Difficulty::Standard => STANDARD_REMAP@[src] as int,
        Difficulty::Hardcore => src,
    }
}

/// Whether a difficulty ties every lane to one key.
pub open spec fn has_fixed_keys(d: Difficulty) -> bool {
    d != Difficulty::Hardcore
}

/// The key of a lane under a fixed-key difficulty.
pub open spec fn fixed_key(d: Difficulty, lane: int) -> char {
    match d {
        Difficulty::Beginner => BEGINNER_KEYS@[lane],
        _ => STANDARD_KEYS@[lane],
    }
}

/// The color of a board lane: the beginner board uses the colors of keys
/// h j k l, the others start from key a.
pub open spec fn lane_color_of(d: Difficulty, lane: int) -> (u8, u8, u8) {
    match d {
        Difficulty::Beginner => ALL_LANE_COLORS@[lane + 4],
        _ => ALL_LANE_COLORS@[lane],
    }
}

/// Whether `lane` is an index that the lane tables of `d` can be read at.
pub open spec fn lane_in_table(d: Difficulty, lane: int) -> bool {
    match d {
        Difficulty::Beginner => 0 <= lane < 4,
        _ => 0 <= lane < MAX_LANES,
    }
}

/// Maps a charted lane to the board of difficulty `d`.
pub fn board_lane_for(d: Difficulty, chart_lane: usize) -> (lane: usize)
    ensures
        lane == board_lane(d, chart_lane as int),
        lane < lane_count(d),
{
    let src = if chart_lane < 4 { chart_lane } else { 4 };
    match d {
        Difficulty::Beginner => BEGINNER_REMAP[src],
        Difficulty::Standard => STANDARD_REMAP[src],
        Difficulty::Hardcore => src,
    }
}

/// The key tied to `lane` under a fixed-key difficulty.
pub fn fixed_key_for(d: Difficulty, lane: usize) -> (c: char)
    requires
        has_fixed_keys(d),
        lane_in_table(d, lane as int),
    ensures
        c == fixed_key(d, lane as int),
{
    match d {
        Difficulty::Beginner => BEGINNER_KEYS[lane],
        _ => STANDARD_KEYS[lane],
    }
}

/// The color of `lane` on the board of difficulty `d`.
pub fn lane_color_for(d: Difficulty, lane: usize) -> (c: (u8, u8, u8))
    requires
        lane_in_table(d, lane as int),
    ensures
        c == lane_color_of(d, lane as int),
{
    match d {
        Difficulty::Beginner => ALL_LANE_COLORS[lane + 4],
        _ => ALL_LANE_COLORS[lane],
    }
}

/// The number of lanes on the board of difficulty `d`.
pub fn lanes_for(d: Difficulty) -> (n: usize)
    ensures
        n == lane_count(d),
{
    match d {
        Difficulty::Beginner => 4,
        Difficulty::Standard => 8,
        Difficulty::Hardcore => 5,
    }
}

} // verus!
