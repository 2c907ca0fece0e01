use vstd::prelude::*;

verus! {

/// Difficulty rating.
#[derive(Clone, Copy, PartialEq, Eq, Structural, Debug)]
pub enum Difficulty {
    Easy,
    Normal,
    Hard,
}

/// The position of a difficulty in the menu's list of choices.
pub open spec fn difficulty_position(d: Difficulty) -> int {
    match d {
        Difficulty::Easy => 0,
        Difficulty::Normal => 1,
        Difficulty::Hard => 2,
    }
}

/// The difficulty at a position of the menu's list of choices.
pub open spec fn difficulty_at(i: int) -> Difficulty {
    if i == 0 {
        Difficulty::Easy
    } else if i == 1 {
        Difficulty::Normal
    } else {
        Difficulty::Hard
    }
}

impl Default for Difficulty {
    /// The default difficulty is `Normal`.
    fn default() -> (d: Self)
        ensures
            d == Difficulty::Normal,
    {
        Difficulty::Normal
    }
}

impl Difficulty {
    /// How many difficulties there are.
    pub fn variant_count() -> (n: usize)
        ensures
            n == 3,
    {
        3
    }

    /// The position of this difficulty among the choices, easiest first.
    pub fn index(&self) -> (i: usize)
        ensures
            i == difficulty_position(*self),
    {
        match self {
            Difficulty::Easy => 0,
            Difficulty::Normal => 1,
            Difficulty::Hard => 2,
        }
    }

    /// The difficulty at a position among the choices.
    pub fn from_index(i: usize) -> (d: Difficulty)
        requires
            i < 3,
        ensures
            d == difficulty_at(i as int),
    {
        if i == 0 {
            Difficulty::Easy
        } else if i == 1 {
            Difficulty::Normal
        } else {
            Difficulty::Hard
        }
    }
}

/// The choices are listed from easiest to hardest.
pub proof fn law_difficulties_are_listed_easiest_first()
    ensures
        difficulty_position(Difficulty::Easy) < difficulty_position(Difficulty::Normal),
        difficulty_position(Difficulty::Normal) < difficulty_position(Difficulty::Hard),
        difficulty_position(Difficulty::Easy) == 0,
{
}

/// Choosing a difficulty by its position gives it back, and every position
/// names the difficulty found there.
pub proof fn law_difficulty_positions_round_trip(d: Difficulty, i: int)
    requires
        0 <= i < 3,
    ensures
        difficulty_at(difficulty_position(d)) == d,
        difficulty_position(difficulty_at(i)) == i,
        0 <= difficulty_position(d) < 3,
{
}

/// The current difficulty.
#[derive(Clone, Copy, PartialEq, Eq, Structural, Debug)]
pub struct LevelDifficulty(pub Difficulty);

impl Default for LevelDifficulty {
    /// The default difficulty.
    fn default() -> (d: Self)
        ensures
            d.0 == Difficulty::Normal,
    {
        LevelDifficulty(Difficulty::Normal)
    }
}

/// The current score.
#[derive(Clone, Copy, PartialEq, Eq, Structural, Debug)]
pub struct CurrentScore {
    pub score: i32,
}

impl Default for CurrentScore {
    /// A score of zero.
    fn default() -> (s: Self)
        ensures
            s.score == 0,
    {
        CurrentScore { score: 0 }
    }
}

/// What follows a won level.
#[derive(Clone, Copy, PartialEq, Eq, Structural, Debug)]
pub enum LevelAdvance {
    /// The last level was won: the game is complete and the next game starts
    /// again from the first level.
    GameCompleted,
    /// Go on to the level with this index.
    NextLevel(usize),
}

/// The level index stored after an advance.
pub open spec fn stored_level_index(a: LevelAdvance) -> int {
    match a {
        LevelAdvance::GameCompleted => 0,
        LevelAdvance::NextLevel(i) => i as int,
    }
}

/// What follows winning the level `level_index` of `level_count` levels:
/// the next level if there is one, the end of the game otherwise.
pub fn after_level_won(level_index: usize, level_count: usize) -> (a: LevelAdvance)
    requires
        level_index < usize::MAX,
    ensures
        a == (if level_index + 1 >= level_count {
            LevelAdvance::GameCompleted
        } else {
            LevelAdvance::NextLevel((level_index + 1) as usize)
        }),
{
    let next_index = level_index + 1;
    if next_index >= level_count {
        LevelAdvance::GameCompleted
    } else {
        LevelAdvance::NextLevel(next_index)
    }
}

/// Winning any level keeps the stored level index within the level list,
/// as long as the list is not empty; the game ends exactly on the last level.
pub proof fn law_won_level_index_stays_in_range(level_index: usize, level_count: usize)
    requires
        level_index < usize::MAX,
        level_count > 0,
    ensures
        ({
            let a = if level_index + 1 >= level_count {
                LevelAdvance::GameCompleted
            } else {
                LevelAdvance::NextLevel((level_index + 1) as usize)
            };
            &&& 0 <= stored_level_index(a) < level_count
            &&& (a == LevelAdvance::GameCompleted) == (level_index + 1 >= level_count)
        }),
{
}

/// The level to set up for the stored index: `None` (an error) when the
/// index is past the end of the level list.
pub fn select_level(level_index: usize, level_count: usize) -> (sel: Option<usize>)
    ensures
        sel == (if level_index < level_count { Some(level_index) } else { None::<usize> }),
{
    if level_index >= level_count {
        None
    } else {
        Some(level_index)
    }
}

/// The index the level menu shows: the stored level index, or the first
/// level when none is stored.
pub fn level_menu_index(stored: Option<usize>) -> (i: usize)
    ensures
        i == (match stored {
            Some(s) => s,
            None => 0,
        }),
{
    match stored {
        Some(s) => s,
        None => 0,
    }
}

/// Half the width of the cube of spheres in the first level.
pub const LEVEL0_HALF_EXTENT: i32 = 8;

/// The cell of the first level's sphere grid at position `k` of the spawn
/// order: x outermost, then y, then z, x and z in `-8..8`, y in `0..16`.
pub open spec fn level0_cell(k: int) -> (i32, i32, i32) {
    ((k / 256 - 8) as i32, ((k / 16) % 16) as i32, (k % 16 - 8) as i32)
}

/// The grid's spawn order visits each cell of the cube once: the cell with
/// offsets `a`, `b`, `c` (each below 16) comes at position
/// `256 a + 16 b + c`, and every position below 4096 names a cell of the cube.
pub proof fn law_level0_cells_fill_the_cube(a: u32, b: u32, c: u32, k: int)
    requires
        a < 16,
        b < 16,
        c < 16,
        0 <= k < 4096,
    ensures
        level0_cell(256 * a + 16 * b + c) == ((a - 8) as i32, b as i32, (c - 8) as i32),
        -8 <= level0_cell(k).0 < 8,
        0 <= level0_cell(k).1 < 16,
        -8 <= level0_cell(k).2 < 8,
{
    lemma_level0_cell(a, b, c);
}

proof fn lemma_level0_cell(a: u32, b: u32, c: u32)
    requires
        a < 16,
        b < 16,
        c < 16,
    ensures
        level0_cell(256 * a + 16 * b + c) == ((a - 8) as i32, b as i32, (c - 8) as i32),
{
    assert((256 * a + 16 * b + c) / 256 == a) by (nonlinear_arith)
        requires
            a < 16,
            b < 16,
            c < 16,
    ;
    assert(((256 * a + 16 * b + c) / 16) % 16 == b) by (nonlinear_arith)
        requires
            a < 16,
            b < 16,
            c < 16,
    ;
    assert((256 * a + 16 * b + c) % 16 == c) by (nonlinear_arith)
        requires
            a < 16,
            b < 16,
            c < 16,
    ;
}

/// The grid cells of the first level's spheres, in spawn order: 16 by 16 by
/// 16 cells, x and z from -8 to 7, y from 0 to 15.
pub fn level0_grid_cells() -> (cells: Vec<(i32, i32, i32)>)
    ensures
        cells.len() == 4096,
        forall|k: int| 0 <= k < 4096 ==> #[trigger] cells@[k] == level0_cell(k),
{
    let d: i32 = LEVEL0_HALF_EXTENT;
    let mut cells: Vec<(i32, i32, i32)> = Vec::new();
    let mut x: i32 = -d;
    while x < d
        invariant
            d == 8,
            -8 <= x <= 8,
            cells.len() == 256 * (x + 8),
            forall|k: int| 0 <= k < cells.len() ==> #[trigger] cells@[k] == level0_cell(k),
        decreases d - x,
    {
        let mut y: i32 = 0;
        while y < d * 2
            invariant
                d == 8,
                -8 <= x < 8,
                0 <= y <= 16,
                cells.len() == 256 * (x + 8) + 16 * y,
                forall|k: int| 0 <= k < cells.len() ==> #[trigger] cells@[k] == level0_cell(k),
            decreases 16 - y,
        {
            let mut z: i32 = -d;
            while z < d
                invariant
                    d == 8,
                    -8 <= x < 8,
                    0 <= y < 16,
                    -8 <= z <= 8,
                    cells.len() == 256 * (x + 8) + 16 * y + (z + 8),
                    forall|k: int| 0 <= k < cells.len() ==> #[trigger] cells@[k] == level0_cell(k),
                decreases d - z,
            {
                proof {
                    lemma_level0_cell((x + 8) as u32, y as u32, (z + 8) as u32);
                }
                cells.push((x, y, z));
                z = z + 1;
            }
            y = y + 1;
        }
        x = x + 1;
    }
    cells
}

} // verus!
