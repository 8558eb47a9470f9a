use vstd::prelude::*;
use std::collections::HashMap;
use crate::map::{spec_xy_to_idx, xy_to_idx_given_width, TileMap};
use crate::text::{parse_unsigned, parse_unsigned_bounded};

verus! {

/// The settings a new world is generated from.
pub struct WorldConfig {
    pub world_name: String,
    pub width: usize,
    pub height: usize,
    pub sea_level: u8,
    pub seed: u64,
}

impl Default for WorldConfig {
    /// An unnamed world of 100 by 100 chunks, the sea at 13% of the height range (33 of 255),
    /// seed 0.
    fn default() -> (c: Self)
        ensures
            c.world_name@.len() == 0,
            c.width == 100,
            c.height == 100,
            c.sea_level == 33,
            c.seed == 0,
    {
        Self { world_name: String::new(), width: 100, height: 100, sea_level: 33, seed: 0 }
    }
}

/// The new game form as the player typed it.
pub struct InputWorldConfig {
    pub world_name: String,
    pub width: String,
    pub height: String,
    pub sea_level: String,
    pub seed: String,
}

/// The entries of the new game form.
#[derive(Debug, Copy, Clone, PartialEq, Eq, Structural)]
pub enum NewGameMenuSelection {
    WorldName,
    Width,
    Height,
    Seed,
    Finalize,
}

/// The 64 bit hash that `std`'s `DefaultHasher` gives a text. (The standard library promises
/// that every `DefaultHasher::new()` starts alike, so within one build of the program the hash
/// depends on the text alone; the algorithm itself is not written out here.)
pub uninterp spec fn text_hash(s: Seq<char>) -> u64;

/// `BuildHasher::hash_one` with a `DefaultHasher`, which hashes the text into a new
/// `DefaultHasher` and finishes it: the result is named `text_hash`.
#[verifier::external_body]
fn hash_text(s: &String) -> (h: u64)
    ensures
        h == text_hash(s@),
{
    std::hash::BuildHasher::hash_one(&std::hash::BuildHasherDefault::<std::hash::DefaultHasher>::default(), s)
}

pub open spec fn empty_name_text() -> Seq<char> { "World name cannot be empty"@ }
pub open spec fn name_taken_text() -> Seq<char> { "World name already exists"@ }
pub open spec fn bad_sea_level_text() -> Seq<char> { "Invalid sea_level must be 0 - 255"@ }
pub open spec fn bad_height_text() -> Seq<char> { "Invalid height"@ }
pub open spec fn bad_width_text() -> Seq<char> { "Invalid width"@ }

/// The errors of the form, in order: an empty name, a name whose save game exists
/// (`name_taken`), a sea level that is no number from 0 to 255, a height or a width that is no
/// number.
pub open spec fn form_errors(iwc: InputWorldConfig, name_taken: bool) -> Seq<Seq<char>> {
    let e1: Seq<Seq<char>> = if iwc.world_name@.len() == 0 { seq![empty_name_text()] } else { Seq::empty() };
    let e2 = if name_taken { e1.push(name_taken_text()) } else { e1 };
    let e3 = if parse_unsigned(iwc.sea_level@, 255) is None { e2.push(bad_sea_level_text()) } else { e2 };
    let e4 = if parse_unsigned(iwc.height@, usize::MAX as nat) is None { e3.push(bad_height_text()) } else { e3 };
    if parse_unsigned(iwc.width@, usize::MAX as nat) is None { e4.push(bad_width_text()) } else { e4 }
}

/// The texts of a list as values.
pub open spec fn texts(v: Seq<String>) -> Seq<Seq<char>> {
    v.map_values(|s: String| s@)
}

impl WorldConfig {
    /// The world config of the form: the numbers read from their text, the seed the hash of
    /// its text (zero when empty); or the form's errors, in order (`form_errors`).
    /// `name_taken` says whether a save game of the world's name exists.
    pub fn try_from(iwc: &InputWorldConfig, name_taken: bool) -> (r: Result<Self, Vec<String>>)
        ensures
            match r {
                Ok(c) => {
                    &&& form_errors(*iwc, name_taken).len() == 0
                    &&& c.world_name@ == iwc.world_name@
                    &&& c.sea_level == parse_unsigned(iwc.sea_level@, 255)->0
                    &&& c.height == parse_unsigned(iwc.height@, usize::MAX as nat)->0
                    &&& c.width == parse_unsigned(iwc.width@, usize::MAX as nat)->0
                    &&& c.seed == if iwc.seed@.len() == 0 { 0 } else { text_hash(iwc.seed@) }
                },
                Err(errs) => form_errors(*iwc, name_taken).len() > 0 && texts(errs@) == form_errors(*iwc, name_taken),
            },
    {
        let mut errors: Vec<String> = Vec::new();
        proof {
            reveal_strlit("World name cannot be empty");
            reveal_strlit("World name already exists");
            reveal_strlit("Invalid sea_level must be 0 - 255");
            reveal_strlit("Invalid height");
            reveal_strlit("Invalid width");
        }
        if iwc.world_name.unicode_len() == 0 {
            errors.push(String::from_str("World name cannot be empty"));
        }
        if name_taken {
            errors.push(String::from_str("World name already exists"));
        }
        let sea_level: u8 = match parse_unsigned_bounded(iwc.sea_level.as_str(), 255) {
            Some(h) => h as u8,
            None => {
                errors.push(String::from_str("Invalid sea_level must be 0 - 255"));
                0
            },
        };
        let height: usize = match parse_unsigned_bounded(iwc.height.as_str(), usize::MAX as u64) {
            Some(h) => h as usize,
            None => {
                errors.push(String::from_str("Invalid height"));
                0
            },
        };
        let width: usize = match parse_unsigned_bounded(iwc.width.as_str(), usize::MAX as u64) {
            Some(w) => w as usize,
            None => {
                errors.push(String::from_str("Invalid width"));
                0
            },
        };
        let seed: u64 = if iwc.seed.unicode_len() == 0 { 0 } else { hash_text(&iwc.seed) };
        assert(texts(errors@) =~= form_errors(*iwc, name_taken));
        if errors.len() > 0 {
            return Err(errors);
        }
        Ok(Self { world_name: iwc.world_name.clone(), width, height, seed, sea_level })
    }
}

/// What a chunk of the world is.
#[derive(Debug, Copy, Clone, PartialEq, Eq, Structural)]
pub enum ChunkType {
    Land,
    Water,
}

impl Default for ChunkType {
    fn default() -> (c: Self)
        ensures
            c == ChunkType::Water,
    {
        ChunkType::Water
    }
}

/// One chunk of the world.
#[derive(Debug, Copy, Clone, PartialEq, Eq, Structural)]
pub struct WorldChunk {
    pub chunk_type: ChunkType,
}

impl Default for WorldChunk {
    fn default() -> (c: Self)
        ensures
            c.chunk_type == ChunkType::Water,
    {
        WorldChunk { chunk_type: ChunkType::default() }
    }
}

/// The world: a grid of chunks, the levels made so far (by chunk index), and its config.
pub struct GameWorld {
    pub width: usize,
    pub height: usize,
    pub grid: Vec<WorldChunk>,
    pub generated: HashMap<usize, TileMap>,
    pub world_config: WorldConfig,
}

impl GameWorld {
    /// A world of the config's size, all water, no level made yet.
    pub fn new(wc: WorldConfig) -> (g: Self)
        requires
            wc.width * wc.height <= usize::MAX,
        ensures
            g.width == wc.width,
            g.height == wc.height,
            g.grid@.len() == wc.width * wc.height,
            forall|i: int| 0 <= i < g.grid@.len() ==> (#[trigger] g.grid@[i]).chunk_type == ChunkType::Water,
            g.generated@ == Map::<usize, TileMap>::empty(),
            g.world_config == wc,
    {
        let n = wc.width * wc.height;
        let mut grid: Vec<WorldChunk> = Vec::new();
        let mut i: usize = 0;
        while i < n
            invariant
                i <= n,
                grid@.len() == i,
                forall|k: int| 0 <= k < i ==> (#[trigger] grid@[k]).chunk_type == ChunkType::Water,
            decreases n - i,
        {
            grid.push(WorldChunk::default());
            i = i + 1;
        }
        Self { width: wc.width, height: wc.height, grid, generated: HashMap::new(), world_config: wc }
    }
}

/// The index of chunk `(x, y)` when it is of type `chunk_type`. (A random chunk of a type is
/// found by drawing chunks until one is.)
pub fn chunk_if(gw: &GameWorld, x: usize, y: usize, chunk_type: ChunkType) -> (r: Option<usize>)
    requires
        x < gw.width,
        y < gw.height,
        gw.grid@.len() == gw.width * gw.height,
    ensures
        ({
            let idx = spec_xy_to_idx(x as int, y as int, gw.width as int);
            if gw.grid@[idx].chunk_type == chunk_type { r == Some(idx as usize) } else { r is None }
        }),
{
    let n = gw.grid.len();
    proof {
        let w = gw.width as int;
        let h = gw.height as int;
        assert(0 <= x + y * w < w * h) by (nonlinear_arith)
            requires
                0 <= x < w,
                0 <= y < h;
    }
    let idx = xy_to_idx_given_width(x, y, gw.width);
    if gw.grid[idx].chunk_type == chunk_type {
        Some(idx)
    } else {
        None
    }
}

} // verus!
