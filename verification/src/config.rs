use vstd::prelude::*;

verus! {

/// Contains all configs for various game things
/// Note - For now it resides on the `State` variable since we shouldn't have systems modifying it as that
/// involves checking if the player is the entity in the system.
pub struct ConfigMaster {
    pub inventory: InventoryConfig,
}

impl Default for ConfigMaster {
    fn default() -> (c: Self)
        ensures
            c.inventory.sort_mode == SortMode::NameABC,
    {
        Self { inventory: InventoryConfig { sort_mode: SortMode::NameABC } }
    }
}

/// How the inventory is shown.
pub struct InventoryConfig {
    pub sort_mode: SortMode,
}

/// The order the items of the inventory are listed in.
#[derive(Debug, Copy, Clone, PartialEq, Eq, Structural)]
pub enum SortMode {
    NameABC,
    _NameZYX,
    IDAsc,
    _IDDesc,
    _Category,
}

/// The short name of a sort mode.
pub open spec fn sort_mode_text(m: SortMode) -> Seq<char> {
    match m {
        SortMode::NameABC => "ABC"@,
        SortMode::IDAsc => "ID+"@,
        _ => "UNK"@,
    }
}

impl SortMode {
    /// Limited to 3 characters for nice formatting
    pub fn to_string(&self) -> (s: String)
        ensures
            s@ == sort_mode_text(*self),
    {
        proof { reveal_strlit("ABC"); reveal_strlit("ID+"); reveal_strlit("UNK"); }
        match self {
            SortMode::NameABC => String::from_str("ABC"),
            SortMode::IDAsc => String::from_str("ID+"),
            _ => String::from_str("UNK"),
        }
    }
}

/// The sort mode after the next one is chosen: by name and by id take turns; any other goes to
/// by name.
pub open spec fn next_sort_mode(m: SortMode) -> SortMode {
    match m {
        SortMode::NameABC => SortMode::IDAsc,
        SortMode::IDAsc => SortMode::NameABC,
        _ => SortMode::NameABC,
    }
}

impl InventoryConfig {
    pub fn rotate_sort_mode(&mut self)
        ensures
            final(self).sort_mode == next_sort_mode(old(self).sort_mode),
    {
        self.sort_mode = match self.sort_mode {
            SortMode::NameABC => SortMode::IDAsc,
            SortMode::IDAsc => SortMode::NameABC,
            _ => SortMode::NameABC,
        };
    }
}

/// Rotating twice from sorting by name or by id comes back to it.
pub proof fn lemma_rotate_twice(m: SortMode)
    requires
        m == SortMode::NameABC || m == SortMode::IDAsc,
    ensures
        next_sort_mode(next_sort_mode(m)) == m,
{
}

} // verus!
