use vstd::prelude::*;
use crate::components::{slot_named, AttackBonus, Equipable};
use crate::items::{find_info_by_id, find_info_by_name, info_by_id, info_by_name, ItemID, ItemInfo};
use crate::search::lemma_first_index;

verus! {

broadcast use lemma_first_index;

/// The static data of all item kinds.
pub struct ItemDatabase {
    pub data: Vec<ItemInfo>,
}

/// The item data as read from the data file.
pub struct RawItemDatabase {
    pub data: Vec<RawItemInfo>,
}

/// One item kind as read from the data file.
pub struct RawItemInfo {
    /// Unique id to find the item's static data
    pub identifier: ItemID,
    pub name: String,
    pub examine_text: String,
    pub atlas_index: u8,
    pub fg: (u8, u8, u8),
    pub pickup_text: Option<String>,
    pub equipable: Option<String>,
    pub attack_bonus: Option<usize>,
}

/// The item data that a raw entry gives: the same fields, the slot name read as an equipable
/// and the bonus as an attack bonus.
pub open spec fn info_matches(info: ItemInfo, raw: RawItemInfo) -> bool {
    &&& info.identifier == raw.identifier
    &&& info.name == raw.name
    &&& info.examine_text == raw.examine_text
    &&& info.atlas_index == raw.atlas_index
    &&& info.fg == raw.fg
    &&& info.pickup_text == raw.pickup_text
    &&& info.equipable == match raw.equipable {
        Some(e) => Some(Equipable { slot: slot_named(e@) }),
        None => None::<Equipable>,
    }
    &&& info.attack_bonus == match raw.attack_bonus {
        Some(b) => Some(AttackBonus(b as i32)),
        None => None::<AttackBonus>,
    }
}

impl ItemInfo {
    pub fn from(value: &RawItemInfo) -> (info: Self)
        ensures
            info_matches(info, *value),
    {
        let equipable = match &value.equipable {
            Some(e) => Some(Equipable::from_str(e.as_str())),
            None => None,
        };
        let attack_bonus = match value.attack_bonus {
            Some(bonus) => Some(AttackBonus(bonus as i32)),
            None => None,
        };
        Self {
            identifier: value.identifier,
            name: value.name.clone(),
            examine_text: value.examine_text.clone(),
            atlas_index: value.atlas_index,
            fg: value.fg,
            pickup_text: crate::text::clone_opt_string(&value.pickup_text),
            equipable,
            attack_bonus,
        }
    }
}

impl ItemDatabase {
    pub fn empty() -> (db: Self)
        ensures
            db.data@.len() == 0,
    {
        Self { data: Vec::new() }
    }

    /// The database of the raw item data, entry by entry.
    pub fn from_raw(raw: &RawItemDatabase) -> (db: Self)
        ensures
            db.data@.len() == raw.data@.len(),
            forall|i: int| 0 <= i < raw.data@.len() ==> info_matches(#[trigger] db.data@[i], raw.data@[i]),
    {
        let mut data: Vec<ItemInfo> = Vec::new();
        let mut i: usize = 0;
        while i < raw.data.len()
            invariant
                i <= raw.data@.len(),
                data@.len() == i,
                forall|k: int| 0 <= k < i ==> info_matches(#[trigger] data@[k], raw.data@[k]),
            decreases raw.data@.len() - i,
        {
            data.push(ItemInfo::from(&raw.data[i]));
            i = i + 1;
        }
        Self { data }
    }

    /// The first item kind named `name`.
    pub fn get_by_name(&self, name: &str) -> (r: Option<&ItemInfo>)
        ensures
            r == match info_by_name(self.data@, name@) {
                Some(k) => Some(&self.data@[k]),
                None => None::<&ItemInfo>,
            },
    {
        match find_info_by_name(&self.data, name) {
            Some(k) => Some(&self.data[k]),
            None => None,
        }
    }

    /// Gets the entity by name without ensuring it exists.
    /// This could by panic but can be used when certain a name would exist for an item.
    pub fn get_by_name_unchecked(&self, name: &String) -> (r: &ItemInfo)
        requires
            info_by_name(self.data@, name@) is Some,
        ensures
            *r == self.data@[info_by_name(self.data@, name@)->0],
    {
        self.get_by_name(name.as_str()).unwrap()
    }

    /// The first item kind with identifier `id`.
    pub fn get_by_id(&self, id: ItemID) -> (r: Option<&ItemInfo>)
        ensures
            r == match info_by_id(self.data@, id) {
                Some(k) => Some(&self.data@[k]),
                None => None::<&ItemInfo>,
            },
    {
        match find_info_by_id(&self.data, id) {
            Some(k) => Some(&self.data[k]),
            None => None,
        }
    }
}

} // verus!
