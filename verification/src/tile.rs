//! The terrain tiles and the dictionary that identifies them by colour.

use vstd::prelude::*;

verus! {

/// An exact colour: red, green and blue channel.
pub type Rgb = (u8, u8, u8);

/// Number of terrain kinds, and so of dictionary entries.
pub const TILE_COUNT: usize = 15;

/// The closed set of terrain categories, in dictionary order.
#[derive(Clone, Copy, Debug, PartialEq, Eq, Structural)]
pub enum TileKind {
    Sea,
    ShallowSea,
    Plain,
    Forest,
    Mountain,
    Rock,
    Wall,
    Desert,
    Poison,
    Bridge,
    Castle,
    Town,
    Dungeon,
    Shrine,
    Stairs,
}

impl TileKind {
    /// Position of this kind in the dictionary.
    pub open spec fn spec_index(self) -> int {
        match self {
            TileKind::Sea => 0,
            TileKind::ShallowSea => 1,
            TileKind::Plain => 2,
            TileKind::Forest => 3,
            TileKind::Mountain => 4,
            TileKind::Rock => 5,
            TileKind::Wall => 6,
            TileKind::Desert => 7,
            TileKind::Poison => 8,
            TileKind::Bridge => 9,
            TileKind::Castle => 10,
            TileKind::Town => 11,
            TileKind::Dungeon => 12,
            TileKind::Shrine => 13,
            TileKind::Stairs => 14,
        }
    }

    /// Position of this kind in the dictionary.
    pub fn index(self) -> (i: usize)
        ensures
            i == self.spec_index(),
            i < TILE_COUNT,
    {
        match self {
            TileKind::Sea => 0,
            TileKind::ShallowSea => 1,
            TileKind::Plain => 2,
            TileKind::Forest => 3,
            TileKind::Mountain => 4,
            TileKind::Rock => 5,
            TileKind::Wall => 6,
            TileKind::Desert => 7,
            TileKind::Poison => 8,
            TileKind::Bridge => 9,
            TileKind::Castle => 10,
            TileKind::Town => 11,
            TileKind::Dungeon => 12,
            TileKind::Shrine => 13,
            TileKind::Stairs => 14,
        }
    }
}

/// One dictionary entry: a terrain kind with the colour that identifies it,
/// the symbol it is drawn with, and whether it can be walked on.
#[derive(Clone, Copy, Debug, PartialEq, Eq)]
pub struct TileDefinition {
    pub kind: TileKind,
    pub color: Rgb,
    pub symbol: char,
    pub walkable: bool,
}

impl TileDefinition {
    /// An entry from its four parts.
    #[verifier::allow_in_spec]
    pub fn new(kind: TileKind, color: Rgb, symbol: char, walkable: bool) -> TileDefinition
        returns
            (TileDefinition { kind, color, symbol, walkable }),
    {
        TileDefinition { kind, color, symbol, walkable }
    }
}

/// The entries of the standard dictionary, in order.
pub open spec fn standard_table() -> Seq<TileDefinition> {
    seq![
        TileDefinition::new(TileKind::Sea, (91, 119, 234), '〜', false),
        TileDefinition::new(TileKind::ShallowSea, (90, 119, 234), '波', false),
        TileDefinition::new(TileKind::Plain, (121, 195, 0), '．', true),
        TileDefinition::new(TileKind::Forest, (50, 132, 5), '木', true),
        TileDefinition::new(TileKind::Mountain, (123, 158, 23), '山', true),
        TileDefinition::new(TileKind::Rock, (109, 128, 70), '岩', false),
        TileDefinition::new(TileKind::Wall, (154, 154, 154), '壁', false),
        TileDefinition::new(TileKind::Desert, (231, 209, 119), '砂', true),
        TileDefinition::new(TileKind::Poison, (16, 45, 0), '毒', true),
        TileDefinition::new(TileKind::Bridge, (111, 117, 142), '橋', true),
        TileDefinition::new(TileKind::Castle, (117, 118, 122), '城', true),
        TileDefinition::new(TileKind::Town, (126, 127, 130), '町', true),
        TileDefinition::new(TileKind::Dungeon, (62, 75, 37), '穴', true),
        TileDefinition::new(TileKind::Shrine, (167, 87, 167), '祠', true),
        TileDefinition::new(TileKind::Stairs, (100, 109, 81), '階', true),
    ]
}

/// The fixed, ordered catalogue of tile definitions. It is built once and
/// only read afterwards.
#[derive(Debug)]
pub struct TileDictionary {
    entries: Vec<TileDefinition>,
}

impl View for TileDictionary {
    type V = Seq<TileDefinition>;

    closed spec fn view(&self) -> Seq<TileDefinition> {
        self.entries@
    }
}

impl TileDictionary {
    /// Validity of a dictionary: one entry per kind, each at the position of
    /// its kind, and no colour used twice. It holds of every `TileDictionary`.
    #[verifier::type_invariant]
    pub open spec fn wf(&self) -> bool {
        &&& self@.len() == TILE_COUNT
        &&& forall|i: int| 0 <= i < self@.len() ==> (#[trigger] self@[i]).kind.spec_index() == i
        &&& forall|i: int, j: int|
            0 <= i < j < self@.len() ==> (#[trigger] self@[i]).color != (#[trigger] self@[j]).color
    }

    /// Whether entry `i` exists and has exactly the colour `color`.
    pub open spec fn matches_at(&self, color: Rgb, i: int) -> bool {
        0 <= i < self@.len() && self@[i].color == color
    }

    /// The position of the first entry of colour `color`, if there is one.
    pub open spec fn spec_match_color(&self, color: Rgb) -> Option<usize> {
        if exists|i: int| self.matches_at(color, i) {
            Some(
                (choose|i: int|
                    self.matches_at(color, i) && forall|j: int|
                        0 <= j < i ==> !self.matches_at(color, j)) as usize,
            )
        } else {
            None
        }
    }

    /// The standard dictionary.
    pub fn standard() -> (dict: TileDictionary)
        ensures
            dict.wf(),
            dict@ == standard_table(),
    {
        let mut entries: Vec<TileDefinition> = Vec::new();
        entries.push(TileDefinition::new(TileKind::Sea, (91, 119, 234), '〜', false));
        entries.push(TileDefinition::new(TileKind::ShallowSea, (90, 119, 234), '波', false));
        entries.push(TileDefinition::new(TileKind::Plain, (121, 195, 0), '．', true));
        entries.push(TileDefinition::new(TileKind::Forest, (50, 132, 5), '木', true));
        entries.push(TileDefinition::new(TileKind::Mountain, (123, 158, 23), '山', true));
        entries.push(TileDefinition::new(TileKind::Rock, (109, 128, 70), '岩', false));
        entries.push(TileDefinition::new(TileKind::Wall, (154, 154, 154), '壁', false));
        entries.push(TileDefinition::new(TileKind::Desert, (231, 209, 119), '砂', true));
        entries.push(TileDefinition::new(TileKind::Poison, (16, 45, 0), '毒', true));
        entries.push(TileDefinition::new(TileKind::Bridge, (111, 117, 142), '橋', true));
        entries.push(TileDefinition::new(TileKind::Castle, (117, 118, 122), '城', true));
        entries.push(TileDefinition::new(TileKind::Town, (126, 127, 130), '町', true));
        entries.push(TileDefinition::new(TileKind::Dungeon, (62, 75, 37), '穴', true));
        entries.push(TileDefinition::new(TileKind::Shrine, (167, 87, 167), '祠', true));
        entries.push(TileDefinition::new(TileKind::Stairs, (100, 109, 81), '階', true));
        proof {
            lemma_standard_table_valid();
        }
        TileDictionary { entries }
    }

    /// Number of entries.
    pub fn len(&self) -> (n: usize)
        ensures
            n == self@.len(),
            n == TILE_COUNT,
    {
        proof {
            use_type_invariant(self);
        }
        self.entries.len()
    }

    /// The entry at position `index`, or `None` past the last entry.
    pub fn get(&self, index: usize) -> (entry: Option<TileDefinition>)
        ensures
            entry == (if index < self@.len() {
                Some(self@[index as int])
            } else {
                None
            }),
    {
        if index < self.entries.len() {
            Some(self.entries[index])
        } else {
            None
        }
    }

    /// Looks a colour up: the position of the entry whose colour is exactly
    /// `color`, or `None` where no entry has it.
    pub fn match_color(&self, color: Rgb) -> (found: Option<usize>)
        ensures
            found == self.spec_match_color(color),
            match found {
                Some(i) => self.matches_at(color, i as int) && forall|j: int|
                    0 <= j < i ==> !self.matches_at(color, j),
                None => forall|j: int| !self.matches_at(color, j),
            },
    {
        let mut n: usize = 0;
        while n < self.entries.len()
            invariant
                n <= self.entries.len(),
                forall|j: int| 0 <= j < n ==> !self.matches_at(color, j),
            decreases self.entries.len() - n,
        {
            let entry = &self.entries[n];
            if entry.color.0 == color.0 && entry.color.1 == color.1 && entry.color.2 == color.2 {
                assert(self.matches_at(color, n as int));
                return Some(n);
            }
            n += 1;
        }
        None
    }
}

/// No two entries of a dictionary have the same colour.
pub proof fn lemma_colors_distinct(dict: TileDictionary, i: int, j: int)
    requires
        dict.wf(),
        0 <= i < dict@.len(),
        0 <= j < dict@.len(),
        i != j,
    ensures
        dict@[i].color != dict@[j].color,
        dict@[i] != dict@[j],
{
}

/// Looking up the colour of an entry finds that entry, and no other.
pub proof fn lemma_match_finds_entry(dict: TileDictionary, i: int)
    requires
        dict.wf(),
        0 <= i < dict@.len(),
    ensures
        dict.spec_match_color(dict@[i].color) == Some(i as usize),
{
    assert(dict.matches_at(dict@[i].color, i));
}

/// Looking up a colour that no entry has finds nothing.
pub proof fn lemma_no_match(dict: TileDictionary, color: Rgb)
    requires
        forall|i: int| 0 <= i < dict@.len() ==> (#[trigger] dict@[i]).color != color,
    ensures
        dict.spec_match_color(color) is None,
{
}

/// The standard table has one entry per kind, each at the position of its
/// kind, and its colours are pairwise distinct.
pub proof fn lemma_standard_table_valid()
    ensures
        standard_table().len() == TILE_COUNT,
        forall|i: int|
            0 <= i < standard_table().len() ==> (#[trigger] standard_table()[i]).kind.spec_index()
                == i,
        forall|i: int, j: int|
            0 <= i < j < standard_table().len() ==> (#[trigger] standard_table()[i]).color
                != (#[trigger] standard_table()[j]).color,
{
}

} // verus!
