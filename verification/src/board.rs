//! The hexagonal board: cube coordinates, tiles, harbors, roll tokens, and
//! the standard board layouts.
//!
//! Tile positions use cube coordinates, three integers summing to zero. Tile
//! centers sit two steps apart; the six neighbors of a tile hold its corner
//! buildings.

use rand::RngExt;
use vstd::prelude::*;

use crate::common::GameResource;
use crate::game::ResourceType;

verus! {

/// The magnitude of an integer.
pub open spec fn abs_val(v: int) -> int {
    if v < 0 {
        -v
    } else {
        v
    }
}

/// A position on the board, in cube coordinates: three components that sum
/// to zero.
#[derive(PartialEq, Eq, Hash, Clone, Copy, Debug, Structural)]
pub struct InternalCoord {
    pub x: i32,
    pub y: i32,
    pub z: i32,
}

/// The grid distance between two positions: the sum of the component
/// differences' magnitudes.
pub open spec fn coord_distance(a: InternalCoord, b: InternalCoord) -> int {
    abs_val(a.x - b.x) + abs_val(a.y - b.y) + abs_val(a.z - b.z)
}

/// Far enough from the numeric edge that a position's neighbors exist: two
/// steps inside the 32-bit range on every axis.
pub open spec fn coord_in_range(c: InternalCoord) -> bool {
    c.x + 2 <= i32::MAX && c.x - 2 >= i32::MIN && c.y + 2 <= i32::MAX && c.y - 2 >= i32::MIN
        && c.z + 2 <= i32::MAX && c.z - 2 >= i32::MIN
}

/// The six positions adjacent to `c`.
pub open spec fn spec_neighbors(c: InternalCoord) -> Seq<InternalCoord>
    recommends
        coord_in_range(c),
{
    seq![
        InternalCoord { x: (c.x + 1) as i32, y: (c.y - 1) as i32, z: c.z },
        InternalCoord { x: (c.x + 1) as i32, y: c.y, z: (c.z - 1) as i32 },
        InternalCoord { x: c.x, y: (c.y + 1) as i32, z: (c.z - 1) as i32 },
        InternalCoord { x: (c.x - 1) as i32, y: (c.y + 1) as i32, z: c.z },
        InternalCoord { x: (c.x - 1) as i32, y: c.y, z: (c.z + 1) as i32 },
        InternalCoord { x: c.x, y: (c.y - 1) as i32, z: (c.z + 1) as i32 },
    ]
}

/// The six positions diagonally across from `c`.
pub open spec fn spec_diagonal_neighbors(c: InternalCoord) -> Seq<InternalCoord>
    recommends
        coord_in_range(c),
{
    seq![
        InternalCoord { x: (c.x + 2) as i32, y: (c.y - 1) as i32, z: (c.z - 1) as i32 },
        InternalCoord { x: (c.x + 1) as i32, y: (c.y + 1) as i32, z: (c.z - 2) as i32 },
        InternalCoord { x: (c.x - 1) as i32, y: (c.y + 2) as i32, z: (c.z - 1) as i32 },
        InternalCoord { x: (c.x - 2) as i32, y: (c.y + 1) as i32, z: (c.z + 1) as i32 },
        InternalCoord { x: (c.x - 1) as i32, y: (c.y - 1) as i32, z: (c.z + 2) as i32 },
        InternalCoord { x: (c.x + 1) as i32, y: (c.y - 2) as i32, z: (c.z + 1) as i32 },
    ]
}

impl InternalCoord {
    /// The components sum to zero.
    pub open spec fn wf(self) -> bool {
        self.x + self.y + self.z == 0
    }

    /// A position from components that sum to zero.
    pub fn new(x: i32, y: i32, z: i32) -> (c: InternalCoord)
        requires
            x + y + z == 0,
        ensures
            c == (InternalCoord { x, y, z }),
            c.wf(),
    {
        InternalCoord { x, y, z }
    }

    /// Whether `other` is one of this position's six neighbors: exactly the
    /// positions at grid distance two.
    pub fn adjacent(&self, other: &InternalCoord) -> (r: bool)
        ensures
            r == (coord_distance(*self, *other) == 2),
    {
        let dx: i64 = self.x as i64 - other.x as i64;
        let dy: i64 = self.y as i64 - other.y as i64;
        let dz: i64 = self.z as i64 - other.z as i64;
        let ax: i64 = if dx < 0 {
            -dx
        } else {
            dx
        };
        let ay: i64 = if dy < 0 {
            -dy
        } else {
            dy
        };
        let az: i64 = if dz < 0 {
            -dz
        } else {
            dz
        };
        ax + ay + az == 2
    }

    /// The six neighboring positions, each at grid distance two, all summing
    /// to zero when this position does.
    pub fn neighbors(&self) -> (r: Vec<InternalCoord>)
        requires
            coord_in_range(*self),
        ensures
            r@ == spec_neighbors(*self),
            forall|j: int| 0 <= j < r@.len() ==> coord_distance(*self, r@[j]) == 2,
            self.wf() ==> forall|j: int| 0 <= j < r@.len() ==> (#[trigger] r@[j]).wf(),
    {
        let mut r: Vec<InternalCoord> = Vec::new();
        r.push(InternalCoord { x: self.x + 1, y: self.y - 1, z: self.z });
        r.push(InternalCoord { x: self.x + 1, y: self.y, z: self.z - 1 });
        r.push(InternalCoord { x: self.x, y: self.y + 1, z: self.z - 1 });
        r.push(InternalCoord { x: self.x - 1, y: self.y + 1, z: self.z });
        r.push(InternalCoord { x: self.x - 1, y: self.y, z: self.z + 1 });
        r.push(InternalCoord { x: self.x, y: self.y - 1, z: self.z + 1 });
        proof {
            assert(r@ =~= spec_neighbors(*self));
            assert forall|j: int| 0 <= j < r@.len() implies coord_distance(*self, r@[j]) == 2 by {
                if j == 0 || j == 1 || j == 2 || j == 3 || j == 4 || j == 5 {
                }
            }
        }
        r
    }

    /// The six diagonal positions, each at grid distance four.
    pub fn diagonal_neighbors(&self) -> (r: Vec<InternalCoord>)
        requires
            coord_in_range(*self),
        ensures
            r@ == spec_diagonal_neighbors(*self),
            forall|j: int| 0 <= j < r@.len() ==> coord_distance(*self, r@[j]) == 4,
    {
        let mut r: Vec<InternalCoord> = Vec::new();
        r.push(InternalCoord { x: self.x + 2, y: self.y - 1, z: self.z - 1 });
        r.push(InternalCoord { x: self.x + 1, y: self.y + 1, z: self.z - 2 });
        r.push(InternalCoord { x: self.x - 1, y: self.y + 2, z: self.z - 1 });
        r.push(InternalCoord { x: self.x - 2, y: self.y + 1, z: self.z + 1 });
        r.push(InternalCoord { x: self.x - 1, y: self.y - 1, z: self.z + 2 });
        r.push(InternalCoord { x: self.x + 1, y: self.y - 2, z: self.z + 1 });
        proof {
            assert(r@ =~= spec_diagonal_neighbors(*self));
            assert forall|j: int| 0 <= j < r@.len() implies coord_distance(*self, r@[j]) == 4 by {
                if j == 0 || j == 1 || j == 2 || j == 3 || j == 4 || j == 5 {
                }
            }
        }
        r
    }
}

/// The kinds of harbor a coastal building tile can carry.
#[derive(Debug, PartialEq, Eq, Hash, Clone, Copy, Structural)]
pub enum HarborType {
    All,
    Ore,
    Brick,
    Wool,
    Grain,
    Lumber,
}

impl HarborType {
    /// The resource this harbor trades at its better rate, if it names one.
    pub fn into_resource_type(&self) -> (r: Option<ResourceType>)
        ensures
            r == match *self {
                HarborType::All => None::<ResourceType>,
                HarborType::Brick => Some(ResourceType::Brick),
                HarborType::Grain => Some(ResourceType::Grain),
                HarborType::Lumber => Some(ResourceType::Lumber),
                HarborType::Ore => Some(ResourceType::Ore),
                HarborType::Wool => Some(ResourceType::Wool),
            },
    {
        match *self {
            HarborType::All => None,
            HarborType::Brick => Some(ResourceType::Brick),
            HarborType::Grain => Some(ResourceType::Grain),
            HarborType::Lumber => Some(ResourceType::Lumber),
            HarborType::Ore => Some(ResourceType::Ore),
            HarborType::Wool => Some(ResourceType::Wool),
        }
    }
}

impl GameResource for HarborType {
    open spec fn spec_count(self) -> usize {
        match self {
            HarborType::All => 4,
            _ => 1,
        }
    }

    open spec fn spec_all_variants() -> Seq<HarborType> {
        seq![
            HarborType::All,
            HarborType::Ore,
            HarborType::Brick,
            HarborType::Wool,
            HarborType::Grain,
            HarborType::Lumber,
        ]
    }

    fn count(self) -> (r: usize) {
        match self {
            HarborType::All => 4,
            _ => 1,
        }
    }

    fn all_variants() -> (r: Vec<HarborType>) {
        let mut v: Vec<HarborType> = Vec::new();
        v.push(HarborType::All);
        v.push(HarborType::Ore);
        v.push(HarborType::Brick);
        v.push(HarborType::Wool);
        v.push(HarborType::Grain);
        v.push(HarborType::Lumber);
        proof {
            assert(v@ =~= Self::spec_all_variants());
        }
        v
    }
}

/// The buildable pieces, as the board sees them.
#[derive(Debug, PartialEq, Eq, Hash, Clone, Copy, Structural)]
pub enum BuildingType {
    Settlement,
    City,
    Road,
}

impl GameResource for BuildingType {
    open spec fn spec_count(self) -> usize {
        match self {
            BuildingType::Settlement => 5,
            BuildingType::City => 4,
            BuildingType::Road => 15,
        }
    }

    open spec fn spec_all_variants() -> Seq<BuildingType> {
        seq![BuildingType::Settlement, BuildingType::City, BuildingType::Road]
    }

    fn count(self) -> (r: usize) {
        match self {
            BuildingType::Settlement => 5,
            BuildingType::City => 4,
            BuildingType::Road => 15,
        }
    }

    fn all_variants() -> (r: Vec<BuildingType>) {
        let mut v: Vec<BuildingType> = Vec::new();
        v.push(BuildingType::Settlement);
        v.push(BuildingType::City);
        v.push(BuildingType::Road);
        proof {
            assert(v@ =~= Self::spec_all_variants());
        }
        v
    }
}

/// What a building tile holds: possibly a player's building, and possibly a
/// harbor.
#[derive(Debug, PartialEq, Eq, Hash, Clone, Copy)]
pub struct BuildingTileContainer {
    pub building: Option<(crate::game::PlayerColor, BuildingType)>,
    pub harbor_type: Option<HarborType>,
}

/// The resource landscapes a tile can show.
#[derive(Debug, PartialEq, Eq, Hash, Clone, Copy, Structural)]
pub enum ResourceTileType {
    Mountains,
    Hills,
    Pasture,
    Fields,
    Forest,
    Desert,
}

impl ResourceTileType {
    /// The resource this landscape produces, if any.
    pub open spec fn spec_resource(self) -> Option<ResourceType> {
        match self {
            ResourceTileType::Mountains => Some(ResourceType::Ore),
            ResourceTileType::Hills => Some(ResourceType::Brick),
            ResourceTileType::Pasture => Some(ResourceType::Wool),
            ResourceTileType::Fields => Some(ResourceType::Grain),
            ResourceTileType::Forest => Some(ResourceType::Lumber),
            ResourceTileType::Desert => None,
        }
    }

    /// The resource this landscape produces, if any.
    pub fn into_resource_type(self) -> (r: Option<ResourceType>)
        ensures
            r == self.spec_resource(),
    {
        match self {
            ResourceTileType::Mountains => Some(ResourceType::Ore),
            ResourceTileType::Hills => Some(ResourceType::Brick),
            ResourceTileType::Pasture => Some(ResourceType::Wool),
            ResourceTileType::Fields => Some(ResourceType::Grain),
            ResourceTileType::Forest => Some(ResourceType::Lumber),
            ResourceTileType::Desert => None,
        }
    }

    /// The resource this landscape produces, if any.
    pub fn resource(self) -> (r: Option<ResourceType>)
        ensures
            r == self.spec_resource(),
    {
        self.into_resource_type()
    }
}

impl GameResource for ResourceTileType {
    open spec fn spec_count(self) -> usize {
        match self {
            ResourceTileType::Mountains => 3,
            ResourceTileType::Hills => 3,
            ResourceTileType::Pasture => 4,
            ResourceTileType::Fields => 4,
            ResourceTileType::Forest => 4,
            ResourceTileType::Desert => 1,
        }
    }

    open spec fn spec_all_variants() -> Seq<ResourceTileType> {
        seq![
            ResourceTileType::Mountains,
            ResourceTileType::Hills,
            ResourceTileType::Pasture,
            ResourceTileType::Fields,
            ResourceTileType::Forest,
            ResourceTileType::Desert,
        ]
    }

    fn count(self) -> (r: usize) {
        match self {
            ResourceTileType::Mountains => 3,
            ResourceTileType::Hills => 3,
            ResourceTileType::Pasture => 4,
            ResourceTileType::Fields => 4,
            ResourceTileType::Forest => 4,
            ResourceTileType::Desert => 1,
        }
    }

    fn all_variants() -> (r: Vec<ResourceTileType>) {
        let mut v: Vec<ResourceTileType> = Vec::new();
        v.push(ResourceTileType::Mountains);
        v.push(ResourceTileType::Hills);
        v.push(ResourceTileType::Pasture);
        v.push(ResourceTileType::Fields);
        v.push(ResourceTileType::Forest);
        v.push(ResourceTileType::Desert);
        proof {
            assert(v@ =~= Self::spec_all_variants());
        }
        v
    }
}

/// What a board position holds: a corner building tile, or a resource tile.
#[derive(Debug, PartialEq, Eq, Hash, Clone, Copy)]
pub enum InternalTileType {
    BuildingTile(BuildingTileContainer),
    ResourceTile(ResourceTileType),
}

/// The numbered tokens rolled dice can match.
#[derive(Debug, PartialEq, Eq, Hash, Clone, Copy, Structural)]
pub enum RollToken {
    Two,
    Three,
    Four,
    Five,
    Six,
    Seven,
    Eight,
    Nine,
    Ten,
    Eleven,
    Twelve,
}

impl RollToken {
    /// The number a token shows.
    pub open spec fn spec_value(self) -> u32 {
        match self {
            RollToken::Two => 2,
            RollToken::Three => 3,
            RollToken::Four => 4,
            RollToken::Five => 5,
            RollToken::Six => 6,
            RollToken::Seven => 7,
            RollToken::Eight => 8,
            RollToken::Nine => 9,
            RollToken::Ten => 10,
            RollToken::Eleven => 11,
            RollToken::Twelve => 12,
        }
    }

    /// The token showing `value`, for the values two dice can roll.
    pub fn new(value: u32) -> (r: RollToken)
        requires
            2 <= value <= 12,
        ensures
            r.spec_value() == value,
    {
        match value {
            2 => RollToken::Two,
            3 => RollToken::Three,
            4 => RollToken::Four,
            5 => RollToken::Five,
            6 => RollToken::Six,
            7 => RollToken::Seven,
            8 => RollToken::Eight,
            9 => RollToken::Nine,
            10 => RollToken::Ten,
            11 => RollToken::Eleven,
            _ => RollToken::Twelve,
        }
    }

    /// The number this token shows.
    pub fn value(self) -> (r: u32)
        ensures
            r == self.spec_value(),
    {
        match self {
            RollToken::Two => 2,
            RollToken::Three => 3,
            RollToken::Four => 4,
            RollToken::Five => 5,
            RollToken::Six => 6,
            RollToken::Seven => 7,
            RollToken::Eight => 8,
            RollToken::Nine => 9,
            RollToken::Ten => 10,
            RollToken::Eleven => 11,
            RollToken::Twelve => 12,
        }
    }

    /// Whether this token is rolled most often: a six or an eight.
    pub fn high_prob(&self) -> (r: bool)
        ensures
            r == (*self == RollToken::Six || *self == RollToken::Eight),
    {
        match self {
            RollToken::Six | RollToken::Eight => true,
            _ => false,
        }
    }
}

impl GameResource for RollToken {
    open spec fn spec_count(self) -> usize {
        match self {
            RollToken::Two => 1,
            RollToken::Seven => 0,
            RollToken::Twelve => 1,
            _ => 2,
        }
    }

    open spec fn spec_all_variants() -> Seq<RollToken> {
        seq![
            RollToken::Two,
            RollToken::Three,
            RollToken::Four,
            RollToken::Five,
            RollToken::Six,
            RollToken::Seven,
            RollToken::Eight,
            RollToken::Nine,
            RollToken::Ten,
            RollToken::Eleven,
            RollToken::Twelve,
        ]
    }

    fn count(self) -> (r: usize) {
        match self {
            RollToken::Two => 1,
            RollToken::Seven => 0,
            RollToken::Twelve => 1,
            _ => 2,
        }
    }

    fn all_variants() -> (r: Vec<RollToken>) {
        let mut v: Vec<RollToken> = Vec::new();
        v.push(RollToken::Two);
        v.push(RollToken::Three);
        v.push(RollToken::Four);
        v.push(RollToken::Five);
        v.push(RollToken::Six);
        v.push(RollToken::Seven);
        v.push(RollToken::Eight);
        v.push(RollToken::Nine);
        v.push(RollToken::Ten);
        v.push(RollToken::Eleven);
        v.push(RollToken::Twelve);
        proof {
            assert(v@ =~= Self::spec_all_variants());
        }
        v
    }
}

/// Positions in an association list are pairwise distinct.
pub open spec fn ckeys_unique<V>(s: Seq<(InternalCoord, V)>) -> bool {
    forall|i: int, j: int| 0 <= i < j < s.len() ==> s[i].0 != s[j].0
}

/// The map a position-keyed association list denotes.
pub open spec fn cmap<V>(s: Seq<(InternalCoord, V)>) -> Map<InternalCoord, V>
    decreases s.len(),
{
    if s.len() == 0 {
        Map::empty()
    } else {
        cmap(s.drop_last()).insert(s.last().0, s.last().1)
    }
}

/// The entry at index `i` of a key-unique association list is the map's
/// binding for its position.
proof fn clemma_found<V>(s: Seq<(InternalCoord, V)>, i: int)
    requires
        ckeys_unique(s),
        0 <= i < s.len(),
    ensures
        cmap(s).contains_key(s[i].0),
        cmap(s)[s[i].0] == s[i].1,
    decreases s.len(),
{
    if i < s.len() - 1 {
        clemma_found(s.drop_last(), i);
    }
}

/// A position under no entry is not in the map.
proof fn clemma_absent<V>(s: Seq<(InternalCoord, V)>, k: InternalCoord)
    requires
        forall|i: int| 0 <= i < s.len() ==> s[i].0 != k,
    ensures
        !cmap(s).contains_key(k),
    decreases s.len(),
{
    if s.len() > 0 {
        clemma_absent(s.drop_last(), k);
    }
}

/// Appending an entry inserts its binding.
proof fn clemma_push<V>(s: Seq<(InternalCoord, V)>, k: InternalCoord, v: V)
    ensures
        cmap(s.push((k, v))) == cmap(s).insert(k, v),
{
    assert(s.push((k, v)).drop_last() =~= s);
}

/// Replacing the value at index `i` of a key-unique association list inserts
/// the new binding for that entry's position.
proof fn clemma_update<V>(s: Seq<(InternalCoord, V)>, i: int, v: V)
    requires
        ckeys_unique(s),
        0 <= i < s.len(),
    ensures
        cmap(s.update(i, (s[i].0, v))) == cmap(s).insert(s[i].0, v),
    decreases s.len(),
{
    let t = s.update(i, (s[i].0, v));
    if i == s.len() - 1 {
        assert(t.drop_last() =~= s.drop_last());
        assert(cmap(t) =~= cmap(s).insert(s[i].0, v));
    } else {
        assert(t.drop_last() =~= s.drop_last().update(i, (s[i].0, v)));
        clemma_update(s.drop_last(), i, v);
        assert(cmap(t) =~= cmap(s).insert(s[i].0, v));
    }
}

/// Writes one binding into a position-keyed association list, replacing any
/// earlier value at that position.
fn cassoc_insert<V>(entries: &mut Vec<(InternalCoord, V)>, key: InternalCoord, value: V)
    requires
        ckeys_unique(old(entries)@),
    ensures
        ckeys_unique(final(entries)@),
        cmap(final(entries)@) == cmap(old(entries)@).insert(key, value),
{
    let n = entries.len();
    let mut i: usize = 0;
    while i < n
        invariant
            n == entries@.len(),
            i <= n,
            ckeys_unique(entries@),
            *entries == *old(entries),
            forall|j: int| 0 <= j < i ==> entries@[j].0 != key,
        decreases n - i,
    {
        if entries[i].0 == key {
            let ghost olds = entries@;
            let e = &mut entries[i];
            e.1 = value;
            proof {
                assert(entries@ =~= olds.update(i as int, (olds[i as int].0, entries@[i as int].1)));
                clemma_update(olds, i as int, entries@[i as int].1);
                assert(ckeys_unique(entries@));
            }
            return ;
        }
        i = i + 1;
    }
    proof {
        clemma_push(entries@, key, value);
        clemma_absent(entries@, key);
    }
    entries.push((key, value));
    proof {
        assert(ckeys_unique(entries@));
    }
}

/// Reads the binding at a position, if one exists.
fn cassoc_get<'a, V>(entries: &'a Vec<(InternalCoord, V)>, key: InternalCoord) -> (r: Option<
    &'a V,
>)
    requires
        ckeys_unique(entries@),
    ensures
        match r {
            Some(v) => cmap(entries@).contains_key(key) && *v == cmap(entries@)[key],
            None => !cmap(entries@).contains_key(key),
        },
{
    let n = entries.len();
    let mut i: usize = 0;
    while i < n
        invariant
            n == entries@.len(),
            i <= n,
            ckeys_unique(entries@),
            forall|j: int| 0 <= j < i ==> entries@[j].0 != key,
        decreases n - i,
    {
        if entries[i].0 == key {
            proof {
                clemma_found(entries@, i as int);
            }
            return Some(&entries[i].1);
        }
        i = i + 1;
    }
    proof {
        clemma_absent(entries@, key);
    }
    None
}

/// The mathematical state of a board: what each position holds, which
/// positions carry roll tokens, the harbors, and where the robber stands.
#[verifier::ext_equal]
pub ghost struct BoardView {
    pub tiles: Map<InternalCoord, InternalTileType>,
    pub roll_tokens: Map<InternalCoord, RollToken>,
    pub harbors: Map<InternalCoord, (HarborType, u32)>,
    pub robber: InternalCoord,
}

/// A board with nothing on it and the robber at the origin.
pub open spec fn empty_board_view() -> BoardView {
    BoardView {
        tiles: Map::empty(),
        roll_tokens: Map::empty(),
        harbors: Map::empty(),
        robber: (InternalCoord { x: 0, y: 0, z: 0 }),
    }
}

/// The playing board.
#[derive(Debug)]
pub struct Board {
    tiles: Vec<(InternalCoord, InternalTileType)>,
    roll_tokens: Vec<(InternalCoord, RollToken)>,
    harbors: Vec<(InternalCoord, (HarborType, u32))>,
    robber_coord: InternalCoord,
}

impl View for Board {
    type V = BoardView;

    closed spec fn view(&self) -> BoardView {
        BoardView {
            tiles: cmap(self.tiles@),
            roll_tokens: cmap(self.roll_tokens@),
            harbors: cmap(self.harbors@),
            robber: self.robber_coord,
        }
    }
}

impl Default for Board {
    /// An empty board.
    fn default() -> (b: Board)
        ensures
            b.wf(),
            b@ == empty_board_view(),
    {
        Board::new()
    }
}

impl Board {
    /// Positions are unique in every table.
    pub closed spec fn wf(&self) -> bool {
        ckeys_unique(self.tiles@) && ckeys_unique(self.roll_tokens@) && ckeys_unique(
            self.harbors@,
        )
    }

    /// An empty board.
    pub fn new() -> (b: Board)
        ensures
            b.wf(),
            b@ == empty_board_view(),
    {
        let b = Board {
            tiles: Vec::new(),
            roll_tokens: Vec::new(),
            harbors: Vec::new(),
            robber_coord: InternalCoord { x: 0, y: 0, z: 0 },
        };
        proof {
            assert(b@.tiles =~= empty_board_view().tiles);
            assert(b@.roll_tokens =~= empty_board_view().roll_tokens);
            assert(b@.harbors =~= empty_board_view().harbors);
            assert(b@ =~~= empty_board_view());
        }
        b
    }

    /// Writes one position's tile.
    fn insert_tile(&mut self, c: InternalCoord, t: InternalTileType)
        requires
            old(self).wf(),
        ensures
            final(self).wf(),
            final(self)@ == (BoardView { tiles: old(self)@.tiles.insert(c, t), ..old(self)@ }),
    {
        cassoc_insert(&mut self.tiles, c, t);
        proof {
            assert(self@ =~~= (BoardView { tiles: old(self)@.tiles.insert(c, t), ..old(self)@ }));
        }
    }

    /// Writes one position's roll token.
    fn insert_token(&mut self, c: InternalCoord, tk: RollToken)
        requires
            old(self).wf(),
        ensures
            final(self).wf(),
            final(self)@ == (BoardView {
                roll_tokens: old(self)@.roll_tokens.insert(c, tk),
                ..old(self)@
            }),
    {
        cassoc_insert(&mut self.roll_tokens, c, tk);
        proof {
            assert(self@ =~~= (BoardView {
                roll_tokens: old(self)@.roll_tokens.insert(c, tk),
                ..old(self)@
            }));
        }
    }

    /// Writes one harbor.
    fn insert_harbor(&mut self, c: InternalCoord, h: (HarborType, u32))
        requires
            old(self).wf(),
        ensures
            final(self).wf(),
            final(self)@ == (BoardView { harbors: old(self)@.harbors.insert(c, h), ..old(self)@ }),
    {
        cassoc_insert(&mut self.harbors, c, h);
        proof {
            assert(self@ =~~= (BoardView { harbors: old(self)@.harbors.insert(c, h), ..old(self)@ }));
        }
    }

    /// Whether a position holds any tile.
    pub fn contains_tile(&self, c: InternalCoord) -> (r: bool)
        requires
            self.wf(),
        ensures
            r == self@.tiles.contains_key(c),
    {
        match cassoc_get(&self.tiles, c) {
            Some(_) => true,
            None => false,
        }
    }

    /// The roll token at a position, if one lies there.
    pub fn roll_token_at(&self, c: InternalCoord) -> (r: Option<RollToken>)
        requires
            self.wf(),
        ensures
            r == if self@.roll_tokens.contains_key(c) {
                Some(self@.roll_tokens[c])
            } else {
                None::<RollToken>
            },
    {
        match cassoc_get(&self.roll_tokens, c) {
            Some(tk) => Some(*tk),
            None => None,
        }
    }

    /// The tile at a position that holds one, with its roll token if any.
    pub fn get_location(&self, coordinate: InternalCoord) -> (r: (
        InternalTileType,
        Option<RollToken>,
    ))
        requires
            self.wf(),
            self@.tiles.contains_key(coordinate),
        ensures
            r.0 == self@.tiles[coordinate],
            r.1 == if self@.roll_tokens.contains_key(coordinate) {
                Some(self@.roll_tokens[coordinate])
            } else {
                None::<RollToken>
            },
    {
        let tile = match cassoc_get(&self.tiles, coordinate) {
            Some(t) => *t,
            None => InternalTileType::ResourceTile(ResourceTileType::Desert),
        };
        (tile, self.roll_token_at(coordinate))
    }
}

/// The nineteen positions of the standard board's resource tiles: the
/// center, the first ring, then the second ring.
pub open spec fn spec_standard_tile_locations() -> Seq<InternalCoord> {
    seq![
        (InternalCoord { x: 0i32, y: 0i32, z: 0i32 }),
        (InternalCoord { x: 2i32, y: -1i32, z: -1i32 }),
        (InternalCoord { x: 1i32, y: 1i32, z: -2i32 }),
        (InternalCoord { x: -1i32, y: 2i32, z: -1i32 }),
        (InternalCoord { x: -2i32, y: 1i32, z: 1i32 }),
        (InternalCoord { x: -1i32, y: -1i32, z: 2i32 }),
        (InternalCoord { x: 1i32, y: -2i32, z: 1i32 }),
        (InternalCoord { x: 3i32, y: -3i32, z: 0i32 }),
        (InternalCoord { x: 4i32, y: -2i32, z: -2i32 }),
        (InternalCoord { x: 3i32, y: 0i32, z: -3i32 }),
        (InternalCoord { x: 2i32, y: 2i32, z: -4i32 }),
        (InternalCoord { x: 0i32, y: 3i32, z: -3i32 }),
        (InternalCoord { x: -2i32, y: 4i32, z: -2i32 }),
        (InternalCoord { x: -3i32, y: 3i32, z: 0i32 }),
        (InternalCoord { x: -4i32, y: 2i32, z: 2i32 }),
        (InternalCoord { x: -3i32, y: 0i32, z: 3i32 }),
        (InternalCoord { x: -2i32, y: -2i32, z: 4i32 }),
        (InternalCoord { x: 0i32, y: -3i32, z: 3i32 }),
        (InternalCoord { x: 2i32, y: -4i32, z: 2i32 }),
    ]
}

/// The balanced layout's tile per position: the landscape and its roll
/// token, position by position of [`spec_standard_tile_locations`].
pub open spec fn spec_balanced_tile_values() -> Seq<(ResourceTileType, Option<RollToken>)> {
    seq![
        (ResourceTileType::Desert, None),
        (ResourceTileType::Mountains, Some(RollToken::Twelve)),
        (ResourceTileType::Fields, Some(RollToken::Eleven)),
        (ResourceTileType::Hills, Some(RollToken::Three)),
        (ResourceTileType::Forest, Some(RollToken::Eight)),
        (ResourceTileType::Pasture, Some(RollToken::Nine)),
        (ResourceTileType::Forest, Some(RollToken::Two)),
        (ResourceTileType::Forest, Some(RollToken::Four)),
        (ResourceTileType::Hills, Some(RollToken::Six)),
        (ResourceTileType::Pasture, Some(RollToken::Ten)),
        (ResourceTileType::Fields, Some(RollToken::Nine)),
        (ResourceTileType::Pasture, Some(RollToken::Six)),
        (ResourceTileType::Forest, Some(RollToken::Five)),
        (ResourceTileType::Hills, Some(RollToken::Four)),
        (ResourceTileType::Pasture, Some(RollToken::Ten)),
        (ResourceTileType::Fields, Some(RollToken::Three)),
        (ResourceTileType::Mountains, Some(RollToken::Five)),
        (ResourceTileType::Fields, Some(RollToken::Eleven)),
        (ResourceTileType::Mountains, Some(RollToken::Eight)),
    ]
}

/// The balanced layout's nine harbors: their sea positions, kinds and
/// orientations.
pub open spec fn spec_balanced_harbors() -> Seq<(InternalCoord, (HarborType, u32))> {
    seq![
        ((InternalCoord { x: 6i32, y: -3i32, z: -3i32 }), (HarborType::All, 1u32)),
        ((InternalCoord { x: 4i32, y: 1i32, z: -5i32 }), (HarborType::Brick, 2u32)),
        ((InternalCoord { x: 1i32, y: 4i32, z: -5i32 }), (HarborType::Lumber, 2u32)),
        ((InternalCoord { x: -3i32, y: 6i32, z: -3i32 }), (HarborType::All, 3u32)),
        ((InternalCoord { x: -5i32, y: 4i32, z: 1i32 }), (HarborType::Grain, 4u32)),
        ((InternalCoord { x: -5i32, y: 1i32, z: 4i32 }), (HarborType::Ore, 4u32)),
        ((InternalCoord { x: -3i32, y: -3i32, z: 6i32 }), (HarborType::All, 5u32)),
        ((InternalCoord { x: 1i32, y: -5i32, z: 4i32 }), (HarborType::Wool, 0u32)),
        ((InternalCoord { x: 4i32, y: -5i32, z: 1i32 }), (HarborType::All, 0u32)),
    ]
}

/// The two building positions each balanced harbor serves, harbor by harbor
/// of [`spec_balanced_harbors`].
pub open spec fn spec_harbor_building_locations() -> Seq<(InternalCoord, InternalCoord)> {
    seq![
        ((InternalCoord { x: 5i32, y: -3i32, z: -2i32 }), (InternalCoord { x: 5i32, y: -2i32, z: -3i32 })),
        ((InternalCoord { x: 4i32, y: 0i32, z: -4i32 }), (InternalCoord { x: 3i32, y: 1i32, z: -4i32 })),
        ((InternalCoord { x: 1i32, y: 3i32, z: -4i32 }), (InternalCoord { x: 0i32, y: 4i32, z: -4i32 })),
        ((InternalCoord { x: -2i32, y: 5i32, z: -3i32 }), (InternalCoord { x: -3i32, y: 5i32, z: -2i32 })),
        ((InternalCoord { x: -4i32, y: 4i32, z: 0i32 }), (InternalCoord { x: -4i32, y: 3i32, z: 1i32 })),
        ((InternalCoord { x: -4i32, y: 1i32, z: 3i32 }), (InternalCoord { x: -4i32, y: 0i32, z: 4i32 })),
        ((InternalCoord { x: -3i32, y: -2i32, z: 5i32 }), (InternalCoord { x: -2i32, y: -3i32, z: 5i32 })),
        ((InternalCoord { x: 0i32, y: -4i32, z: 4i32 }), (InternalCoord { x: 1i32, y: -4i32, z: 3i32 })),
        ((InternalCoord { x: 3i32, y: -4i32, z: 1i32 }), (InternalCoord { x: 4i32, y: -4i32, z: 0i32 })),
    ]
}

/// The nineteen standard tile positions.
pub fn standard_tile_locations() -> (r: Vec<InternalCoord>)
    ensures
        r@ == spec_standard_tile_locations(),
{
    let mut v: Vec<InternalCoord> = Vec::new();
    v.push(InternalCoord { x: 0, y: 0, z: 0 });
    v.push(InternalCoord { x: 2, y: -1, z: -1 });
    v.push(InternalCoord { x: 1, y: 1, z: -2 });
    v.push(InternalCoord { x: -1, y: 2, z: -1 });
    v.push(InternalCoord { x: -2, y: 1, z: 1 });
    v.push(InternalCoord { x: -1, y: -1, z: 2 });
    v.push(InternalCoord { x: 1, y: -2, z: 1 });
    v.push(InternalCoord { x: 3, y: -3, z: 0 });
    v.push(InternalCoord { x: 4, y: -2, z: -2 });
    v.push(InternalCoord { x: 3, y: 0, z: -3 });
    v.push(InternalCoord { x: 2, y: 2, z: -4 });
    v.push(InternalCoord { x: 0, y: 3, z: -3 });
    v.push(InternalCoord { x: -2, y: 4, z: -2 });
    v.push(InternalCoord { x: -3, y: 3, z: 0 });
    v.push(InternalCoord { x: -4, y: 2, z: 2 });
    v.push(InternalCoord { x: -3, y: 0, z: 3 });
    v.push(InternalCoord { x: -2, y: -2, z: 4 });
    v.push(InternalCoord { x: 0, y: -3, z: 3 });
    v.push(InternalCoord { x: 2, y: -4, z: 2 });
    proof {
        assert(v@ =~= spec_standard_tile_locations());
    }
    v
}

/// The balanced layout's tile values.
fn balanced_tile_values() -> (r: Vec<(ResourceTileType, Option<RollToken>)>)
    ensures
        r@ == spec_balanced_tile_values(),
{
    let mut v: Vec<(ResourceTileType, Option<RollToken>)> = Vec::new();
    v.push((ResourceTileType::Desert, None));
    v.push((ResourceTileType::Mountains, Some(RollToken::Twelve)));
    v.push((ResourceTileType::Fields, Some(RollToken::Eleven)));
    v.push((ResourceTileType::Hills, Some(RollToken::Three)));
    v.push((ResourceTileType::Forest, Some(RollToken::Eight)));
    v.push((ResourceTileType::Pasture, Some(RollToken::Nine)));
    v.push((ResourceTileType::Forest, Some(RollToken::Two)));
    v.push((ResourceTileType::Forest, Some(RollToken::Four)));
    v.push((ResourceTileType::Hills, Some(RollToken::Six)));
    v.push((ResourceTileType::Pasture, Some(RollToken::Ten)));
    v.push((ResourceTileType::Fields, Some(RollToken::Nine)));
    v.push((ResourceTileType::Pasture, Some(RollToken::Six)));
    v.push((ResourceTileType::Forest, Some(RollToken::Five)));
    v.push((ResourceTileType::Hills, Some(RollToken::Four)));
    v.push((ResourceTileType::Pasture, Some(RollToken::Ten)));
    v.push((ResourceTileType::Fields, Some(RollToken::Three)));
    v.push((ResourceTileType::Mountains, Some(RollToken::Five)));
    v.push((ResourceTileType::Fields, Some(RollToken::Eleven)));
    v.push((ResourceTileType::Mountains, Some(RollToken::Eight)));
    proof {
        assert(v@ =~= spec_balanced_tile_values());
    }
    v
}

/// The balanced layout's harbors.
fn balanced_harbors() -> (r: Vec<(InternalCoord, (HarborType, u32))>)
    ensures
        r@ == spec_balanced_harbors(),
{
    let mut v: Vec<(InternalCoord, (HarborType, u32))> = Vec::new();
    v.push((InternalCoord { x: 6, y: -3, z: -3 }, (HarborType::All, 1)));
    v.push((InternalCoord { x: 4, y: 1, z: -5 }, (HarborType::Brick, 2)));
    v.push((InternalCoord { x: 1, y: 4, z: -5 }, (HarborType::Lumber, 2)));
    v.push((InternalCoord { x: -3, y: 6, z: -3 }, (HarborType::All, 3)));
    v.push((InternalCoord { x: -5, y: 4, z: 1 }, (HarborType::Grain, 4)));
    v.push((InternalCoord { x: -5, y: 1, z: 4 }, (HarborType::Ore, 4)));
    v.push((InternalCoord { x: -3, y: -3, z: 6 }, (HarborType::All, 5)));
    v.push((InternalCoord { x: 1, y: -5, z: 4 }, (HarborType::Wool, 0)));
    v.push((InternalCoord { x: 4, y: -5, z: 1 }, (HarborType::All, 0)));
    proof {
        assert(v@ =~= spec_balanced_harbors());
    }
    v
}

/// The harbor building positions.
fn harbor_building_locations() -> (r: Vec<(InternalCoord, InternalCoord)>)
    ensures
        r@ == spec_harbor_building_locations(),
{
    let mut v: Vec<(InternalCoord, InternalCoord)> = Vec::new();
    v.push((InternalCoord { x: 5, y: -3, z: -2 }, InternalCoord { x: 5, y: -2, z: -3 }));
    v.push((InternalCoord { x: 4, y: 0, z: -4 }, InternalCoord { x: 3, y: 1, z: -4 }));
    v.push((InternalCoord { x: 1, y: 3, z: -4 }, InternalCoord { x: 0, y: 4, z: -4 }));
    v.push((InternalCoord { x: -2, y: 5, z: -3 }, InternalCoord { x: -3, y: 5, z: -2 }));
    v.push((InternalCoord { x: -4, y: 4, z: 0 }, InternalCoord { x: -4, y: 3, z: 1 }));
    v.push((InternalCoord { x: -4, y: 1, z: 3 }, InternalCoord { x: -4, y: 0, z: 4 }));
    v.push((InternalCoord { x: -3, y: -2, z: 5 }, InternalCoord { x: -2, y: -3, z: 5 }));
    v.push((InternalCoord { x: 0, y: -4, z: 4 }, InternalCoord { x: 1, y: -4, z: 3 }));
    v.push((InternalCoord { x: 3, y: -4, z: 1 }, InternalCoord { x: 4, y: -4, z: 0 }));
    proof {
        assert(v@ =~= spec_harbor_building_locations());
    }
    v
}

/// The harbor lookup for building positions: both positions of each pair map
/// to their harbor's kind, pair by pair onto `m`.
pub open spec fn harbor_buildings_from(
    m: Map<InternalCoord, HarborType>,
    pairs: Seq<(InternalCoord, InternalCoord)>,
    harbors: Seq<(InternalCoord, (HarborType, u32))>,
) -> Map<InternalCoord, HarborType>
    decreases pairs.len(),
{
    if pairs.len() == 0 || harbors.len() == 0 {
        m
    } else {
        harbor_buildings_from(
            m.insert(pairs[0].0, harbors[0].1.0).insert(pairs[0].1, harbors[0].1.0),
            pairs.drop_first(),
            harbors.drop_first(),
        )
    }
}

/// The balanced layout's harbor lookup for building positions.
pub open spec fn spec_harbor_buildings_map() -> Map<InternalCoord, HarborType> {
    harbor_buildings_from(
        Map::empty(),
        spec_harbor_building_locations(),
        spec_balanced_harbors(),
    )
}

/// The building tile a fresh coastal position gets: no building yet, and the
/// harbor its position carries, if any.
pub open spec fn fresh_building_tile(
    c: InternalCoord,
    hb: Map<InternalCoord, HarborType>,
) -> InternalTileType {
    InternalTileType::BuildingTile(
        BuildingTileContainer {
            building: None,
            harbor_type: if hb.contains_key(c) {
                Some(hb[c])
            } else {
                None
            },
        },
    )
}

/// Placing building tiles on every still-empty position of `nbs`, in order.
pub open spec fn place_buildings(
    tiles: Map<InternalCoord, InternalTileType>,
    nbs: Seq<InternalCoord>,
    hb: Map<InternalCoord, HarborType>,
) -> Map<InternalCoord, InternalTileType>
    decreases nbs.len(),
{
    if nbs.len() == 0 {
        tiles
    } else {
        let t1 = if tiles.contains_key(nbs[0]) {
            tiles
        } else {
            tiles.insert(nbs[0], fresh_building_tile(nbs[0], hb))
        };
        place_buildings(t1, nbs.drop_first(), hb)
    }
}

/// Placing one resource tile: the tile itself, its roll token if it has one,
/// and building tiles on its still-empty neighbors.
pub open spec fn place_tile_step(
    bv: BoardView,
    loc: InternalCoord,
    val: (ResourceTileType, Option<RollToken>),
    hb: Map<InternalCoord, HarborType>,
) -> BoardView {
    let tiles1 = bv.tiles.insert(loc, InternalTileType::ResourceTile(val.0));
    let tokens1 = match val.1 {
        Some(tk) => bv.roll_tokens.insert(loc, tk),
        None => bv.roll_tokens,
    };
    let tiles2 = if coord_in_range(loc) {
        place_buildings(tiles1, spec_neighbors(loc), hb)
    } else {
        tiles1
    };
    BoardView { tiles: tiles2, roll_tokens: tokens1, ..bv }
}

/// Placing a whole layout of resource tiles, position by position.
pub open spec fn place_tiles(
    bv: BoardView,
    locs: Seq<InternalCoord>,
    vals: Seq<(ResourceTileType, Option<RollToken>)>,
    hb: Map<InternalCoord, HarborType>,
) -> BoardView
    decreases locs.len(),
{
    if locs.len() == 0 || vals.len() == 0 {
        bv
    } else {
        place_tiles(
            place_tile_step(bv, locs[0], vals[0], hb),
            locs.drop_first(),
            vals.drop_first(),
            hb,
        )
    }
}

/// Adding a list of harbors onto `h`, in order.
pub open spec fn insert_harbors(
    h: Map<InternalCoord, (HarborType, u32)>,
    entries: Seq<(InternalCoord, (HarborType, u32))>,
) -> Map<InternalCoord, (HarborType, u32)>
    decreases entries.len(),
{
    if entries.len() == 0 {
        h
    } else {
        insert_harbors(h.insert(entries[0].0, entries[0].1), entries.drop_first())
    }
}

/// The balanced starting board: the fixed tile layout, its roll tokens,
/// building tiles around every resource tile, and the nine harbors.
pub open spec fn spec_balanced_board() -> BoardView {
    let placed = place_tiles(
        empty_board_view(),
        spec_standard_tile_locations(),
        spec_balanced_tile_values(),
        spec_harbor_buildings_map(),
    );
    BoardView { harbors: insert_harbors(placed.harbors, spec_balanced_harbors()), ..placed }
}

/// Whether a position is far enough from the numeric edge for its neighbors
/// to exist.
fn in_range(c: InternalCoord) -> (r: bool)
    ensures
        r == coord_in_range(c),
{
    c.x <= i32::MAX - 2 && c.x >= i32::MIN + 2 && c.y <= i32::MAX - 2 && c.y >= i32::MIN + 2
        && c.z <= i32::MAX - 2 && c.z >= i32::MIN + 2
}

impl Board {
    /// Places one resource tile with its token and surrounds it with
    /// building tiles, exactly as [`place_tile_step`] describes.
    fn place_one_tile(
        &mut self,
        loc: InternalCoord,
        val: (ResourceTileType, Option<RollToken>),
        hb: &Vec<(InternalCoord, HarborType)>,
    )
        requires
            old(self).wf(),
            ckeys_unique(hb@),
        ensures
            final(self).wf(),
            final(self)@ == place_tile_step(old(self)@, loc, val, cmap(hb@)),
    {
        let ghost hbm = cmap(hb@);
        self.insert_tile(loc, InternalTileType::ResourceTile(val.0));
        match val.1 {
            Some(tk) => {
                self.insert_token(loc, tk);
            },
            None => {},
        }
        let ghost tiles1 = self@.tiles;
        if in_range(loc) {
            let nbs = loc.neighbors();
            let ghost nseq = spec_neighbors(loc);
            proof {
                assert(nseq.skip(0) =~= nseq);
            }
            let mut k: usize = 0;
            while k < 6
                invariant
                    k <= 6,
                    self.wf(),
                    nbs@ == nseq,
                    nseq.len() == 6,
                    ckeys_unique(hb@),
                    hbm == cmap(hb@),
                    self@.roll_tokens == place_tile_step(old(self)@, loc, val, hbm).roll_tokens,
                    self@.harbors == old(self)@.harbors,
                    self@.robber == old(self)@.robber,
                    place_buildings(tiles1, nseq, hbm) == place_buildings(
                        self@.tiles,
                        nseq.skip(k as int),
                        hbm,
                    ),
                decreases 6 - k,
            {
                let nb = nbs[k];
                let ghost tprev = self@.tiles;
                proof {
                    assert(nseq.skip(k as int)[0] == nb);
                    assert(nseq.skip(k as int).drop_first() =~= nseq.skip(k + 1));
                }
                if !self.contains_tile(nb) {
                    let container = match cassoc_get(hb, nb) {
                        Some(h) => BuildingTileContainer { building: None, harbor_type: Some(*h) },
                        None => BuildingTileContainer { building: None, harbor_type: None },
                    };
                    proof {
                        assert(InternalTileType::BuildingTile(container) == fresh_building_tile(
                            nb,
                            hbm,
                        ));
                    }
                    self.insert_tile(nb, InternalTileType::BuildingTile(container));
                    proof {
                        assert(self@.tiles == tprev.insert(nb, fresh_building_tile(nb, hbm)));
                    }
                }
                proof {
                    assert(place_buildings(tprev, nseq.skip(k as int), hbm) == place_buildings(
                        self@.tiles,
                        nseq.skip(k + 1),
                        hbm,
                    ));
                }
                k = k + 1;
            }
            proof {
                assert(nseq.skip(6) =~= Seq::<InternalCoord>::empty());
                assert(self@ =~~= place_tile_step(old(self)@, loc, val, hbm));
            }
        } else {
            proof {
                assert(self@ =~~= place_tile_step(old(self)@, loc, val, hbm));
            }
        }
    }

    /// The balanced starting board, exactly as [`spec_balanced_board`]
    /// describes: the fixed layout, with the robber on the central desert.
    pub fn balanced_start() -> (b: Board)
        ensures
            b.wf(),
            b@ == spec_balanced_board(),
    {
        let mut board = Board::new();
        let pairs = harbor_building_locations();
        let harbors = balanced_harbors();
        let mut hb: Vec<(InternalCoord, HarborType)> = Vec::new();
        proof {
            assert(spec_harbor_building_locations().skip(0) =~= spec_harbor_building_locations());
            assert(spec_balanced_harbors().skip(0) =~= spec_balanced_harbors());
            assert(cmap(hb@) =~= Map::<InternalCoord, HarborType>::empty());
        }
        let mut i: usize = 0;
        while i < 9
            invariant
                i <= 9,
                pairs@ == spec_harbor_building_locations(),
                harbors@ == spec_balanced_harbors(),
                ckeys_unique(hb@),
                spec_harbor_buildings_map() == harbor_buildings_from(
                    cmap(hb@),
                    spec_harbor_building_locations().skip(i as int),
                    spec_balanced_harbors().skip(i as int),
                ),
            decreases 9 - i,
        {
            proof {
                assert(spec_harbor_building_locations().skip(i as int).drop_first()
                    =~= spec_harbor_building_locations().skip(i + 1));
                assert(spec_balanced_harbors().skip(i as int).drop_first()
                    =~= spec_balanced_harbors().skip(i + 1));
            }
            let pair = pairs[i];
            let h = harbors[i].1.0;
            cassoc_insert(&mut hb, pair.0, h);
            cassoc_insert(&mut hb, pair.1, h);
            i = i + 1;
        }
        proof {
            assert(spec_harbor_building_locations().skip(9) =~= Seq::<
                (InternalCoord, InternalCoord),
            >::empty());
            assert(cmap(hb@) == spec_harbor_buildings_map());
        }

        let locs = standard_tile_locations();
        let vals = balanced_tile_values();
        proof {
            assert(spec_standard_tile_locations().skip(0) =~= spec_standard_tile_locations());
            assert(spec_balanced_tile_values().skip(0) =~= spec_balanced_tile_values());
        }
        let mut i2: usize = 0;
        while i2 < 19
            invariant
                i2 <= 19,
                board.wf(),
                locs@ == spec_standard_tile_locations(),
                vals@ == spec_balanced_tile_values(),
                ckeys_unique(hb@),
                cmap(hb@) == spec_harbor_buildings_map(),
                place_tiles(
                    empty_board_view(),
                    spec_standard_tile_locations(),
                    spec_balanced_tile_values(),
                    spec_harbor_buildings_map(),
                ) == place_tiles(
                    board@,
                    spec_standard_tile_locations().skip(i2 as int),
                    spec_balanced_tile_values().skip(i2 as int),
                    spec_harbor_buildings_map(),
                ),
            decreases 19 - i2,
        {
            proof {
                assert(spec_standard_tile_locations().skip(i2 as int).drop_first()
                    =~= spec_standard_tile_locations().skip(i2 + 1));
                assert(spec_balanced_tile_values().skip(i2 as int).drop_first()
                    =~= spec_balanced_tile_values().skip(i2 + 1));
            }
            let loc = locs[i2];
            let val = vals[i2];
            board.place_one_tile(loc, val, &hb);
            i2 = i2 + 1;
        }
        proof {
            assert(spec_standard_tile_locations().skip(19) =~= Seq::<InternalCoord>::empty());
        }

        proof {
            assert(spec_balanced_harbors().skip(0) =~= spec_balanced_harbors());
        }
        let ghost placed = board@;
        let mut i3: usize = 0;
        while i3 < 9
            invariant
                i3 <= 9,
                board.wf(),
                harbors@ == spec_balanced_harbors(),
                board@.tiles == placed.tiles,
                board@.roll_tokens == placed.roll_tokens,
                board@.robber == placed.robber,
                insert_harbors(placed.harbors, spec_balanced_harbors()) == insert_harbors(
                    board@.harbors,
                    spec_balanced_harbors().skip(i3 as int),
                ),
            decreases 9 - i3,
        {
            proof {
                assert(spec_balanced_harbors().skip(i3 as int).drop_first()
                    =~= spec_balanced_harbors().skip(i3 + 1));
            }
            let entry = harbors[i3];
            board.insert_harbor(entry.0, entry.1);
            i3 = i3 + 1;
        }
        proof {
            assert(spec_balanced_harbors().skip(9) =~= Seq::<
                (InternalCoord, (HarborType, u32)),
            >::empty());
            assert(board@ =~~= spec_balanced_board());
        }
        board
    }
}

/// Placing building tiles never disturbs a position that already holds a
/// tile.
proof fn lemma_place_buildings_preserves(
    tiles: Map<InternalCoord, InternalTileType>,
    nbs: Seq<InternalCoord>,
    hb: Map<InternalCoord, HarborType>,
    c: InternalCoord,
)
    requires
        tiles.contains_key(c),
    ensures
        place_buildings(tiles, nbs, hb).contains_key(c),
        place_buildings(tiles, nbs, hb)[c] == tiles[c],
    decreases nbs.len(),
{
    if nbs.len() > 0 {
        let t1 = if tiles.contains_key(nbs[0]) {
            tiles
        } else {
            tiles.insert(nbs[0], fresh_building_tile(nbs[0], hb))
        };
        lemma_place_buildings_preserves(t1, nbs.drop_first(), hb, c);
    }
}

/// Relies on rand: a draw that comes up true about one time in `n`,
/// whatever the generator returns.
#[verifier::external_body]
fn random_one_in(n: u32) -> bool
    requires
        n >= 1,
{
    rand::rng().random_ratio(1, n)
}

/// Whether any tile diagonally across from `c` already carries a
/// high-frequency roll token.
fn any_adjacent_high(b: &Board, c: InternalCoord) -> bool
    requires
        b.wf(),
        coord_in_range(c),
{
    let diags = c.diagonal_neighbors();
    let mut d: usize = 0;
    let mut found = false;
    while d < 6
        invariant
            d <= 6,
            diags@.len() == 6,
            b.wf(),
        decreases 6 - d,
    {
        match b.roll_token_at(diags[d]) {
            Some(tk) => {
                if tk.high_prob() {
                    found = true;
                }
            },
            None => {},
        }
        d = d + 1;
    }
    found
}

/// Draws the next roll token: from the low-frequency pile where a neighbor
/// already rolls often, and otherwise from either pile, weighted towards the
/// fuller one. Nothing comes out only once both piles are empty.
/// The standard resource-tile deck: nineteen tiles, exactly one of them
/// the desert.
proof fn lemma_resource_deck_stats()
    ensures
        crate::common::deck_of(
            ResourceTileType::spec_all_variants(),
            |x: ResourceTileType| x.spec_count(),
        ).len() == 19,
        crate::common::deck_of(
            ResourceTileType::spec_all_variants(),
            |x: ResourceTileType| x.spec_count(),
        ).to_multiset().count(ResourceTileType::Desert) == 1,
{
    broadcast use vstd::seq_lib::group_to_multiset_ensures;
    broadcast use vstd::multiset::group_multiset_axioms;
    broadcast use vstd::seq_lib::lemma_multiset_commutative;

    let cnt = |x: ResourceTileType| x.spec_count();
    let v6 = ResourceTileType::spec_all_variants();
    let v5 = v6.drop_last();
    let v4 = v5.drop_last();
    let v3 = v4.drop_last();
    let v2 = v3.drop_last();
    let v1 = v2.drop_last();
    let v0 = v1.drop_last();
    assert(v5 =~= seq![
        ResourceTileType::Mountains,
        ResourceTileType::Hills,
        ResourceTileType::Pasture,
        ResourceTileType::Fields,
        ResourceTileType::Forest,
    ]);
    assert(v4 =~= seq![
        ResourceTileType::Mountains,
        ResourceTileType::Hills,
        ResourceTileType::Pasture,
        ResourceTileType::Fields,
    ]);
    assert(v3 =~= seq![
        ResourceTileType::Mountains,
        ResourceTileType::Hills,
        ResourceTileType::Pasture,
    ]);
    assert(v2 =~= seq![ResourceTileType::Mountains, ResourceTileType::Hills]);
    assert(v1 =~= seq![ResourceTileType::Mountains]);
    assert(v0 =~= Seq::<ResourceTileType>::empty());
    crate::common::lemma_repeat_elem_multiset(
        ResourceTileType::Desert,
        1,
        ResourceTileType::Desert,
    );
    crate::common::lemma_repeat_elem_multiset(
        ResourceTileType::Forest,
        4,
        ResourceTileType::Desert,
    );
    crate::common::lemma_repeat_elem_multiset(
        ResourceTileType::Fields,
        4,
        ResourceTileType::Desert,
    );
    crate::common::lemma_repeat_elem_multiset(
        ResourceTileType::Pasture,
        4,
        ResourceTileType::Desert,
    );
    crate::common::lemma_repeat_elem_multiset(
        ResourceTileType::Hills,
        3,
        ResourceTileType::Desert,
    );
    crate::common::lemma_repeat_elem_multiset(
        ResourceTileType::Mountains,
        3,
        ResourceTileType::Desert,
    );
    assert(crate::common::deck_of(v1, cnt) == crate::common::deck_of(v0, cnt)
        + crate::common::repeat_elem(ResourceTileType::Mountains, 3));
    assert(crate::common::deck_of(v2, cnt) == crate::common::deck_of(v1, cnt)
        + crate::common::repeat_elem(ResourceTileType::Hills, 3));
    assert(crate::common::deck_of(v3, cnt) == crate::common::deck_of(v2, cnt)
        + crate::common::repeat_elem(ResourceTileType::Pasture, 4));
    assert(crate::common::deck_of(v4, cnt) == crate::common::deck_of(v3, cnt)
        + crate::common::repeat_elem(ResourceTileType::Fields, 4));
    assert(crate::common::deck_of(v5, cnt) == crate::common::deck_of(v4, cnt)
        + crate::common::repeat_elem(ResourceTileType::Forest, 4));
    assert(crate::common::deck_of(v6, cnt) == crate::common::deck_of(v5, cnt)
        + crate::common::repeat_elem(ResourceTileType::Desert, 1));
}

/// The standard roll-token deck holds eighteen tokens: one per non-desert
/// tile of the standard board.
proof fn lemma_token_deck_len()
    ensures
        crate::common::deck_of(
            RollToken::spec_all_variants(),
            |x: RollToken| x.spec_count(),
        ).len() == 18,
{
    broadcast use vstd::seq_lib::group_to_multiset_ensures;

    let cnt = |x: RollToken| x.spec_count();
    let w11 = RollToken::spec_all_variants();
    let w10 = w11.drop_last();
    let w9 = w10.drop_last();
    let w8 = w9.drop_last();
    let w7 = w8.drop_last();
    let w6 = w7.drop_last();
    let w5 = w6.drop_last();
    let w4 = w5.drop_last();
    let w3 = w4.drop_last();
    let w2 = w3.drop_last();
    let w1 = w2.drop_last();
    let w0 = w1.drop_last();
    assert(w10 =~= seq![
        RollToken::Two,
        RollToken::Three,
        RollToken::Four,
        RollToken::Five,
        RollToken::Six,
        RollToken::Seven,
        RollToken::Eight,
        RollToken::Nine,
        RollToken::Ten,
        RollToken::Eleven,
    ]);
    assert(w9 =~= seq![
        RollToken::Two,
        RollToken::Three,
        RollToken::Four,
        RollToken::Five,
        RollToken::Six,
        RollToken::Seven,
        RollToken::Eight,
        RollToken::Nine,
        RollToken::Ten,
    ]);
    assert(w8 =~= seq![
        RollToken::Two,
        RollToken::Three,
        RollToken::Four,
        RollToken::Five,
        RollToken::Six,
        RollToken::Seven,
        RollToken::Eight,
        RollToken::Nine,
    ]);
    assert(w7 =~= seq![
        RollToken::Two,
        RollToken::Three,
        RollToken::Four,
        RollToken::Five,
        RollToken::Six,
        RollToken::Seven,
        RollToken::Eight,
    ]);
    assert(w6 =~= seq![
        RollToken::Two,
        RollToken::Three,
        RollToken::Four,
        RollToken::Five,
        RollToken::Six,
        RollToken::Seven,
    ]);
    assert(w5 =~= seq![
        RollToken::Two,
        RollToken::Three,
        RollToken::Four,
        RollToken::Five,
        RollToken::Six,
    ]);
    assert(w4 =~= seq![RollToken::Two, RollToken::Three, RollToken::Four, RollToken::Five]);
    assert(w3 =~= seq![RollToken::Two, RollToken::Three, RollToken::Four]);
    assert(w2 =~= seq![RollToken::Two, RollToken::Three]);
    assert(w1 =~= seq![RollToken::Two]);
    assert(w0 =~= Seq::<RollToken>::empty());
    crate::common::lemma_repeat_elem_multiset(RollToken::Two, 1, RollToken::Two);
    crate::common::lemma_repeat_elem_multiset(RollToken::Three, 2, RollToken::Two);
    crate::common::lemma_repeat_elem_multiset(RollToken::Four, 2, RollToken::Two);
    crate::common::lemma_repeat_elem_multiset(RollToken::Five, 2, RollToken::Two);
    crate::common::lemma_repeat_elem_multiset(RollToken::Six, 2, RollToken::Two);
    crate::common::lemma_repeat_elem_multiset(RollToken::Seven, 0, RollToken::Two);
    crate::common::lemma_repeat_elem_multiset(RollToken::Eight, 2, RollToken::Two);
    crate::common::lemma_repeat_elem_multiset(RollToken::Nine, 2, RollToken::Two);
    crate::common::lemma_repeat_elem_multiset(RollToken::Ten, 2, RollToken::Two);
    crate::common::lemma_repeat_elem_multiset(RollToken::Eleven, 2, RollToken::Two);
    crate::common::lemma_repeat_elem_multiset(RollToken::Twelve, 1, RollToken::Two);
    assert(crate::common::deck_of(w0, cnt).len() == 0);
    assert(crate::common::deck_of(w1, cnt).len() == 1);
    assert(crate::common::deck_of(w2, cnt).len() == 3);
    assert(crate::common::deck_of(w3, cnt).len() == 5);
    assert(crate::common::deck_of(w4, cnt).len() == 7);
    assert(crate::common::deck_of(w5, cnt).len() == 9);
    assert(crate::common::deck_of(w6, cnt).len() == 9);
    assert(crate::common::deck_of(w7, cnt).len() == 11);
    assert(crate::common::deck_of(w8, cnt).len() == 13);
    assert(crate::common::deck_of(w9, cnt).len() == 15);
    assert(crate::common::deck_of(w10, cnt).len() == 17);
    assert(crate::common::deck_of(w11, cnt).len() == 18);
}

/// Removing the last element and putting it back restores a sequence's
/// multiset.
proof fn lemma_pop_multiset<T>(s: Seq<T>)
    requires
        s.len() > 0,
    ensures
        s.drop_last().to_multiset().insert(s.last()) == s.to_multiset(),
{
    broadcast use vstd::seq_lib::group_to_multiset_ensures;
    broadcast use vstd::multiset::group_multiset_axioms;

    assert(s.drop_last() =~= s.remove(s.len() - 1));
    assert(s.drop_last().to_multiset().insert(s.last()) =~= s.to_multiset());
}

/// Draws the next roll token: from the low-frequency pile where a neighbor
/// already rolls often, and otherwise from either pile, weighted towards the
/// fuller one. Exactly the drawn token leaves the two piles; nothing comes
/// out only once both are empty.
fn draw_token(high: &mut Vec<RollToken>, low: &mut Vec<RollToken>, adjacent_high: bool) -> (r:
    Option<RollToken>)
    ensures
        r is Some <==> old(high)@.len() + old(low)@.len() > 0,
        match r {
            Some(tk) => final(high)@.to_multiset().add(final(low)@.to_multiset()).insert(tk)
                == old(high)@.to_multiset().add(old(low)@.to_multiset()),
            None => final(high)@ == old(high)@ && final(low)@ == old(low)@,
        },
        final(high)@.len() + final(low)@.len() == if old(high)@.len() + old(low)@.len() > 0 {
            old(high)@.len() + old(low)@.len() - 1
        } else {
            0
        },
{
    let ghost h0 = high@;
    let ghost l0 = low@;
    if adjacent_high {
        match low.pop() {
            Some(t) => {
                proof {
                    lemma_draw_conserves(h0, l0, high@, low@, t, false);
                }
                Some(t)
            },
            None => {
                let r = high.pop();
                proof {
                    match r {
                        Some(t) => {
                            lemma_draw_conserves(h0, l0, high@, low@, t, true);
                        },
                        None => {},
                    }
                }
                r
            },
        }
    } else if high.len() == 0 {
        let r = low.pop();
        proof {
            match r {
                Some(t) => {
                    lemma_draw_conserves(h0, l0, high@, low@, t, false);
                },
                None => {},
            }
        }
        r
    } else if low.len() == 0 {
        let r = high.pop();
        proof {
            match r {
                Some(t) => {
                    lemma_draw_conserves(h0, l0, high@, low@, t, true);
                },
                None => {},
            }
        }
        r
    } else {
        let d: usize = if low.len() > high.len() {
            low.len() - high.len()
        } else {
            1
        };
        let dn: u32 = if d >= 14 {
            14
        } else {
            d as u32
        };
        if random_one_in(dn) {
            let r = low.pop();
            proof {
                match r {
                    Some(t) => {
                        lemma_draw_conserves(h0, l0, high@, low@, t, false);
                    },
                    None => {},
                }
            }
            r
        } else {
            let r = high.pop();
            proof {
                match r {
                    Some(t) => {
                        lemma_draw_conserves(h0, l0, high@, low@, t, true);
                    },
                    None => {},
                }
            }
            r
        }
    }
}

/// A draw from either pile conserves the tokens: the piles after, plus the
/// drawn token, hold what the piles before held.
proof fn lemma_draw_conserves(
    h0: Seq<RollToken>,
    l0: Seq<RollToken>,
    h1: Seq<RollToken>,
    l1: Seq<RollToken>,
    t: RollToken,
    from_high: bool,
)
    requires
        from_high ==> h0.len() > 0 && h1 == h0.drop_last() && t == h0.last() && l1 == l0,
        !from_high ==> l0.len() > 0 && l1 == l0.drop_last() && t == l0.last() && h1 == h0,
    ensures
        h1.to_multiset().add(l1.to_multiset()).insert(t) == h0.to_multiset().add(l0.to_multiset()),
{
    broadcast use vstd::multiset::group_multiset_axioms;

    if from_high {
        lemma_pop_multiset(h0);
        assert(h1.to_multiset().add(l1.to_multiset()).insert(t) =~= h0.to_multiset().add(
            l0.to_multiset(),
        ));
    } else {
        lemma_pop_multiset(l0);
        assert(h1.to_multiset().add(l1.to_multiset()).insert(t) =~= h0.to_multiset().add(
            l0.to_multiset(),
        ));
    }
}

impl Board {
    /// A randomly drawn starting board: a shuffled resource tile on each of
    /// the nineteen standard positions, a roll token on every non-desert
    /// tile — drawn so that high-frequency tokens avoid each other — building
    /// tiles around every resource tile, the robber on the desert, and no
    /// harbors.
    #[verifier::rlimit(100)]
    pub fn random_start() -> (b: Board)
        ensures
            b.wf(),
            forall|j: int|
                0 <= j < spec_standard_tile_locations().len() ==> b@.tiles.contains_key(
                    #[trigger] spec_standard_tile_locations()[j],
                ) && (b@.tiles[spec_standard_tile_locations()[j]]
                    matches InternalTileType::ResourceTile(_)),
            forall|j: int|
                0 <= j < spec_standard_tile_locations().len() ==> ((b@.tiles[
                    #[trigger] spec_standard_tile_locations()[j]
                ] matches InternalTileType::ResourceTile(tt) && tt != ResourceTileType::Desert)
                    ==> b@.roll_tokens.contains_key(spec_standard_tile_locations()[j])),
            forall|c: InternalCoord| #[trigger]
                b@.roll_tokens.contains_key(c) ==> b@.tiles.contains_key(c),
            b@.harbors == Map::<InternalCoord, (HarborType, u32)>::empty(),
    {
        let mut board = Board::new();
        let mut resource_tile_types = ResourceTileType::full_shuffled_collection();
        proof {
            broadcast use vstd::seq_lib::group_to_multiset_ensures;

            lemma_resource_deck_stats();
            let full = crate::common::deck_of(
                ResourceTileType::spec_all_variants(),
                |x: ResourceTileType| x.spec_count(),
            );
            assert(resource_tile_types@.len() == resource_tile_types@.to_multiset().len());
            assert(full.len() == full.to_multiset().len());
            assert(resource_tile_types@.len() == 19);
            assert(resource_tile_types@.to_multiset().count(ResourceTileType::Desert) == 1);
        }
        let all_tokens = RollToken::full_shuffled_collection();
        proof {
            broadcast use vstd::seq_lib::group_to_multiset_ensures;

            lemma_token_deck_len();
            let full = crate::common::deck_of(
                RollToken::spec_all_variants(),
                |x: RollToken| x.spec_count(),
            );
            assert(all_tokens@.len() == all_tokens@.to_multiset().len());
            assert(full.len() == full.to_multiset().len());
            assert(all_tokens@.len() == 18);
        }
        let mut high: Vec<RollToken> = Vec::new();
        let mut low: Vec<RollToken> = Vec::new();
        let n0 = all_tokens.len();
        let mut t: usize = 0;
        while t < n0
            invariant
                t <= n0,
                n0 == all_tokens@.len(),
                high@.len() + low@.len() == t,
            decreases n0 - t,
        {
            let tk = all_tokens[t];
            if tk.high_prob() {
                high.push(tk);
            } else {
                low.push(tk);
            }
            t = t + 1;
        }

        let locs = standard_tile_locations();
        let empty_hb: Vec<(InternalCoord, HarborType)> = Vec::new();
        let ghost mut deserts_drawn: nat = 0;
        let mut i: usize = 0;
        while i < 19
            invariant
                i <= 19,
                board.wf(),
                locs@ == spec_standard_tile_locations(),
                empty_hb@.len() == 0,
                resource_tile_types@.len() == 19 - i,
                deserts_drawn <= i,
                deserts_drawn + resource_tile_types@.to_multiset().count(
                    ResourceTileType::Desert,
                ) == 1,
                high@.len() + low@.len() == 18 - (i - deserts_drawn),
                forall|j: int|
                    0 <= j < i ==> board@.tiles.contains_key(
                        #[trigger] spec_standard_tile_locations()[j],
                    ) && (board@.tiles[spec_standard_tile_locations()[j]]
                        matches InternalTileType::ResourceTile(_)),
                forall|j: int|
                    0 <= j < i ==> ((board@.tiles[#[trigger] spec_standard_tile_locations()[j]]
                        matches InternalTileType::ResourceTile(tt) && tt
                        != ResourceTileType::Desert) ==> board@.roll_tokens.contains_key(
                        spec_standard_tile_locations()[j],
                    )),
                forall|c: InternalCoord| #[trigger]
                    board@.roll_tokens.contains_key(c) ==> board@.tiles.contains_key(c),
                board@.harbors == Map::<InternalCoord, (HarborType, u32)>::empty(),
            decreases 19 - i,
        {
            let location = locs[i];
            let ghost deck_prev = resource_tile_types@;
            let tile_type = match resource_tile_types.pop() {
                Some(tt) => tt,
                None => {
                    proof {
                        assert(false);
                    }
                    ResourceTileType::Desert
                },
            };
            proof {
                broadcast use vstd::seq_lib::group_to_multiset_ensures;
                broadcast use vstd::multiset::group_multiset_axioms;

                assert(deck_prev.drop_last() =~= deck_prev.remove(deck_prev.len() - 1));
                assert(resource_tile_types@.to_multiset() =~= deck_prev.to_multiset().remove(
                    tile_type,
                ));
                assert(deck_prev.contains(tile_type));
                if tile_type == ResourceTileType::Desert {
                    deserts_drawn = deserts_drawn + 1;
                }
                assert(deserts_drawn + resource_tile_types@.to_multiset().count(
                    ResourceTileType::Desert,
                ) == 1);
            }
            let ghost prev = board@;
            board.place_one_tile(location, (tile_type, None), &empty_hb);
            proof {
                let tiles1 = prev.tiles.insert(
                    location,
                    InternalTileType::ResourceTile(tile_type),
                );
                if coord_in_range(location) {
                    lemma_place_buildings_preserves(
                        tiles1,
                        spec_neighbors(location),
                        cmap(empty_hb@),
                        location,
                    );
                    assert forall|c: InternalCoord| #[trigger]
                        board@.roll_tokens.contains_key(c) implies board@.tiles.contains_key(
                        c,
                    ) by {
                        assert(prev.roll_tokens.contains_key(c));
                        assert(prev.tiles.contains_key(c));
                        assert(tiles1.contains_key(c));
                        lemma_place_buildings_preserves(
                            tiles1,
                            spec_neighbors(location),
                            cmap(empty_hb@),
                            c,
                        );
                    }
                    assert forall|j: int| 0 <= j < i + 1 implies board@.tiles.contains_key(
                        #[trigger] spec_standard_tile_locations()[j],
                    ) && (board@.tiles[spec_standard_tile_locations()[j]]
                        matches InternalTileType::ResourceTile(_)) by {
                        lemma_place_buildings_preserves(
                            tiles1,
                            spec_neighbors(location),
                            cmap(empty_hb@),
                            spec_standard_tile_locations()[j],
                        );
                    }
                } else {
                    assert forall|c: InternalCoord| #[trigger]
                        board@.roll_tokens.contains_key(c) implies board@.tiles.contains_key(
                        c,
                    ) by {
                        assert(prev.roll_tokens.contains_key(c));
                        assert(prev.tiles.contains_key(c));
                    }
                }
                assert(board@.tiles.contains_key(location));
                assert(board@.tiles[location] == InternalTileType::ResourceTile(tile_type)) by {
                    if coord_in_range(location) {
                        lemma_place_buildings_preserves(
                            tiles1,
                            spec_neighbors(location),
                            cmap(empty_hb@),
                            location,
                        );
                    }
                }
            }
            if tile_type != ResourceTileType::Desert {
                let adjacent_high = if in_range(location) {
                    any_adjacent_high(&board, location)
                } else {
                    false
                };
                proof {
                    broadcast use vstd::seq_lib::group_to_multiset_ensures;

                    vstd::multiset::axiom_count_le_len(
                        resource_tile_types@.to_multiset(),
                        ResourceTileType::Desert,
                    );
                    assert(high@.len() + low@.len() >= 1);
                }
                match draw_token(&mut high, &mut low, adjacent_high) {
                    Some(tk) => {
                        let ghost before_tok = board@;
                        board.insert_token(location, tk);
                        proof {
                            assert forall|c: InternalCoord| #[trigger]
                                board@.roll_tokens.contains_key(c) implies board@.tiles.contains_key(
                                c,
                            ) by {
                                if c != location {
                                    assert(before_tok.roll_tokens.contains_key(c));
                                }
                            }
                            assert forall|j: int| 0 <= j < i + 1 implies ((board@.tiles[
                                #[trigger] spec_standard_tile_locations()[j]
                            ] matches InternalTileType::ResourceTile(tt) && tt
                                != ResourceTileType::Desert)
                                ==> board@.roll_tokens.contains_key(
                                spec_standard_tile_locations()[j],
                            )) by {
                                let lj = spec_standard_tile_locations()[j];
                                if lj != location {
                                    let tiles1 = prev.tiles.insert(
                                        location,
                                        InternalTileType::ResourceTile(tile_type),
                                    );
                                    assert(prev.tiles.contains_key(lj));
                                    if coord_in_range(location) {
                                        lemma_place_buildings_preserves(
                                            tiles1,
                                            spec_neighbors(location),
                                            cmap(empty_hb@),
                                            lj,
                                        );
                                    }
                                    assert(board@.tiles[lj] == prev.tiles[lj]);
                                    if prev.tiles[lj] matches InternalTileType::ResourceTile(tt)
                                        && tt != ResourceTileType::Desert {
                                        assert(prev.roll_tokens.contains_key(lj));
                                    }
                                }
                            }
                        }
                    },
                    None => {
                        proof {
                            assert(false);
                        }
                    },
                }
            } else {
                let ghost before_rob = board@;
                board.robber_coord = location;
                proof {
                    assert(board@.tiles == before_rob.tiles);
                    assert(board@.roll_tokens == before_rob.roll_tokens);
                    assert forall|c: InternalCoord| #[trigger]
                        board@.roll_tokens.contains_key(c) implies board@.tiles.contains_key(
                        c,
                    ) by {
                        assert(before_rob.roll_tokens.contains_key(c));
                    }
                    assert forall|j: int| 0 <= j < i + 1 implies ((board@.tiles[
                        #[trigger] spec_standard_tile_locations()[j]
                    ] matches InternalTileType::ResourceTile(tt) && tt
                        != ResourceTileType::Desert) ==> board@.roll_tokens.contains_key(
                        spec_standard_tile_locations()[j],
                    )) by {
                        let lj = spec_standard_tile_locations()[j];
                        if lj != location {
                            let tiles1 = prev.tiles.insert(
                                location,
                                InternalTileType::ResourceTile(tile_type),
                            );
                            assert(prev.tiles.contains_key(lj));
                            if coord_in_range(location) {
                                lemma_place_buildings_preserves(
                                    tiles1,
                                    spec_neighbors(location),
                                    cmap(empty_hb@),
                                    lj,
                                );
                            }
                            assert(board@.tiles[lj] == prev.tiles[lj]);
                            if prev.tiles[lj] matches InternalTileType::ResourceTile(tt) && tt
                                != ResourceTileType::Desert {
                                assert(prev.roll_tokens.contains_key(lj));
                            }
                        }
                    }
                }
            }
            i = i + 1;
        }
        board
    }
}

} // verus!
