//! The playing pieces of the game: resources, development cards, buildings,
//! dice, player colors, and counted collections of resources.

use rand::RngExt;
use vstd::prelude::*;

use crate::common::GameResource;

verus! {

/// The four player colors.
#[derive(Debug, PartialEq, Eq, Hash, Clone, Copy, Structural)]
pub enum PlayerColor {
    Red,
    White,
    Orange,
    Blue,
}

/// The five tradable resources.
#[derive(Debug, PartialEq, Eq, Hash, Clone, Copy, Structural)]
pub enum ResourceType {
    Ore,
    Brick,
    Grain,
    Wool,
    Lumber,
}

impl GameResource for ResourceType {
    open spec fn spec_count(self) -> usize {
        19
    }

    open spec fn spec_all_variants() -> Seq<ResourceType> {
        seq![
            ResourceType::Ore,
            ResourceType::Brick,
            ResourceType::Grain,
            ResourceType::Wool,
            ResourceType::Lumber,
        ]
    }

    fn count(self) -> (r: usize) {
        19
    }

    fn all_variants() -> (r: Vec<ResourceType>) {
        let mut v: Vec<ResourceType> = Vec::new();
        v.push(ResourceType::Ore);
        v.push(ResourceType::Brick);
        v.push(ResourceType::Grain);
        v.push(ResourceType::Wool);
        v.push(ResourceType::Lumber);
        proof {
            assert(v@ =~= Self::spec_all_variants());
        }
        v
    }
}

/// The development progress cards.
#[derive(Debug, PartialEq, Eq, Hash, Clone, Copy, Structural)]
pub enum DevelopmentProgressType {
    RoadBuilding,
    Monopoly,
    YearOfPlenty,
}

/// The development victory-point cards.
#[derive(Debug, PartialEq, Eq, Hash, Clone, Copy, Structural)]
pub enum DevelopmentVictoryPointType {
    Chapel,
    Library,
    GreatHall,
    Market,
    University,
}

/// A development card: a knight, a progress card, or a victory point.
#[derive(Debug, PartialEq, Eq, Hash, Clone, Copy, Structural)]
pub enum DevelopmentCardType {
    Knight,
    Progress(DevelopmentProgressType),
    VictoryPoint(DevelopmentVictoryPointType),
}

impl GameResource for DevelopmentCardType {
    open spec fn spec_count(self) -> usize {
        match self {
            DevelopmentCardType::Knight => 14,
            DevelopmentCardType::Progress(_) => 2,
            DevelopmentCardType::VictoryPoint(_) => 1,
        }
    }

    open spec fn spec_all_variants() -> Seq<DevelopmentCardType> {
        seq![
            DevelopmentCardType::Knight,
            DevelopmentCardType::Progress(DevelopmentProgressType::RoadBuilding),
            DevelopmentCardType::Progress(DevelopmentProgressType::Monopoly),
            DevelopmentCardType::Progress(DevelopmentProgressType::YearOfPlenty),
            DevelopmentCardType::VictoryPoint(DevelopmentVictoryPointType::Chapel),
            DevelopmentCardType::VictoryPoint(DevelopmentVictoryPointType::Library),
            DevelopmentCardType::VictoryPoint(DevelopmentVictoryPointType::GreatHall),
            DevelopmentCardType::VictoryPoint(DevelopmentVictoryPointType::Market),
            DevelopmentCardType::VictoryPoint(DevelopmentVictoryPointType::University),
        ]
    }

    fn count(self) -> (r: usize) {
        match self {
            DevelopmentCardType::Knight => 14,
            DevelopmentCardType::Progress(_) => 2,
            DevelopmentCardType::VictoryPoint(_) => 1,
        }
    }

    fn all_variants() -> (r: Vec<DevelopmentCardType>) {
        let mut v: Vec<DevelopmentCardType> = Vec::new();
        v.push(DevelopmentCardType::Knight);
        v.push(DevelopmentCardType::Progress(DevelopmentProgressType::RoadBuilding));
        v.push(DevelopmentCardType::Progress(DevelopmentProgressType::Monopoly));
        v.push(DevelopmentCardType::Progress(DevelopmentProgressType::YearOfPlenty));
        v.push(DevelopmentCardType::VictoryPoint(DevelopmentVictoryPointType::Chapel));
        v.push(DevelopmentCardType::VictoryPoint(DevelopmentVictoryPointType::Library));
        v.push(DevelopmentCardType::VictoryPoint(DevelopmentVictoryPointType::GreatHall));
        v.push(DevelopmentCardType::VictoryPoint(DevelopmentVictoryPointType::Market));
        v.push(DevelopmentCardType::VictoryPoint(DevelopmentVictoryPointType::University));
        proof {
            assert(v@ =~= Self::spec_all_variants());
        }
        v
    }
}

/// The buildable pieces.
#[derive(Debug, PartialEq, Eq, Hash, Clone, Copy, Structural)]
pub enum BuildingType {
    Settlement,
    City,
    Road,
}

impl GameResource for BuildingType {
    open spec fn spec_count(self) -> usize {
        match self {
            BuildingType::Settlement => 5,
            BuildingType::City => 4,
            BuildingType::Road => 15,
        }
    }

    open spec fn spec_all_variants() -> Seq<BuildingType> {
        seq![BuildingType::Settlement, BuildingType::City, BuildingType::Road]
    }

    fn count(self) -> (r: usize) {
        match self {
            BuildingType::Settlement => 5,
            BuildingType::City => 4,
            BuildingType::Road => 15,
        }
    }

    fn all_variants() -> (r: Vec<BuildingType>) {
        let mut v: Vec<BuildingType> = Vec::new();
        v.push(BuildingType::Settlement);
        v.push(BuildingType::City);
        v.push(BuildingType::Road);
        proof {
            assert(v@ =~= Self::spec_all_variants());
        }
        v
    }
}

/// Relies on rand: one die roll, between one and six whatever the generator
/// returns.
#[verifier::external_body]
fn roll_die() -> (r: u32)
    ensures
        1 <= r <= 6,
{
    rand::rng().random_range(1..7)
}

/// One six-sided die.
#[derive(Debug)]
pub struct Dice {}

impl Dice {
    /// A fresh die.
    pub fn new() -> Dice {
        Dice {}
    }

    /// Rolls the die: a value between one and six.
    pub fn roll(&mut self) -> (r: u32)
        ensures
            1 <= r <= 6,
    {
        roll_die()
    }
}

/// A counted collection of resources: how many of each of the five kinds it
/// holds.
#[derive(Debug, PartialEq, Eq, Clone, Copy, Structural)]
pub struct ResourceCollection {
    pub ore: u32,
    pub brick: u32,
    pub grain: u32,
    pub wool: u32,
    pub lumber: u32,
}

impl ResourceCollection {
    /// The count this collection holds of one resource.
    pub open spec fn spec_amount(self, index: ResourceType) -> u32 {
        match index {
            ResourceType::Ore => self.ore,
            ResourceType::Brick => self.brick,
            ResourceType::Grain => self.grain,
            ResourceType::Wool => self.wool,
            ResourceType::Lumber => self.lumber,
        }
    }

    /// Whether this collection can pay for `other`: at least as much of
    /// every resource.
    pub open spec fn spec_satisfies(self, other: ResourceCollection) -> bool {
        self.ore >= other.ore && self.brick >= other.brick && self.grain >= other.grain
            && self.wool >= other.wool && self.lumber >= other.lumber
    }

    /// A collection with the given counts.
    pub fn new(ore: u32, brick: u32, grain: u32, wool: u32, lumber: u32) -> (r: ResourceCollection)
        ensures
            r == (ResourceCollection { ore, brick, grain, wool, lumber }),
    {
        ResourceCollection { ore, brick, grain, wool, lumber }
    }

    /// Whether this collection can pay for `other`.
    pub fn satisfies(&self, other: &ResourceCollection) -> (r: bool)
        ensures
            r == self.spec_satisfies(*other),
    {
        self.ore >= other.ore && self.brick >= other.brick && self.grain >= other.grain
            && self.wool >= other.wool && self.lumber >= other.lumber
    }

    /// The count of one resource.
    pub fn amount(&self, index: ResourceType) -> (r: u32)
        ensures
            r == self.spec_amount(index),
    {
        match index {
            ResourceType::Ore => self.ore,
            ResourceType::Brick => self.brick,
            ResourceType::Grain => self.grain,
            ResourceType::Wool => self.wool,
            ResourceType::Lumber => self.lumber,
        }
    }

    /// Replaces the count of one resource.
    pub fn set_amount(&mut self, index: ResourceType, value: u32)
        ensures
            final(self).spec_amount(index) == value,
            forall|other: ResourceType|
                other != index ==> final(self).spec_amount(other) == old(self).spec_amount(other),
    {
        match index {
            ResourceType::Ore => {
                self.ore = value;
            },
            ResourceType::Brick => {
                self.brick = value;
            },
            ResourceType::Grain => {
                self.grain = value;
            },
            ResourceType::Wool => {
                self.wool = value;
            },
            ResourceType::Lumber => {
                self.lumber = value;
            },
        }
    }
}

impl core::cmp::PartialOrd for ResourceCollection {
    /// Greater when strictly greater in every resource, less when strictly
    /// less in every resource, equal when equal, and unordered otherwise.
    fn partial_cmp(&self, other: &ResourceCollection) -> (r: Option<core::cmp::Ordering>) {
        if self.ore > other.ore && self.brick > other.brick && self.grain > other.grain
            && self.wool > other.wool && self.lumber > other.lumber {
            Some(core::cmp::Ordering::Greater)
        } else if self.ore < other.ore && self.brick < other.brick && self.grain < other.grain
            && self.wool < other.wool && self.lumber < other.lumber {
            Some(core::cmp::Ordering::Less)
        } else if self.ore == other.ore && self.brick == other.brick && self.grain == other.grain
            && self.wool == other.wool && self.lumber == other.lumber {
            Some(core::cmp::Ordering::Equal)
        } else {
            None
        }
    }
}

impl vstd::std_specs::cmp::PartialOrdSpecImpl for ResourceCollection {
    open spec fn obeys_partial_cmp_spec() -> bool {
        true
    }

    open spec fn partial_cmp_spec(&self, other: &ResourceCollection) -> Option<core::cmp::Ordering> {
        if self.ore > other.ore && self.brick > other.brick && self.grain > other.grain
            && self.wool > other.wool && self.lumber > other.lumber {
            Some(core::cmp::Ordering::Greater)
        } else if self.ore < other.ore && self.brick < other.brick && self.grain < other.grain
            && self.wool < other.wool && self.lumber < other.lumber {
            Some(core::cmp::Ordering::Less)
        } else if *self == *other {
            Some(core::cmp::Ordering::Equal)
        } else {
            None
        }
    }
}

impl core::ops::Add for ResourceCollection {
    type Output = ResourceCollection;

    /// The resource-wise sum.
    fn add(self, other: ResourceCollection) -> (r: ResourceCollection) {
        ResourceCollection {
            ore: self.ore + other.ore,
            brick: self.brick + other.brick,
            grain: self.grain + other.grain,
            wool: self.wool + other.wool,
            lumber: self.lumber + other.lumber,
        }
    }
}

impl vstd::std_specs::ops::AddSpecImpl for ResourceCollection {
    open spec fn obeys_add_spec() -> bool {
        true
    }

    open spec fn add_req(self, other: ResourceCollection) -> bool {
        self.ore + other.ore <= u32::MAX && self.brick + other.brick <= u32::MAX && self.grain
            + other.grain <= u32::MAX && self.wool + other.wool <= u32::MAX && self.lumber
            + other.lumber <= u32::MAX
    }

    open spec fn add_spec(self, other: ResourceCollection) -> ResourceCollection {
        ResourceCollection {
            ore: (self.ore + other.ore) as u32,
            brick: (self.brick + other.brick) as u32,
            grain: (self.grain + other.grain) as u32,
            wool: (self.wool + other.wool) as u32,
            lumber: (self.lumber + other.lumber) as u32,
        }
    }
}

impl core::ops::Sub for ResourceCollection {
    type Output = ResourceCollection;

    /// The resource-wise difference; defined only where nothing goes
    /// negative.
    fn sub(self, other: ResourceCollection) -> (r: ResourceCollection) {
        ResourceCollection {
            ore: self.ore - other.ore,
            brick: self.brick - other.brick,
            grain: self.grain - other.grain,
            wool: self.wool - other.wool,
            lumber: self.lumber - other.lumber,
        }
    }
}

impl vstd::std_specs::ops::SubSpecImpl for ResourceCollection {
    open spec fn obeys_sub_spec() -> bool {
        true
    }

    open spec fn sub_req(self, other: ResourceCollection) -> bool {
        self.spec_satisfies(other)
    }

    open spec fn sub_spec(self, other: ResourceCollection) -> ResourceCollection {
        ResourceCollection {
            ore: (self.ore - other.ore) as u32,
            brick: (self.brick - other.brick) as u32,
            grain: (self.grain - other.grain) as u32,
            wool: (self.wool - other.wool) as u32,
            lumber: (self.lumber - other.lumber) as u32,
        }
    }
}

} // verus!
