//! What crosses the wire between a match and a seat: positions, handles,
//! what a snapshot shows of each unit and seat, and the orders a seat gives.
//!
//! Positions are fixed point: a raw integer counts sixty-five thousand five
//! hundred and thirty-sixths of a world unit.

use vstd::prelude::*;

verus! {

/// How many raw steps make one world unit.
pub const WHOLE: i32 = 65536;

/// A number in fixed point, sixteen bits of it after the point.
#[derive(Clone, Copy, Debug, PartialEq, Eq, Structural)]
pub struct Fixed {
    /// The number times [`WHOLE`].
    pub raw: i32,
}

/// The floor of a division by a positive number.
pub open spec fn floor_div(a: int, b: int) -> int
    recommends
        b > 0,
{
    a / b
}

impl Fixed {
    /// Nought.
    pub fn zero() -> (f: Fixed)
        ensures
            f.raw == 0,
    {
        Fixed { raw: 0 }
    }

    /// One whole unit.
    pub fn one() -> (f: Fixed)
        ensures
            f.raw == WHOLE,
    {
        Fixed { raw: WHOLE }
    }

    /// A whole number of units.
    pub fn from_int(value: i32) -> (f: Fixed)
        requires
            -32768 <= value <= 32767,
        ensures
            f.raw == value * WHOLE,
    {
        Fixed { raw: value * WHOLE }
    }

    /// One number over another, rounded down to the nearest raw step.
    pub fn from_ratio(num: i32, den: i32) -> (f: Fixed)
        requires
            den > 0,
            i32::MIN <= floor_div(num * WHOLE, den as int) <= i32::MAX,
        ensures
            f.raw == floor_div(num * WHOLE, den as int),
    {
        let scaled = (num as i64) * (WHOLE as i64);
        let den = den as i64;
        let q = if scaled >= 0 {
            scaled / den
        } else {
            -((-scaled + den - 1) / den)
        };
        proof {
            if scaled < 0 {
                lemma_floor_of_negative(scaled as int, den as int);
            }
        }
        Fixed { raw: q as i32 }
    }

    /// The whole units, rounded down.
    pub fn to_int(self) -> (n: i32)
        ensures
            n == floor_div(self.raw as int, WHOLE as int),
    {
        let raw = self.raw as i64;
        let whole = WHOLE as i64;
        let q = if raw >= 0 {
            raw / whole
        } else {
            -((-raw + whole - 1) / whole)
        };
        proof {
            if raw < 0 {
                lemma_floor_of_negative(raw as int, whole as int);
            }
        }
        q as i32
    }

    /// The product, rounded down to the nearest raw step.
    pub fn times(self, other: Fixed) -> (f: Fixed)
        requires
            i32::MIN <= floor_div(self.raw * other.raw, WHOLE as int) <= i32::MAX,
        ensures
            f.raw == floor_div(self.raw * other.raw, WHOLE as int),
    {
        let product = (self.raw as i64) * (other.raw as i64);
        let whole = WHOLE as i64;
        let q = if product >= 0 {
            product / whole
        } else {
            -((-product + whole - 1) / whole)
        };
        proof {
            if product < 0 {
                lemma_floor_of_negative(product as int, whole as int);
            }
        }
        Fixed { raw: q as i32 }
    }

    /// The difference.
    pub fn minus(self, other: Fixed) -> (f: Fixed)
        requires
            i32::MIN <= self.raw - other.raw <= i32::MAX,
        ensures
            f.raw == self.raw - other.raw,
    {
        Fixed { raw: self.raw - other.raw }
    }

    /// The larger of two.
    pub fn max(self, other: Fixed) -> (f: Fixed)
        ensures
            f.raw == if self.raw >= other.raw { self.raw } else { other.raw },
    {
        if self.raw >= other.raw {
            self
        } else {
            other
        }
    }

    /// Held between two bounds.
    pub fn clamp(self, low: Fixed, high: Fixed) -> (f: Fixed)
        requires
            low.raw <= high.raw,
        ensures
            f.raw == if self.raw < low.raw {
                low.raw
            } else if self.raw > high.raw {
                high.raw
            } else {
                self.raw
            },
    {
        if self.raw < low.raw {
            low
        } else if self.raw > high.raw {
            high
        } else {
            self
        }
    }
}

/// Rounding a negative quotient down, done with the division of positives.
pub proof fn lemma_floor_of_negative(a: int, b: int)
    requires
        a < 0,
        b > 0,
    ensures
        -((-a + b - 1) / b) == a / b,
{
    let q = a / b;
    let r = a % b;
    assert(a == q * b + r && 0 <= r < b) by (nonlinear_arith)
        requires b > 0, q == a / b, r == a % b;
    let m = -a + b - 1;
    assert(m == (-q) * b + (b - 1 - r)) by (nonlinear_arith)
        requires m == -a + b - 1, a == q * b + r;
    assert(m / b == -q) by (nonlinear_arith)
        requires m == (-q) * b + (b - 1 - r), 0 <= b - 1 - r < b, b > 0;
}

/// A spot on the ground.
#[derive(Clone, Copy, Debug, PartialEq, Eq, Structural)]
pub struct Vec2 {
    /// Across.
    pub x: Fixed,
    /// Up.
    pub y: Fixed,
}

/// The square of the distance between two spots, in raw steps.
pub open spec fn dist2(one: Vec2, other: Vec2) -> int {
    let dx = one.x.raw - other.x.raw;
    let dy = one.y.raw - other.y.raw;
    dx * dx + dy * dy
}

/// Whether two spots stand no further apart than a reach, all in raw steps.
pub open spec fn near(one: Vec2, other: Vec2, reach: int) -> bool {
    reach >= 0 && dist2(one, other) <= reach * reach
}

/// Whether two spots stand strictly less than a reach apart.
pub open spec fn nearer_than(one: Vec2, other: Vec2, reach: int) -> bool {
    reach > 0 && dist2(one, other) < reach * reach
}

impl Vec2 {
    /// The spot at whole units across and up.
    pub fn from_ints(x: i32, y: i32) -> (v: Vec2)
        requires
            -32768 <= x <= 32767,
            -32768 <= y <= 32767,
        ensures
            v.x.raw == x * WHOLE,
            v.y.raw == y * WHOLE,
    {
        Vec2 { x: Fixed::from_int(x), y: Fixed::from_int(y) }
    }

    /// The origin.
    pub fn zero() -> (v: Vec2)
        ensures
            v.x.raw == 0,
            v.y.raw == 0,
    {
        Vec2 { x: Fixed::zero(), y: Fixed::zero() }
    }

    /// The square of the distance to another spot, in raw steps.
    pub fn distance_squared(self, other: Vec2) -> (d: i128)
        ensures
            d == dist2(self, other),
    {
        let dx = (self.x.raw as i128) - (other.x.raw as i128);
        let dy = (self.y.raw as i128) - (other.y.raw as i128);
        proof {
            lemma_square_bound(dx as int);
            lemma_square_bound(dy as int);
        }
        dx * dx + dy * dy
    }

    /// Whether another spot stands within a reach of this one.
    pub fn within(self, other: Vec2, reach: Fixed) -> (b: bool)
        ensures
            b == (dist2(self, other) <= reach.raw * reach.raw),
    {
        let r = reach.raw as i128;
        proof {
            lemma_square_bound(r as int);
        }
        self.distance_squared(other) <= r * r
    }

    /// This spot moved by an offset, each coordinate held inside the raw range.
    pub fn offset_by(self, by: Vec2) -> (v: Vec2)
        ensures
            v.x.raw == saturate(self.x.raw + by.x.raw),
            v.y.raw == saturate(self.y.raw + by.y.raw),
    {
        Vec2 {
            x: Fixed { raw: saturating_sum(self.x.raw as i64, by.x.raw as i64) },
            y: Fixed { raw: saturating_sum(self.y.raw as i64, by.y.raw as i64) },
        }
    }
}

/// The sum of two numbers, held inside the range of a raw coordinate.
pub fn saturating_sum(a: i64, b: i64) -> (s: i32)
    requires
        i32::MIN <= a <= i32::MAX,
        i32::MIN <= b <= i32::MAX,
    ensures
        s == saturate(a + b),
{
    let sum = a + b;
    if sum > i32::MAX as i64 {
        i32::MAX
    } else if sum < i32::MIN as i64 {
        i32::MIN
    } else {
        sum as i32
    }
}

/// A number held inside the range of a raw coordinate.
pub open spec fn saturate(v: int) -> int {
    if v > i32::MAX {
        i32::MAX as int
    } else if v < i32::MIN {
        i32::MIN as int
    } else {
        v
    }
}

/// The square of anything a raw coordinate difference can be stays well
/// inside the widest integer.
pub proof fn lemma_square_bound(d: int)
    requires
        -0x1_0000_0000 <= d <= 0x1_0000_0000,
    ensures
        0 <= d * d <= 0x1_0000_0000_0000_0000,
{
    assert(0 <= d * d <= 0x1_0000_0000_0000_0000) by (nonlinear_arith)
        requires -0x1_0000_0000 <= d <= 0x1_0000_0000;
}

/// A facing, in brads: a whole turn is sixty-five thousand five hundred and
/// thirty-six of them, counted anticlockwise from looking along the x axis.
#[derive(Clone, Copy, Debug, PartialEq, Eq, Structural)]
pub struct Angle {
    /// How far round.
    pub brads: u16,
}

/// A handle to a unit: a slot index and how many times the slot was reused.
#[derive(Clone, Copy, Debug, PartialEq, Eq, Structural)]
pub struct EntityId {
    /// Which slot.
    pub idx: u32,
    /// Which use of it.
    pub generation: u32,
}

/// A hero, as the wire numbers them.
#[derive(Clone, Copy, Debug, PartialEq, Eq, Structural)]
pub struct HeroId(pub u16);

/// An item, as the wire numbers them.
#[derive(Clone, Copy, Debug, PartialEq, Eq, Structural)]
pub struct ItemId(pub u16);

/// An ability, as the wire numbers them.
#[derive(Clone, Copy, Debug, PartialEq, Eq, Structural)]
pub struct AbilityId(pub u16);

/// A timed effect, as the wire numbers them.
#[derive(Clone, Copy, Debug, PartialEq, Eq, Structural)]
pub struct EffectId(pub u16);

/// A seat in the match.
#[derive(Clone, Copy, Debug, PartialEq, Eq, Structural)]
pub struct SlotId(pub u8);

/// One of a unit's ability slots.
#[derive(Clone, Copy, Debug, PartialEq, Eq, Structural)]
pub struct AbilitySlot(pub u8);

/// One of a unit's item slots.
#[derive(Clone, Copy, Debug, PartialEq, Eq, Structural)]
pub struct ItemSlot(pub u8);

/// A map, as the wire numbers them.
#[derive(Clone, Copy, Debug, PartialEq, Eq, Structural)]
pub struct MapId(pub u16);

/// A side.
#[derive(Clone, Copy, Debug, PartialEq, Eq, Structural)]
pub enum Team {
    /// The side whose fountain stands at the low corner.
    Radiant,
    /// The side whose fountain stands at the high corner.
    Dire,
    /// Neither.
    Neutral,
}

/// What a unit is.
#[derive(Clone, Copy, Debug, PartialEq, Eq, Structural)]
pub enum UnitKind {
    /// A hero.
    Hero,
    /// A lane creep that fights by hand.
    CreepMelee,
    /// The lane creep that carries the flag.
    CreepFlagbearer,
    /// A lane creep that shoots.
    CreepRanged,
    /// A lane creep that batters buildings.
    CreepSiege,
    /// A creep of the woods, belonging to no lane.
    CreepNeutral,
    /// A tower.
    Tower,
    /// A barracks.
    Barracks,
    /// The building a side loses the match with.
    Ancient,
    /// A side's fountain.
    Fountain,
    /// A courier.
    Courier,
    /// A ward.
    Ward,
}

/// How a chunk of damage is reduced before it is applied.
#[derive(Clone, Copy, Debug, PartialEq, Eq, Structural)]
pub enum DamageKind {
    /// Reduced by armor. Dealt by attacks and most melee abilities.
    Physical,
    /// Reduced by magic resistance. Dealt by most abilities.
    Magical,
    /// Not reduced by anything.
    Pure,
}

/// How an ability or an item is aimed.
#[derive(Clone, Copy, Debug, PartialEq, Eq, Structural)]
pub enum Aim {
    /// At nothing: it works on its holder.
    Own,
    /// At a spot on the ground.
    Point,
    /// At a unit.
    Unit,
    /// At a tree.
    Tree,
    /// At a building.
    Building,
}

/// Where an order is aimed.
#[derive(Clone, Copy, Debug, PartialEq, Eq, Structural)]
pub enum Target {
    /// At nothing: the order works on the unit itself, or where it stands.
    Nothing,
    /// At a position on the ground.
    Pos(Vec2),
    /// At a live entity. Must be visible to the issuing team.
    Unit(EntityId),
}

/// A single instruction from a participant to its own hero.
#[derive(Clone, Copy, Debug, PartialEq, Eq, Structural)]
pub enum Order {
    /// Go somewhere, ignoring enemies on the way.
    Move {
        /// Where to go.
        target: Target,
    },
    /// Fight whatever the order is aimed at.
    Attack {
        /// What to fight.
        target: Target,
    },
    /// Cast one of the hero's abilities.
    Cast {
        /// Which of the ability slots to cast.
        slot: AbilitySlot,
        /// What the ability is aimed at.
        target: Target,
    },
    /// Activate an item in the inventory.
    Use {
        /// Which inventory slot holds the item.
        slot: ItemSlot,
        /// What the item is aimed at.
        target: Target,
    },
    /// Lay an item out of the bag: on the ground, or into an ally's hands.
    Put {
        /// Which bag slot gives the item up.
        slot: ItemSlot,
        /// Where the item goes.
        target: Target,
    },
    /// Take an item lying on the ground into the first free bag slot.
    Take {
        /// The ground item to take.
        target: Target,
    },
    /// Buy an item. Legal only while standing in the fountain area.
    Buy {
        /// What to buy.
        item: ItemId,
    },
    /// Sell an item from the inventory for part of its cost.
    Sell {
        /// Which inventory slot to empty.
        slot: ItemSlot,
    },
    /// Move an item between two slots, swapping whatever is in the way.
    Swap {
        /// The slot being moved from.
        from: ItemSlot,
        /// The slot being moved to.
        to: ItemSlot,
    },
    /// Spend a skill point on an ability.
    Learn {
        /// Which ability slot to level.
        slot: AbilitySlot,
    },
}

/// A single thing that happened on one tick.
#[derive(Clone, Copy, Debug, PartialEq, Eq, Structural)]
pub enum EventKind {
    /// A unit took damage.
    Damaged {
        /// Who dealt it. Absent for environmental damage.
        source: Option<EntityId>,
        /// Who took it.
        target: EntityId,
        /// Health actually lost, after armor and resistance.
        amount: i32,
        /// Which reduction applied.
        kind: DamageKind,
        /// Whether this hit was a critical strike.
        crit: bool,
    },
    /// A unit was mended by somebody's hand.
    Healed {
        /// Who mended it.
        source: Option<EntityId>,
        /// Who was mended.
        target: EntityId,
        /// Health the mending is good for.
        amount: i32,
        /// Mana it restores alongside.
        mana: i32,
    },
    /// A unit died.
    Died {
        /// The unit that died.
        unit: EntityId,
        /// Who landed the killing blow, if a unit did.
        killer: Option<EntityId>,
        /// Whether the killer was on the same team, making this a deny.
        denied: bool,
        /// Gold the killing side was paid for it.
        gold: i32,
    },
    /// A hero finished a cast and the ability took effect.
    AbilityCast {
        /// Who cast it.
        caster: EntityId,
        /// Which ability.
        ability: AbilityId,
    },
    /// A hero gained a level.
    LevelUp {
        /// Which hero.
        unit: EntityId,
        /// The level just reached.
        level: u8,
    },
    /// A hero bought an item.
    ItemBought {
        /// Which seat bought it.
        slot: SlotId,
        /// What was bought.
        item: ItemId,
    },
    /// A building was destroyed.
    StructureDestroyed {
        /// Which building.
        unit: EntityId,
        /// Which team lost it.
        team: Team,
    },
}

/// One ability slot as a snapshot shows it.
#[derive(Clone, Copy, Debug, PartialEq, Eq, Structural)]
pub struct AbilityView {
    /// Which ability sits in the slot.
    pub id: AbilityId,
    /// Points spent on it.
    pub level: u8,
    /// The most points it takes.
    pub max_level: u8,
    /// Ticks before it may be cast again.
    pub cooldown_left: u32,
    /// What a cast costs.
    pub mana_cost: i32,
    /// How far a cast reaches, in world units.
    pub range: i32,
    /// How it is aimed.
    pub aim: Aim,
    /// Whether it works on its own and is never cast.
    pub passive: bool,
    /// Whether it is a toggle that is on.
    pub on: bool,
    /// Whether a skill point could go into it now.
    pub can_level: bool,
}

/// One item slot as a snapshot shows it.
#[derive(Clone, Copy, Debug, PartialEq, Eq, Structural)]
pub struct ItemView {
    /// Which item.
    pub id: ItemId,
    /// Charges left, for an item that has them.
    pub charges: Option<u8>,
    /// Ticks before it may be used again.
    pub cooldown_left: u32,
    /// Ticks before a freshly moved item works.
    pub mute_left: u32,
    /// Which setting it is on, for an item that has settings.
    pub mode: Option<u8>,
    /// What a use costs.
    pub mana_cost: i32,
    /// How far a use reaches, in world units.
    pub range: i32,
    /// How it is aimed. Absent for one that is never used.
    pub aim: Option<Aim>,
    /// Whether it is marked to be sold.
    pub for_sale: bool,
}

/// One timed effect showing on a unit.
#[derive(Clone, Copy, Debug, PartialEq, Eq, Structural)]
pub struct EffectView {
    /// Which effect.
    pub id: EffectId,
    /// Ticks before it wears off. Absent for one that does not.
    pub ticks_left: Option<u32>,
    /// How many of it are stacked, for one that stacks.
    pub stacks: Option<u32>,
}

/// Conditions a unit is under, one bit each.
#[derive(Clone, Copy, Debug, PartialEq, Eq, Structural)]
pub struct StatusFlags {
    /// The bits.
    pub bits: u32,
}

/// One of the three attributes.
#[derive(Clone, Copy, Debug, PartialEq, Eq, Structural)]
pub enum Attribute {
    /// Strength.
    Strength,
    /// Agility.
    Agility,
    /// Intelligence.
    Intelligence,
}

/// A hero's three attributes.
#[derive(Clone, Copy, Debug, PartialEq, Eq, Structural)]
pub struct Attributes {
    /// Strength.
    pub strength: i32,
    /// Agility.
    pub agility: i32,
    /// Intelligence.
    pub intelligence: i32,
}

impl Attributes {
    /// The same number for all three.
    pub fn all(value: i32) -> (a: Attributes)
        ensures
            a.strength == value && a.agility == value && a.intelligence == value,
    {
        Attributes { strength: value, agility: value, intelligence: value }
    }
}

/// One unit as a snapshot shows it.
#[derive(Clone, Debug)]
pub struct UnitView {
    /// Its handle.
    pub id: EntityId,
    /// What it is.
    pub kind: UnitKind,
    /// Whose it is.
    pub team: Team,
    /// Where it stands.
    pub pos: Vec2,
    /// Which way it looks.
    pub facing: Angle,
    /// Health left.
    pub hp: i32,
    /// Health when whole.
    pub max_hp: i32,
    /// Mana left.
    pub mana: i32,
    /// Mana when full.
    pub max_mana: i32,
    /// How fast it walks.
    pub move_speed: Fixed,
    /// What a swing of it deals before armor.
    pub attack_damage: i32,
    /// How far its swing reaches, edge to edge.
    pub attack_range: Fixed,
    /// Ticks between the start of one swing and the next.
    pub attack_interval: u32,
    /// Attack speed, as the stats count it.
    pub attack_speed: i32,
    /// Armor.
    pub armor: Fixed,
    /// Magic resistance, as a part of one.
    pub magic_resist: Fixed,
    /// How wide its body is.
    pub radius: Fixed,
    /// How far it sees.
    pub vision_radius: Fixed,
    /// How far it sees what is hidden.
    pub true_sight_radius: Fixed,
    /// Conditions it is under.
    pub statuses: StatusFlags,
    /// Its attributes.
    pub attributes: Attributes,
    /// Its main attribute, for a hero.
    pub primary: Option<Attribute>,
    /// Which hero it is, for a hero.
    pub hero: Option<HeroId>,
    /// The seat that drives it, for one a seat drives.
    pub owner: Option<SlotId>,
    /// Its level.
    pub level: u8,
    /// Its ability slots.
    pub abilities: Vec<AbilityView>,
    /// Its item slots: inventory, then backpack.
    pub items: Vec<Option<ItemView>>,
    /// Effects showing on it.
    pub effects: Vec<EffectView>,
}

/// What a fallen hero leaves behind: its book and its bag.
#[derive(Clone, Debug)]
pub struct Kit {
    /// Its ability slots.
    pub abilities: Vec<AbilityView>,
    /// Its item slots.
    pub items: Vec<Option<ItemView>>,
}

/// One seat's row of the scoreboard.
#[derive(Clone, Debug)]
pub struct PlayerView {
    /// Which seat.
    pub slot: SlotId,
    /// Whose side it plays for.
    pub team: Team,
    /// Which hero it picked.
    pub hero: HeroId,
    /// The body it drives, while one stands.
    pub unit: Option<EntityId>,
    /// Its hero's level.
    pub level: u8,
    /// Experience gathered.
    pub xp: u32,
    /// Gold in hand. Absent when the viewer may not see it.
    pub gold: Option<i32>,
    /// The stash. Absent when the viewer may not see it.
    pub stash: Option<Vec<Option<ItemView>>>,
    /// What its fallen hero left, while it is down.
    pub kit: Option<Kit>,
    /// Kills.
    pub kills: u32,
    /// Deaths.
    pub deaths: u32,
    /// Assists.
    pub assists: u32,
    /// Last hits.
    pub last_hits: u32,
    /// Denies.
    pub denies: u32,
    /// Ticks before its hero stands again.
    pub respawn_left: u32,
}

/// One tick as the wire carries it.
#[derive(Clone, Debug)]
pub struct WorldView {
    /// Which tick.
    pub tick: u32,
    /// The side it is seen from. Absent for a view of everything.
    pub viewer: Option<Team>,
    /// Every unit in sight.
    pub units: Vec<UnitView>,
    /// Every seat.
    pub players: Vec<PlayerView>,
    /// The map's own trees that are down, by their place in the match's list.
    pub felled_trees: Vec<u32>,
    /// Trees put up during the match.
    pub planted_trees: Vec<Vec2>,
}

/// One row of the shop.
#[derive(Clone, Debug)]
pub struct ShopEntry {
    /// Which item.
    pub id: ItemId,
    /// What it costs whole.
    pub cost: i32,
    /// What it is built from. Empty for one bought whole.
    pub components: Vec<ItemId>,
}

/// How a match steps.
#[derive(Clone, Copy, Debug, PartialEq, Eq, Structural)]
pub enum TickMode {
    /// The server waits for every seat to say it is done thinking.
    Lockstep,
    /// The server steps on its own clock.
    Realtime,
}

/// Which seat picked which hero for which side.
#[derive(Clone, Copy, Debug, PartialEq, Eq, Structural)]
pub struct Pick {
    /// The seat.
    pub slot: SlotId,
    /// Its side.
    pub team: Team,
    /// Its hero.
    pub hero: HeroId,
}

/// The terms of a match, sent once when it begins.
#[derive(Clone, Debug)]
pub struct MatchInfo {
    /// Which match.
    pub match_id: u64,
    /// Which map.
    pub map: MapId,
    /// Simulation ticks in a second.
    pub tick_rate: u16,
    /// Ticks before the creeps first set out.
    pub pregame_ticks: u32,
    /// The map's trees, in the order the match names them.
    pub trees: Vec<Vec2>,
    /// How the match steps.
    pub mode: TickMode,
    /// Who picked what.
    pub picks: Vec<Pick>,
    /// Everything on sale.
    pub shop: Vec<ShopEntry>,
}

} // verus!
