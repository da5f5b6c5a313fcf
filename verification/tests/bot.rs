//! The bot's tests, with the views they read built by hand.

use bota::aim::{
    after_mitigation, angle_delta, facing_gap, facing_towards, heading_of, isqrt, point_along,
    spot_ahead, within,
};
use bota::ask::Ask;
use bota::numbers::RESEND_TICKS;
use bota::proto::{
    AbilityId, AbilitySlot, AbilityView, Aim, Angle, Attribute, Attributes, DamageKind,
    EffectId, EffectView, EntityId, Fixed, HeroId, ItemId, ItemView, MapId, MatchInfo, Order,
    Pick, PlayerView, ShopEntry, SlotId, StatusFlags, Target, Team, TickMode, UnitKind, UnitView,
    Vec2, WorldView,
};
use bota::beat::Beat;
use bota::doing::{allowed, Deed, DEEDS};
use bota::field::Field;
use bota::fiend::{fiend_sighting, fiend_spell, Sighting};
use bota::lane::{other_side, Lane, Role, Which};
use bota::mind::{FirstAllowed, Mind, Nothing};
use bota::policy::{mid_swing, press_a_wand, ready_item, shake, shopping, tidy, Rung, SWING_PATIENCE};
use bota::numbers::{
    BOUNCE, BRANCH, CIRCLET, CLARITY, CRIT, DELIVER, FRENZY, MAGIC_STICK, MAGIC_WAND, MANTLE,
    MEAT_HOOK, NECROMASTERY, NULL_TALISMAN, PRESENCE, RAZE_FAR, RAZE_MID,
    RAZE_NEAR, RECIPE_MAGIC_WAND, RECIPE_NULL_TALISMAN, REQUIEM, SAGES_MASK, SALVE, SCROLL,
    SHADOW_FIEND, SHAKE_TICKS, SYLLA, TAKE_STASH, TANGO, VOLLEY,
};
use bota::shop::{is_consumable, shopping_list, Errands, Stall, FIEND_GOODS, SYLLA_GOODS};
use bota::study::{next_point, plan_of, FIEND_PLAN, SYLLA_PLAN};
use bota::swiss::{pairs_of, Selection};
use bota::sylla::sylla_spell;
use bota::want::{same_want, Steady};

// Views built by hand, for tests that need a tick to read. Every field is
// listed: what the bot should make of a new one is a decision, not a default.

/// A handle with a given index, at the first generation.
fn id(idx: u32) -> EntityId {
    EntityId { idx, generation: 1 }
}

/// A hero standing somewhere, with nothing on it and nothing in its bag.
fn hero(idx: u32, team: Team, pos: Vec2) -> UnitView {
    UnitView {
        id: id(idx),
        kind: UnitKind::Hero,
        team,
        pos,
        facing: Angle { brads: 0 },
        hp: 600,
        max_hp: 600,
        mana: 300,
        max_mana: 300,
        move_speed: Fixed::from_int(300),
        attack_damage: 50,
        attack_range: Fixed::from_int(500),
        attack_interval: 51,
        attack_speed: 100,
        armor: Fixed::from_int(2),
        magic_resist: Fixed::from_ratio(1, 4),
        radius: Fixed::from_int(24),
        vision_radius: Fixed::from_int(1800),
        true_sight_radius: Fixed::zero(),
        statuses: StatusFlags { bits: 0 },
        attributes: Attributes::all(20),
        primary: Some(Attribute::Agility),
        hero: Some(HeroId(2)),
        owner: Some(SlotId(0)),
        level: 1,
        abilities: Vec::new(),
        items: vec![None; 9],
        effects: Vec::new(),
    }
}

/// A melee lane creep standing somewhere.
fn creep(idx: u32, team: Team, pos: Vec2, hp: i32) -> UnitView {
    UnitView {
        id: id(idx),
        kind: UnitKind::CreepMelee,
        team,
        pos,
        facing: Angle { brads: 0 },
        hp,
        max_hp: 550,
        mana: 0,
        max_mana: 0,
        move_speed: Fixed::from_int(325),
        attack_damage: 21,
        attack_range: Fixed::from_int(100),
        attack_interval: 30,
        attack_speed: 100,
        armor: Fixed::from_int(2),
        magic_resist: Fixed::zero(),
        radius: Fixed::from_int(16),
        vision_radius: Fixed::from_int(750),
        true_sight_radius: Fixed::zero(),
        statuses: StatusFlags { bits: 0 },
        attributes: Attributes::all(0),
        primary: None,
        hero: None,
        owner: None,
        level: 0,
        abilities: Vec::new(),
        items: Vec::new(),
        effects: Vec::new(),
    }
}

/// A building of one kind, standing somewhere.
fn works(idx: u32, kind: UnitKind, team: Team, pos: Vec2) -> UnitView {
    UnitView {
        id: id(idx),
        kind,
        team,
        pos,
        facing: Angle { brads: 0 },
        hp: 1800,
        max_hp: 1800,
        mana: 0,
        max_mana: 0,
        move_speed: Fixed::zero(),
        attack_damage: 110,
        attack_range: Fixed::from_int(700),
        attack_interval: 29,
        attack_speed: 100,
        armor: Fixed::from_int(12),
        magic_resist: Fixed::zero(),
        radius: Fixed::from_int(40),
        vision_radius: Fixed::from_int(1900),
        true_sight_radius: Fixed::from_int(700),
        statuses: StatusFlags { bits: 0 },
        attributes: Attributes::all(0),
        primary: None,
        hero: None,
        owner: None,
        level: 0,
        abilities: Vec::new(),
        items: Vec::new(),
        effects: Vec::new(),
    }
}

/// One ability slot at a level, ready to cast.
fn ability(id: u16, level: u8, range: i32) -> AbilityView {
    AbilityView {
        id: AbilityId(id),
        level,
        max_level: 4,
        cooldown_left: 0,
        mana_cost: 75,
        range,
        aim: Aim::Own,
        passive: false,
        on: false,
        can_level: false,
    }
}

/// One item slot, with charges left and nothing waiting.
fn item(id: u16) -> ItemView {
    ItemView {
        id: ItemId(id),
        charges: Some(1),
        cooldown_left: 0,
        mute_left: 0,
        mode: None,
        mana_cost: 0,
        range: 0,
        aim: Some(Aim::Unit),
        for_sale: false,
    }
}

/// A gathering of souls showing on a hero.
fn souls(many: u32) -> EffectView {
    EffectView {
        id: EffectId(11),
        ticks_left: None,
        stacks: Some(many),
    }
}

/// The scoreboard row of one seat, with a hero standing.
fn seat(slot: SlotId, team: Team, hero: HeroId, unit: Option<EntityId>) -> PlayerView {
    PlayerView {
        slot,
        team,
        hero,
        unit,
        level: 1,
        xp: 0,
        gold: Some(600),
        stash: Some(vec![None; 6]),
        kit: None,
        kills: 0,
        deaths: 0,
        assists: 0,
        last_hits: 0,
        denies: 0,
        respawn_left: 0,
    }
}

/// A snapshot of a tick holding the units and seats given.
fn tick(at: u32, units: Vec<UnitView>, players: Vec<PlayerView>) -> WorldView {
    WorldView {
        tick: at,
        viewer: Some(Team::Radiant),
        units,
        players,
        felled_trees: Vec::new(),
        planted_trees: Vec::new(),
    }
}

/// The terms of a match selling the shop rows given.
fn started(shop: Vec<ShopEntry>, trees: Vec<Vec2>) -> MatchInfo {
    MatchInfo {
        match_id: 1,
        map: MapId(0),
        tick_rate: 30,
        pregame_ticks: 900,
        trees,
        mode: TickMode::Lockstep,
        picks: vec![Pick {
            slot: SlotId(0),
            team: Team::Radiant,
            hero: HeroId(2),
        }],
        shop,
    }
}

/// One row of the shop.
fn sold(id: u16, cost: i32, components: Vec<u16>) -> ShopEntry {
    ShopEntry {
        id: ItemId(id),
        cost,
        components: components.into_iter().map(ItemId).collect(),
    }
}

/// The two fountains of the Dota map, which every lane is laid out from.
fn fountains() -> Vec<UnitView> {
    vec![
        works(900, UnitKind::Fountain, Team::Radiant, Vec2::from_ints(1760, 2278)),
        works(901, UnitKind::Fountain, Team::Dire, Vec2::from_ints(16624, 16064)),
    ]
}

// The geometry and the damage arithmetic mirrored from the server.

#[test]
fn a_facing_is_the_inverse_of_its_heading() {
    for brads in (0..65536).step_by(97) {
        let facing = Angle {
            brads: brads as u16,
        };
        let from = Vec2::from_ints(4000, 4000);
        let there = from.offset_by(heading_of(facing));
        assert_eq!(facing_towards(from, there), facing, "at {brads} brads");
    }
}

#[test]
fn a_facing_is_exact_on_the_axes_and_the_diagonals() {
    let from = Vec2::zero();
    assert_eq!(
        facing_towards(from, Vec2::from_ints(100, 0)),
        Angle { brads: 0 }
    );
    assert_eq!(
        facing_towards(from, Vec2::from_ints(100, 100)),
        Angle { brads: 8192 }
    );
    assert_eq!(
        facing_towards(from, Vec2::from_ints(0, 100)),
        Angle { brads: 16384 }
    );
    assert_eq!(
        facing_towards(from, Vec2::from_ints(-100, 0)),
        Angle { brads: 32768 }
    );
}

#[test]
fn the_gap_between_two_facings_ignores_which_way_round() {
    let one = Angle { brads: 100 };
    let other = Angle { brads: 65500 };
    assert_eq!(facing_gap(one, other), 136);
    assert_eq!(facing_gap(other, one), 136);
}

#[test]
fn a_point_along_a_line_keeps_its_distance() {
    let from = Vec2::from_ints(1000, 1000);
    let towards = Vec2::from_ints(1000, 5000);
    assert_eq!(point_along(from, towards, 700), Vec2::from_ints(1000, 1700));
}

#[test]
fn a_point_along_no_line_at_all_is_where_it_started() {
    let from = Vec2::from_ints(1000, 1000);
    assert_eq!(point_along(from, from, 700), from);
}

#[test]
fn a_raze_lands_its_own_reach_ahead() {
    let mut me = hero(1, Team::Radiant, Vec2::from_ints(4000, 4000));
    me.facing = Angle { brads: 16384 };
    let lands = spot_ahead(&me, 450);
    assert_eq!(lands, Vec2::from_ints(4000, 4450));
    let mark = creep(2, Team::Dire, Vec2::from_ints(4100, 4600), 550);
    assert!(within(&mark, lands, 250));
    let far = creep(3, Team::Dire, Vec2::from_ints(4000, 4800), 550);
    assert!(!within(&far, lands, 250));
}

#[test]
fn armor_takes_its_share_of_a_blow() {
    let mut mark = creep(1, Team::Dire, Vec2::zero(), 550);
    mark.armor = Fixed::from_int(2);
    // A hundred through two armor: 100 * 100 / (100 + 6 * 2).
    assert_eq!(after_mitigation(100, DamageKind::Physical, &mark), 89);
    mark.armor = Fixed::from_int(-5);
    assert_eq!(after_mitigation(100, DamageKind::Physical, &mark), 100);
}

#[test]
fn resistance_takes_its_share_of_a_spell() {
    let mut mark = hero(1, Team::Dire, Vec2::zero());
    mark.magic_resist = Fixed::from_ratio(1, 4);
    assert_eq!(after_mitigation(200, DamageKind::Magical, &mark), 150);
    assert_eq!(after_mitigation(200, DamageKind::Pure, &mark), 200);
}

#[test]
fn a_square_root_rounds_down() {
    assert_eq!(isqrt(0), 0);
    assert_eq!(isqrt(-4), 0);
    assert_eq!(isqrt(35), 5);
    assert_eq!(isqrt(36), 6);
}

#[test]
fn a_rotation_is_the_short_way_round_and_a_half_turn_goes_forward() {
    assert_eq!(angle_delta(Angle { brads: 100 }, Angle { brads: 65500 }), -136);
    assert_eq!(angle_delta(Angle { brads: 65500 }, Angle { brads: 100 }), 136);
    assert_eq!(angle_delta(Angle { brads: 0 }, Angle { brads: 32768 }), 32768);
    assert_eq!(angle_delta(Angle { brads: 32768 }, Angle { brads: 0 }), 32768);
    assert_eq!(facing_gap(Angle { brads: 7 }, Angle { brads: 7 }), 0);
}

#[test]
fn a_heading_is_one_octant_span_long_along_its_longer_leg() {
    assert_eq!(heading_of(Angle { brads: 0 }), Vec2::from_ints(8192, 0));
    assert_eq!(heading_of(Angle { brads: 8192 }), Vec2::from_ints(8192, 8192));
    assert_eq!(heading_of(Angle { brads: 40000 }), Vec2::from_ints(-8192, -7232));
}

#[test]
fn a_magical_blow_rounds_down() {
    let mut mark = hero(1, Team::Dire, Vec2::zero());
    mark.magic_resist = Fixed::from_ratio(1, 3);
    // Two thirds of a hundred, and a raw step more kept than that, is 66.
    assert_eq!(after_mitigation(100, DamageKind::Magical, &mark), 66);
    mark.magic_resist = Fixed::from_int(2);
    assert_eq!(after_mitigation(100, DamageKind::Magical, &mark), 0);
}

// Saying a want, and not saying it again straight away.

#[test]
fn the_first_want_of_all_goes_out() {
    let mut steady = Steady::new();
    assert!(steady.worth_sending(0, Ask::walk_to(Vec2::from_ints(100, 100))));
}

#[test]
fn the_want_in_hand_is_not_said_again_straight_away() {
    let mut steady = Steady::new();
    let ask = Ask::swing_at(id(4));
    assert!(steady.worth_sending(10, ask));
    assert!(!steady.worth_sending(11, ask));
    assert!(!steady.worth_sending(10 + RESEND_TICKS - 1, ask));
    assert!(steady.worth_sending(10 + RESEND_TICKS, ask));
}

#[test]
fn a_different_want_goes_out_at_once() {
    let mut steady = Steady::new();
    assert!(steady.worth_sending(10, Ask::swing_at(id(4))));
    assert!(steady.worth_sending(11, Ask::swing_at(id(5))));
}

#[test]
fn two_walks_a_step_apart_are_one_want() {
    let mut steady = Steady::new();
    assert!(steady.worth_sending(10, Ask::walk_to(Vec2::from_ints(4000, 4000))));
    assert!(!steady.worth_sending(11, Ask::walk_to(Vec2::from_ints(4050, 4000))));
    assert!(steady.worth_sending(12, Ask::walk_to(Vec2::from_ints(4400, 4000))));
}

#[test]
fn a_walk_and_a_fight_to_the_same_spot_are_not_one_want() {
    let spot = Vec2::from_ints(4000, 4000);
    assert!(!same_want(Ask::walk_to(spot), Ask::fight_towards(spot)));
    assert!(same_want(Ask::walk_to(spot), Ask::walk_to(spot)));
}

#[test]
fn a_want_for_the_courier_is_not_a_want_for_the_hero() {
    let order = Order::Cast {
        slot: AbilitySlot(0),
        target: Target::Nothing,
    };
    assert!(!same_want(Ask::mine(order), Ask::of(id(9), order)));
}

#[test]
fn forgetting_lets_the_same_want_out_again() {
    let mut steady = Steady::new();
    let ask = Ask::swing_at(id(4));
    assert!(steady.worth_sending(10, ask));
    assert!(!steady.worth_sending(11, ask));
    steady.forget();
    assert!(steady.worth_sending(12, ask));
}

#[test]
fn walks_exactly_the_drift_apart_are_two_wants() {
    let one = Ask::walk_to(Vec2::from_ints(4000, 4000));
    let other = Ask::walk_to(Vec2::from_ints(4120, 4000));
    assert!(!same_want(one, other));
    let near = Ask::walk_to(Vec2::from_ints(4119, 4000));
    assert!(same_want(one, near));
}

#[test]
fn the_constructors_fill_in_the_hero_and_the_order() {
    let spot = Vec2::from_ints(10, 20);
    assert_eq!(Ask::walk_to(spot), Ask { unit: None, order: Order::Move { target: Target::Pos(spot) } });
    assert_eq!(Ask::of(id(3), Order::Sell { slot: bota::proto::ItemSlot(2) }).unit, Some(id(3)));
    assert_eq!(Ask::buy(ItemId(7)).order, Order::Buy { item: ItemId(7) });
    assert_eq!(Ask::learn(AbilitySlot(1)).order, Order::Learn { slot: AbilitySlot(1) });
}

// Reading one tick into the shape the policy weighs.

/// The middle of the map, where the mid lane's towers face each other.
fn mid() -> Vec2 {
    Vec2::from_ints(8700, 8800)
}

fn field_of(units: Vec<UnitView>, me: Option<u32>) -> WorldView {
    let mut all = fountains();
    all.extend(units);
    let seat = seat(SlotId(0), Team::Radiant, HeroId(2), me.map(id));
    tick(1000, all, vec![seat])
}

#[test]
fn creeps_come_out_nearest_first() {
    let view = field_of(
        vec![
            hero(1, Team::Radiant, mid()),
            creep(2, Team::Dire, Vec2::from_ints(9200, 9300), 550),
            creep(3, Team::Dire, Vec2::from_ints(8900, 9000), 550),
        ],
        Some(1),
    );
    let field = Field::of(&view, SlotId(0), Role::Mid).expect("a seat in the view");
    assert_eq!(field.creeps.len(), 2);
    assert_eq!(field.creeps[0].id, id(3));
    assert_eq!(field.creeps[1].id, id(2));
}

#[test]
fn a_wave_on_another_lane_is_not_this_hero_s_business() {
    let far = Vec2::from_ints(mid().x.to_int() + bota::field::NEARBY + 500, mid().y.to_int());
    let view = field_of(
        vec![hero(1, Team::Radiant, mid()), creep(2, Team::Dire, far, 550)],
        Some(1),
    );
    let field = Field::of(&view, SlotId(0), Role::Mid).expect("a seat in the view");
    assert!(field.creeps.is_empty());
}

#[test]
fn a_seat_with_no_body_standing_reads_as_one() {
    let view = field_of(vec![], None);
    let field = Field::of(&view, SlotId(0), Role::Mid).expect("a seat in the view");
    assert!(!field.alive());
    assert_eq!(field.at(), Vec2::from_ints(1760, 2278));
}

#[test]
fn the_shop_reaches_as_far_as_it_reaches() {
    let at_home = field_of(vec![hero(1, Team::Radiant, Vec2::from_ints(2000, 2400))], Some(1));
    let field = Field::of(&at_home, SlotId(0), Role::Mid).expect("a seat in the view");
    assert!(field.at_shop());

    let in_lane = field_of(vec![hero(1, Team::Radiant, mid())], Some(1));
    let field = Field::of(&in_lane, SlotId(0), Role::Mid).expect("a seat in the view");
    assert!(!field.at_shop());
}

#[test]
fn an_ability_is_found_by_what_sits_in_the_slot() {
    let mut me = hero(1, Team::Radiant, mid());
    me.abilities = vec![ability(NECROMASTERY, 1, 0), ability(RAZE_NEAR, 2, 200)];
    let view = field_of(vec![me], Some(1));
    let field = Field::of(&view, SlotId(0), Role::Mid).expect("a seat in the view");
    let (slot, held) = field.ability(AbilityId(RAZE_NEAR)).expect("the raze is carried");
    assert_eq!(slot, AbilitySlot(1));
    assert_eq!(held.level, 2);
    assert_eq!(field.ability(AbilityId(MEAT_HOOK)), None);
}

#[test]
fn only_the_working_slots_of_a_bag_are_reached_into() {
    let mut me = hero(1, Team::Radiant, mid());
    me.items[0] = Some(item(TANGO));
    me.items[7] = Some(item(SALVE));
    let view = field_of(vec![me], Some(1));
    let field = Field::of(&view, SlotId(0), Role::Mid).expect("a seat in the view");
    assert_eq!(
        field.item(ItemId(TANGO)).map(|(slot, _)| slot),
        Some(bota::proto::ItemSlot(0))
    );
    assert_eq!(field.item(ItemId(SALVE)), None, "the backpack works nothing");
}

#[test]
fn souls_are_counted_off_what_shows_on_the_hero() {
    let mut me = hero(1, Team::Radiant, mid());
    me.effects = vec![souls(7)];
    let view = field_of(vec![me], Some(1));
    let field = Field::of(&view, SlotId(0), Role::Mid).expect("a seat in the view");
    assert_eq!(field.souls(), 7);
}

#[test]
fn towers_of_each_side_are_told_apart() {
    let view = field_of(
        vec![
            hero(1, Team::Radiant, mid()),
            works(2, UnitKind::Tower, Team::Radiant, Vec2::from_ints(7672, 7808)),
            works(3, UnitKind::Tower, Team::Dire, Vec2::from_ints(9740, 9868)),
            works(4, UnitKind::Ancient, Team::Dire, Vec2::from_ints(14744, 14216)),
        ],
        Some(1),
    );
    let field = Field::of(&view, SlotId(0), Role::Mid).expect("a seat in the view");
    assert_eq!(field.own_towers.len(), 1);
    assert_eq!(field.enemy_towers.len(), 1);
    assert_eq!(field.enemy_works.len(), 2);
    assert_eq!(field.enemy_works[0].kind, UnitKind::Tower);
}

#[test]
fn a_body_is_in_reach_edge_to_edge() {
    // Five hundred of reach, twenty-four and sixteen of body: a creep 540
    // away, centre to centre, is just reached; one at 541 is not.
    let view = field_of(
        vec![
            hero(1, Team::Radiant, Vec2::from_ints(4000, 4000)),
            creep(2, Team::Dire, Vec2::from_ints(4540, 4000), 550),
            creep(3, Team::Dire, Vec2::from_ints(4000, 4541), 550),
        ],
        Some(1),
    );
    let field = Field::of(&view, SlotId(0), Role::Mid).expect("a seat in the view");
    assert!(field.in_reach(&view.units[3]));
    assert!(!field.in_reach(&view.units[4]));
}

#[test]
fn foes_within_a_reach_are_counted_from_the_hero() {
    let view = field_of(
        vec![
            hero(1, Team::Radiant, Vec2::from_ints(4000, 4000)),
            hero(5, Team::Dire, Vec2::from_ints(4900, 4000)),
            hero(6, Team::Dire, Vec2::from_ints(4000, 5200)),
        ],
        Some(1),
    );
    let field = Field::of(&view, SlotId(0), Role::Mid).expect("a seat in the view");
    let near: Vec<EntityId> = field.foes_within(1000).iter().map(|u| u.id).collect();
    assert_eq!(near, vec![id(5)]);
    assert_eq!(field.foes_within(1200).len(), 2);
    assert!(field.foes_within(-1).is_empty());
    assert_eq!(field.gold(), 600);
    assert_eq!(field.free_slots(), 6);
    assert_eq!(field.foe(), Team::Dire);
}

// Laying a lane out from the buildings a snapshot shows.

/// The Dota map's tier-one towers, both sides, all three lanes.
fn towers() -> Vec<UnitView> {
    vec![
        works(10, UnitKind::Tower, Team::Radiant, Vec2::from_ints(7672, 7808)),
        works(11, UnitKind::Tower, Team::Radiant, Vec2::from_ints(2880, 11072)),
        works(12, UnitKind::Tower, Team::Radiant, Vec2::from_ints(14076, 2837)),
        works(13, UnitKind::Tower, Team::Dire, Vec2::from_ints(9740, 9868)),
        works(14, UnitKind::Tower, Team::Dire, Vec2::from_ints(3941, 15252)),
        works(15, UnitKind::Tower, Team::Dire, Vec2::from_ints(15485, 6976)),
    ]
}

fn laid_view() -> WorldView {
    let mut units = fountains();
    units.extend(towers());
    tick(1000, units, vec![seat(SlotId(0), Team::Radiant, HeroId(2), None)])
}

#[test]
fn a_tower_is_put_in_the_lane_it_stands_in() {
    let view = laid_view();
    let mid = Lane::read(&view, Which::Mid, Team::Radiant).expect("fountains stand");
    assert_eq!(mid.mine, Some(Vec2::from_ints(7672, 7808)));
    assert_eq!(mid.theirs, Some(Vec2::from_ints(9740, 9868)));

    let top = Lane::read(&view, Which::Top, Team::Radiant).expect("fountains stand");
    assert_eq!(top.mine, Some(Vec2::from_ints(2880, 11072)));
    assert_eq!(top.theirs, Some(Vec2::from_ints(3941, 15252)));

    let bot = Lane::read(&view, Which::Bottom, Team::Radiant).expect("fountains stand");
    assert_eq!(bot.mine, Some(Vec2::from_ints(14076, 2837)));
    assert_eq!(bot.theirs, Some(Vec2::from_ints(15485, 6976)));
}

#[test]
fn a_lane_reads_the_same_way_round_from_either_side() {
    let view = laid_view();
    let ours = Lane::read(&view, Which::Mid, Team::Radiant).expect("fountains stand");
    let theirs = Lane::read(&view, Which::Mid, Team::Dire).expect("fountains stand");
    assert_eq!(ours.route.first(), Some(&Vec2::from_ints(1760, 2278)));
    assert_eq!(theirs.route.first(), Some(&Vec2::from_ints(16624, 16064)));
    assert_eq!(ours.meeting_of_towers(), theirs.meeting_of_towers());
    assert!(ours.meeting_of_towers().is_some());
}

#[test]
fn the_middle_lane_runs_from_fountain_to_fountain_through_its_towers() {
    let view = laid_view();
    let mid = Lane::read(&view, Which::Mid, Team::Radiant).expect("fountains stand");
    assert_eq!(mid.route.len(), 4);
    assert_eq!(mid.route[0], Vec2::from_ints(1760, 2278));
    assert_eq!(mid.route[1], Vec2::from_ints(7672, 7808));
    assert_eq!(mid.route[2], Vec2::from_ints(9740, 9868));
    assert_eq!(mid.route[3], Vec2::from_ints(16624, 16064));
}

#[test]
fn a_role_takes_the_lane_its_side_farms_it_from() {
    assert_eq!(Role::Carry.lane(Team::Radiant), Which::Bottom);
    assert_eq!(Role::Carry.lane(Team::Dire), Which::Top);
    assert_eq!(Role::Offlane.lane(Team::Radiant), Which::Top);
    assert_eq!(Role::Mid.lane(Team::Dire), Which::Mid);
}

#[test]
fn a_role_is_numbered_as_it_is_spoken_of() {
    for number in 1..=5u8 {
        let role = Role::of(number).expect("five roles");
        assert_eq!(role.number(), number);
    }
    assert_eq!(Role::of(0), None);
    assert_eq!(Role::of(6), None);
}

#[test]
fn the_other_side_of_the_other_side_is_the_side() {
    for team in [Team::Radiant, Team::Dire, Team::Neutral] {
        assert_eq!(other_side(other_side(team)), team);
    }
    assert_eq!(other_side(Team::Radiant), Team::Dire);
}

// Buying, and knowing what is already owned.

/// A shop holding everything the lists name, with the builds it puts together.
fn stall() -> Stall {
    Stall {
        entries: vec![
            sold(TANGO, 90, vec![]),
            sold(CLARITY, 50, vec![]),
            sold(BRANCH, 50, vec![]),
            sold(SCROLL, 100, vec![]),
            sold(CIRCLET, 155, vec![]),
            sold(MANTLE, 140, vec![]),
            sold(RECIPE_NULL_TALISMAN, 210, vec![]),
            sold(MAGIC_STICK, 200, vec![]),
            sold(RECIPE_MAGIC_WAND, 150, vec![]),
            sold(NULL_TALISMAN, 505, vec![CIRCLET, MANTLE, RECIPE_NULL_TALISMAN]),
            sold(MAGIC_WAND, 450, vec![MAGIC_STICK, BRANCH, BRANCH, RECIPE_MAGIC_WAND]),
        ],
    }
}

fn field_holding(bag: Vec<u16>, gold: i32) -> WorldView {
    let mut me = hero(1, Team::Radiant, Vec2::from_ints(1900, 2400));
    for (at, it) in bag.iter().enumerate() {
        me.items[at] = Some(item(*it));
    }
    let mut units = fountains();
    units.push(me);
    let mut seat = seat(SlotId(0), Team::Radiant, HeroId(SHADOW_FIEND), Some(id(1)));
    seat.gold = Some(gold);
    tick(1000, units, vec![seat])
}

#[test]
fn a_part_inside_a_build_is_still_a_part_that_was_paid_for() {
    let stall = stall();
    assert_eq!(stall.how_many_within(ItemId(NULL_TALISMAN), ItemId(CIRCLET)), 1);
    assert_eq!(stall.how_many_within(ItemId(MAGIC_WAND), ItemId(BRANCH)), 2);
    assert_eq!(stall.how_many_within(ItemId(MAGIC_WAND), ItemId(MAGIC_STICK)), 1);
    assert_eq!(stall.how_many_within(ItemId(MAGIC_WAND), ItemId(CIRCLET)), 0);
    assert_eq!(stall.how_many_within(ItemId(BRANCH), ItemId(BRANCH)), 1);
}

#[test]
fn the_first_thing_on_the_list_is_the_first_thing_bought() {
    let view = field_holding(vec![], 600);
    let field = Field::of(&view, SlotId(0), Role::Mid).expect("a seat in the view");
    assert_eq!(stall().next_buy(&field), Some(ItemId(TANGO)));
}

#[test]
fn the_list_is_not_skipped_over_to_reach_what_is_affordable() {
    // Everything up to the talisman recipe is held, and there is not enough
    // for the recipe. Nothing further down is bought with the gold the recipe
    // is waiting for.
    let held = vec![TANGO, BRANCH, BRANCH, SCROLL, CIRCLET, MANTLE];
    let view = field_holding(held, 150);
    let field = Field::of(&view, SlotId(0), Role::Mid).expect("a seat in the view");
    assert_eq!(stall().next_buy(&field), None);

    let view = field_holding(vec![TANGO, BRANCH, BRANCH, SCROLL, CIRCLET, MANTLE], 250);
    let field = Field::of(&view, SlotId(0), Role::Mid).expect("a seat in the view");
    assert_eq!(stall().next_buy(&field), Some(ItemId(RECIPE_NULL_TALISMAN)));
}

#[test]
fn a_build_already_held_is_not_bought_over_again() {
    // The talisman swallowed the circlet, the mantle and the recipe; the list
    // moves on rather than buying a second circlet.
    let held = vec![TANGO, CLARITY, BRANCH, BRANCH, SCROLL, NULL_TALISMAN];
    let view = field_holding(held, 600);
    let field = Field::of(&view, SlotId(0), Role::Mid).expect("a seat in the view");
    assert_eq!(stall().next_buy(&field), Some(ItemId(SAGES_MASK)));
}

#[test]
fn what_waits_in_the_stash_counts_as_owned() {
    let mut view = field_holding(vec![], 600);
    view.players[0].stash = Some(vec![Some(item(TANGO)), None, None, None, None, None]);
    let field = Field::of(&view, SlotId(0), Role::Mid).expect("a seat in the view");
    assert_eq!(stall().next_buy(&field), Some(ItemId(CLARITY)));
}

#[test]
fn a_consumable_with_nowhere_to_go_is_stepped_over() {
    // Every working slot is full, so the clarity the list wants next has no
    // room. What holds it up is room and not gold, so the walk goes on to
    // what the gold is actually being saved for.
    let full = vec![TANGO, BRANCH, BRANCH, SCROLL, CIRCLET, MANTLE];
    let view = field_holding(full, 250);
    let field = Field::of(&view, SlotId(0), Role::Mid).expect("a seat in the view");
    assert_eq!(field.free_slots(), 0);
    assert_eq!(stall().next_buy(&field), Some(ItemId(RECIPE_NULL_TALISMAN)));
}

#[test]
fn a_drink_is_bought_again_once_it_has_been_drunk() {
    let view = field_holding(vec![TANGO, BRANCH, BRANCH, SCROLL], 600);
    let field = Field::of(&view, SlotId(0), Role::Mid).expect("a seat in the view");
    assert_eq!(stall().next_buy(&field), Some(ItemId(CLARITY)));
}

#[test]
fn a_hero_with_no_list_of_its_own_still_has_one() {
    let named = |list: &[u16]| list.iter().map(|n| ItemId(*n)).collect::<Vec<ItemId>>();
    assert_eq!(shopping_list(HeroId(SHADOW_FIEND)), named(&FIEND_GOODS));
    assert_eq!(shopping_list(HeroId(SYLLA)), named(&SYLLA_GOODS));
    assert!(!shopping_list(HeroId(99)).is_empty());
}

#[test]
fn a_list_starts_with_what_the_starting_gold_pays_for() {
    let stall = stall();
    let start: i32 = FIEND_GOODS
        .iter()
        .take(6)
        .map(|it| stall.cost_of(ItemId(*it)))
        .sum();
    assert!(start <= 600, "the opening costs {start}");
}

#[test]
fn a_price_the_shop_does_not_name_is_nothing_at_all() {
    assert_eq!(stall().cost_of(ItemId(999)), 0);
    assert!(stall().parts_of(ItemId(999)).is_empty());
}

#[test]
fn the_shop_is_read_off_the_terms_of_the_match() {
    let info = started(
        vec![
            sold(TANGO, 90, vec![]),
            sold(MAGIC_WAND, 450, vec![MAGIC_STICK, BRANCH, BRANCH, RECIPE_MAGIC_WAND]),
        ],
        Vec::new(),
    );
    let stall = Stall::of(&info);
    assert_eq!(stall.cost_of(ItemId(TANGO)), 90);
    assert_eq!(stall.parts_of(ItemId(MAGIC_WAND)).len(), 4);
}

#[test]
fn what_is_held_is_counted_in_the_bag_the_stash_and_the_builds() {
    let mut view = field_holding(vec![MAGIC_WAND, BRANCH], 0);
    view.players[0].stash = Some(vec![Some(item(BRANCH)), None, None, None, None, None]);
    let field = Field::of(&view, SlotId(0), Role::Mid).expect("a seat in the view");
    let stall = stall();
    assert_eq!(stall.how_many_held(&field, ItemId(BRANCH)), 4);
    assert_eq!(stall.how_many_in(&view.units[2].items, ItemId(BRANCH)), 3);
    assert_eq!(stall.how_many_held(&field, ItemId(CIRCLET)), 0);
}

#[test]
fn a_consumable_is_one_that_is_spent() {
    assert!(is_consumable(ItemId(TANGO)));
    assert!(is_consumable(ItemId(SCROLL)));
    assert!(!is_consumable(ItemId(BRANCH)));
}

// The courier's errands.

fn courier(idx: u32, book: Vec<AbilityView>, carrying: bool) -> UnitView {
    let mut bird = works(idx, UnitKind::Courier, Team::Radiant, Vec2::from_ints(2000, 2400));
    bird.owner = Some(SlotId(0));
    bird.abilities = book;
    bird.items = vec![None; 6];
    if carrying {
        bird.items[0] = Some(item(TANGO));
    }
    bird
}

fn errand_view(carrying: bool, stash: Vec<Option<ItemView>>, foe_near: bool) -> WorldView {
    let mut units = fountains();
    units.push(hero(1, Team::Radiant, Vec2::from_ints(6000, 6000)));
    let book = vec![ability(TAKE_STASH, 1, 0), ability(DELIVER, 1, 0)];
    units.push(courier(7, book, carrying));
    if foe_near {
        units.push(hero(5, Team::Dire, Vec2::from_ints(6300, 6000)));
    }
    let mut seat = seat(SlotId(0), Team::Radiant, HeroId(2), Some(id(1)));
    seat.stash = Some(stash);
    tick(1000, units, vec![seat])
}

#[test]
fn a_courier_carrying_anything_is_sent_to_hand_it_over() {
    let view = errand_view(true, vec![None; 6], false);
    let field = Field::of(&view, SlotId(0), Role::Mid).expect("a seat in the view");
    let mut errands = Errands::new();
    assert_eq!(
        errands.errand(1000, &field),
        Some(Ask::of(id(7), Order::Cast { slot: AbilitySlot(1), target: Target::Nothing }))
    );
    // An errand under way is left alone for a while.
    assert_eq!(errands.errand(1001, &field), None);
    assert!(errands.errand(1150, &field).is_some());
}

#[test]
fn one_item_waits_for_a_second_or_for_patience_to_run_out() {
    let one = vec![Some(item(TANGO)), None, None, None, None, None];
    let view = errand_view(false, one, false);
    let field = Field::of(&view, SlotId(0), Role::Mid).expect("a seat in the view");
    let mut errands = Errands::new();
    errands.watch(1000, &field);
    assert_eq!(errands.errand(1000, &field), None);
    errands.watch(1299, &field);
    assert_eq!(errands.errand(1299, &field), None);
    errands.watch(1300, &field);
    assert_eq!(
        errands.errand(1300, &field),
        Some(Ask::of(id(7), Order::Cast { slot: AbilitySlot(0), target: Target::Nothing }))
    );

    let two = vec![Some(item(TANGO)), Some(item(BRANCH)), None, None, None, None];
    let view = errand_view(false, two, false);
    let field = Field::of(&view, SlotId(0), Role::Mid).expect("a seat in the view");
    assert!(Errands::new().errand(1000, &field).is_some());
}

#[test]
fn no_errand_is_run_with_a_foe_near_the_hero() {
    let view = errand_view(true, vec![None; 6], true);
    let field = Field::of(&view, SlotId(0), Role::Mid).expect("a seat in the view");
    assert_eq!(Errands::new().errand(1000, &field), None);
}

// Where the skill points go.

/// Shadow Fiend's book, with the razes all standing at one level.
fn fiend_book(raze: u8, necro: u8, requiem: u8, points: bool) -> Vec<AbilityView> {
    let slot = |id: u16, level: u8, max: u8| {
        let mut view = ability(id, level, 0);
        view.max_level = max;
        view.can_level = points && level < max;
        view
    };
    vec![
        slot(RAZE_NEAR, raze, 4),
        slot(RAZE_MID, raze, 4),
        slot(RAZE_FAR, raze, 4),
        slot(NECROMASTERY, necro, 4),
        slot(PRESENCE, 0, 4),
        slot(REQUIEM, requiem, 3),
    ]
}

fn field_with(book: Vec<AbilityView>, hero_id: u16) -> WorldView {
    let mut me = hero(1, Team::Radiant, Vec2::from_ints(8700, 8800));
    me.hero = Some(HeroId(hero_id));
    me.abilities = book;
    let mut units = fountains();
    units.push(me);
    let seat = seat(SlotId(0), Team::Radiant, HeroId(hero_id), Some(id(1)));
    tick(1000, units, vec![seat])
}

#[test]
fn a_fresh_fiend_puts_its_first_point_in_a_raze() {
    let view = field_with(fiend_book(0, 0, 0, true), SHADOW_FIEND);
    let field = Field::of(&view, SlotId(0), Role::Mid).expect("a seat in the view");
    assert_eq!(next_point(&field), Some(AbilitySlot(0)));
}

#[test]
fn the_second_point_goes_to_the_souls() {
    let view = field_with(fiend_book(1, 0, 0, true), SHADOW_FIEND);
    let field = Field::of(&view, SlotId(0), Role::Mid).expect("a seat in the view");
    assert_eq!(next_point(&field), Some(AbilitySlot(3)));
}

#[test]
fn the_requiem_is_taken_the_moment_it_opens() {
    let view = field_with(fiend_book(3, 2, 0, true), SHADOW_FIEND);
    let field = Field::of(&view, SlotId(0), Role::Mid).expect("a seat in the view");
    assert_eq!(next_point(&field), Some(AbilitySlot(5)));
}

#[test]
fn a_point_that_cannot_be_spent_is_not_spent() {
    // The plan wants the requiem, but the hero is not high enough for it and
    // nothing else will take a point either.
    let mut book = fiend_book(3, 2, 0, false);
    for slot in &mut book {
        slot.can_level = false;
    }
    let view = field_with(book, SHADOW_FIEND);
    let field = Field::of(&view, SlotId(0), Role::Mid).expect("a seat in the view");
    assert_eq!(next_point(&field), None);
}

#[test]
fn a_point_the_plan_has_nowhere_for_still_goes_somewhere() {
    // Every raze is full and the plan's next entry is a raze; the point falls
    // through to whatever will take it.
    let mut book = fiend_book(4, 4, 3, false);
    book[4].can_level = true;
    let view = field_with(book, SHADOW_FIEND);
    let field = Field::of(&view, SlotId(0), Role::Mid).expect("a seat in the view");
    assert_eq!(next_point(&field), Some(AbilitySlot(4)));
}

#[test]
fn sylla_starts_with_the_bolt() {
    let book = vec![
        {
            let mut one = ability(CRIT, 0, 0);
            one.can_level = true;
            one
        },
        ability(FRENZY, 0, 0),
        {
            let mut one = ability(BOUNCE, 0, 550);
            one.can_level = true;
            one
        },
        ability(VOLLEY, 0, 700),
    ];
    let view = field_with(book, SYLLA);
    let field = Field::of(&view, SlotId(0), Role::Mid).expect("a seat in the view");
    assert_eq!(next_point(&field), Some(AbilitySlot(2)));
}

#[test]
fn a_plan_spends_one_point_per_hero_level() {
    let named = |list: &[u16]| list.iter().map(|n| AbilityId(*n)).collect::<Vec<AbilityId>>();
    assert_eq!(FIEND_PLAN.len(), 10);
    assert_eq!(SYLLA_PLAN.len(), 10);
    assert_eq!(plan_of(HeroId(SHADOW_FIEND)), named(&FIEND_PLAN));
    assert_eq!(plan_of(HeroId(SYLLA)), named(&SYLLA_PLAN));
    assert!(plan_of(HeroId(99)).is_empty());
}

#[test]
fn no_plan_asks_for_more_of_an_ability_than_it_holds() {
    let counted = |plan: &[u16], id: u16| plan.iter().filter(|had| **had == id).count();
    assert!(counted(&FIEND_PLAN, RAZE_NEAR) <= 4);
    assert!(counted(&FIEND_PLAN, NECROMASTERY) <= 4);
    assert!(counted(&FIEND_PLAN, REQUIEM) <= 3);
    assert!(counted(&SYLLA_PLAN, BOUNCE) <= 4);
    assert!(counted(&SYLLA_PLAN, CRIT) <= 4);
    assert!(counted(&SYLLA_PLAN, VOLLEY) <= 3);
}

#[test]
fn an_ultimate_is_never_asked_for_before_its_level() {
    // The ultimate opens at hero levels six, eight and ten, which are the
    // sixth, eighth and tenth points.
    for (at, id) in FIEND_PLAN.iter().enumerate() {
        if *id == REQUIEM {
            assert!(at + 1 >= 6, "the requiem is asked for at point {}", at + 1);
        }
    }
    for (at, id) in SYLLA_PLAN.iter().enumerate() {
        if *id == VOLLEY {
            assert!(at + 1 >= 6, "the volley is asked for at point {}", at + 1);
        }
    }
}

// Shadow Fiend's spellwork: what a raze is cast at, and what turns first.

/// Shadow Fiend's book, every raze ready at one level and the rest unlearned.
fn book(raze: u8, requiem: u8) -> Vec<AbilityView> {
    let reach = [200, 450, 700];
    let mut slots: Vec<AbilityView> = [RAZE_NEAR, RAZE_MID, RAZE_FAR]
        .iter()
        .enumerate()
        .map(|(at, id)| ability(*id, raze, reach[at]))
        .collect();
    slots.push(ability(NECROMASTERY, 1, 0));
    slots.push(ability(PRESENCE, 0, 900));
    let mut ult = ability(REQUIEM, requiem, 900);
    ult.max_level = 3;
    ult.mana_cost = 150;
    slots.push(ult);
    slots
}

/// The place Shadow Fiend stands in these ticks.
fn home() -> Vec2 {
    Vec2::from_ints(8000, 8000)
}

/// A tick with Shadow Fiend looking one way and the units given standing.
fn fiend_tick(facing: u16, raze: u8, requiem: u8, gathered: u32, others: Vec<UnitView>) -> WorldView {
    let mut me = hero(1, Team::Radiant, home());
    me.hero = Some(HeroId(SHADOW_FIEND));
    me.facing = Angle { brads: facing };
    me.abilities = book(raze, requiem);
    me.effects = vec![souls(gathered)];
    let mut units = fountains();
    units.push(me);
    units.extend(others);
    let seat = seat(SlotId(0), Team::Radiant, HeroId(SHADOW_FIEND), Some(id(1)));
    tick(1000, units, vec![seat])
}

fn read(view: &WorldView) -> Field<'_> {
    Field::of(view, SlotId(0), Role::Mid).expect("a seat in the view")
}

/// The health every creep of a field has now, as the forecast for a tick on
/// when nothing has been seen falling.
fn as_they_stand(field: &Field<'_>) -> Vec<i32> {
    field.creeps.iter().map(|creep| creep.hp).collect()
}

/// Where Shadow Fiend turns, with the turn weighed as the client weighs it:
/// only when the hero looks further off the mark than half a burn's width
/// at the nearest reach.
fn turned_towards(field: &Field<'_>) -> Option<Vec2> {
    let Sighting { mark, gap, nearest } = fiend_sighting(field)?;
    let slack = (250.0f32 / nearest.max(1) as f32).atan();
    let off = f32::from(gap) / 65536.0 * std::f32::consts::TAU;
    if off > slack {
        Some(mark)
    } else {
        None
    }
}

#[test]
fn a_raze_goes_off_at_a_foe_the_hero_is_already_looking_at() {
    // Looking east, with an enemy hero four hundred and fifty units east:
    // the middle raze lands on him.
    let foe = hero(5, Team::Dire, Vec2::from_ints(8450, 8000));
    let view = fiend_tick(0, 1, 0, 0, vec![foe]);
    let field = read(&view);
    assert_eq!(
        fiend_spell(&field, &as_they_stand(&field)),
        Some(Ask::cast(AbilitySlot(1), Target::Nothing))
    );
}

#[test]
fn nothing_is_cast_down_an_empty_line() {
    let foe = hero(5, Team::Dire, Vec2::from_ints(8000, 8600));
    let view = fiend_tick(0, 1, 0, 0, vec![foe]);
    let field = read(&view);
    assert_eq!(fiend_spell(&field, &as_they_stand(&field)), None);
}

#[test]
fn a_foe_off_the_line_is_turned_towards() {
    let foe = hero(5, Team::Dire, Vec2::from_ints(8000, 8600));
    let view = fiend_tick(0, 1, 0, 0, vec![foe]);
    let field = read(&view);
    assert_eq!(
        fiend_sighting(&field),
        Some(Sighting { mark: Vec2::from_ints(8000, 8600), gap: 16384, nearest: 200 })
    );
    assert_eq!(turned_towards(&field), Some(Vec2::from_ints(8000, 8600)));
}

#[test]
fn a_foe_already_in_the_burn_is_not_turned_towards() {
    let foe = hero(5, Team::Dire, Vec2::from_ints(8450, 8000));
    let view = fiend_tick(0, 1, 0, 0, vec![foe]);
    let field = read(&view);
    assert_eq!(fiend_sighting(&field), None);
    assert_eq!(turned_towards(&field), None);
}

#[test]
fn a_foe_beyond_every_raze_is_not_turned_towards() {
    let foe = hero(5, Team::Dire, Vec2::from_ints(8000, 9400));
    let view = fiend_tick(0, 1, 0, 0, vec![foe]);
    let field = read(&view);
    assert_eq!(turned_towards(&field), None);
}

#[test]
fn an_unlearned_raze_is_not_cast() {
    let foe = hero(5, Team::Dire, Vec2::from_ints(8450, 8000));
    let view = fiend_tick(0, 0, 0, 0, vec![foe]);
    let field = read(&view);
    assert_eq!(fiend_spell(&field, &as_they_stand(&field)), None);
    assert_eq!(turned_towards(&field), None);
}

#[test]
fn a_raze_still_waiting_is_not_cast() {
    let foe = hero(5, Team::Dire, Vec2::from_ints(8450, 8000));
    let mut view = fiend_tick(0, 1, 0, 0, vec![foe]);
    for slot in &mut view.units[2].abilities {
        slot.cooldown_left = 40;
    }
    let field = read(&view);
    assert_eq!(fiend_spell(&field, &as_they_stand(&field)), None);
}

#[test]
fn a_raze_there_is_no_mana_for_is_not_cast() {
    let foe = hero(5, Team::Dire, Vec2::from_ints(8450, 8000));
    let mut view = fiend_tick(0, 1, 0, 0, vec![foe]);
    view.units[2].mana = 10;
    let field = read(&view);
    assert_eq!(fiend_spell(&field, &as_they_stand(&field)), None);
}

#[test]
fn the_requiem_goes_off_for_a_crowd() {
    let foes = vec![
        hero(5, Team::Dire, Vec2::from_ints(8300, 8000)),
        hero(6, Team::Dire, Vec2::from_ints(8000, 8300)),
    ];
    let view = fiend_tick(16384, 1, 1, 6, foes);
    let field = read(&view);
    assert_eq!(
        fiend_spell(&field, &as_they_stand(&field)),
        Some(Ask::cast(AbilitySlot(5), Target::Nothing))
    );
}

#[test]
fn the_requiem_is_not_let_go_with_no_souls_gathered() {
    let foes = vec![
        hero(5, Team::Dire, Vec2::from_ints(8300, 8000)),
        hero(6, Team::Dire, Vec2::from_ints(8000, 8300)),
    ];
    let view = fiend_tick(16384, 0, 1, 0, foes);
    let field = read(&view);
    assert_eq!(fiend_spell(&field, &as_they_stand(&field)), None);
}

#[test]
fn the_requiem_is_let_go_at_one_it_would_kill() {
    let mut foe = hero(5, Team::Dire, Vec2::from_ints(8300, 8000));
    foe.hp = 30;
    // Looking away from him, so no raze is offered instead.
    let view = fiend_tick(32768, 0, 1, 6, vec![foe]);
    let field = read(&view);
    assert!(matches!(
        fiend_spell(&field, &as_they_stand(&field)),
        Some(Ask { unit: None, order: Order::Cast { slot: AbilitySlot(5), .. } })
    ));
}

#[test]
fn another_hero_s_spellwork_is_none_of_the_fiend_s() {
    let mut view = fiend_tick(0, 1, 0, 0, vec![]);
    view.units[2].hero = Some(HeroId(0));
    view.players[0].hero = HeroId(0);
    let field = read(&view);
    assert_eq!(field.hero, HeroId(0));
}

#[test]
fn a_raze_at_the_wave_kills_what_the_forecast_says_will_fall() {
    // Looking east with three creeps in the middle raze's burn. Two of them
    // will be low enough a tick on for a level-one raze to finish them.
    let creeps = vec![
        creep(20, Team::Dire, Vec2::from_ints(8450, 8000), 500),
        creep(21, Team::Dire, Vec2::from_ints(8450, 8100), 500),
        creep(22, Team::Dire, Vec2::from_ints(8400, 7950), 500),
    ];
    let view = fiend_tick(0, 1, 0, 0, creeps);
    let field = read(&view);
    assert_eq!(fiend_spell(&field, &as_they_stand(&field)), None);
    let falling: Vec<i32> = field
        .creeps
        .iter()
        .map(|creep| if creep.id == id(22) { 500 } else { 80 })
        .collect();
    assert_eq!(
        fiend_spell(&field, &falling),
        Some(Ask::cast(AbilitySlot(1), Target::Nothing))
    );
}

// Sylla's spellwork.

fn sylla_tick(others: Vec<UnitView>, mana: i32) -> WorldView {
    let mut me = hero(1, Team::Radiant, home());
    me.hero = Some(HeroId(SYLLA));
    me.mana = mana;
    me.abilities = vec![
        ability(CRIT, 1, 0),
        ability(FRENZY, 1, 0),
        ability(BOUNCE, 1, 550),
        ability(VOLLEY, 1, 700),
    ];
    let mut units = fountains();
    units.push(me);
    units.extend(others);
    let seat = seat(SlotId(0), Team::Radiant, HeroId(SYLLA), Some(id(1)));
    tick(1000, units, vec![seat])
}

#[test]
fn the_volley_goes_off_at_a_hero_in_reach() {
    let view = sylla_tick(vec![hero(5, Team::Dire, Vec2::from_ints(8600, 8000))], 300);
    let field = read(&view);
    assert_eq!(sylla_spell(&field), Some(Ask::cast(AbilitySlot(3), Target::Nothing)));
}

#[test]
fn the_bolt_is_thrown_at_the_nearest_hero_once_the_volley_waits() {
    let mut view = sylla_tick(
        vec![
            hero(5, Team::Dire, Vec2::from_ints(8500, 8000)),
            hero(6, Team::Dire, Vec2::from_ints(8300, 8000)),
        ],
        300,
    );
    view.units[2].abilities[3].cooldown_left = 10;
    view.units[2].abilities[1].level = 0;
    let field = read(&view);
    assert_eq!(sylla_spell(&field), Some(Ask::cast(AbilitySlot(2), Target::Unit(id(6)))));
}

#[test]
fn a_bolt_goes_at_the_wave_only_with_mana_to_spare_and_creeps_to_jump_to() {
    let wave = vec![
        creep(20, Team::Dire, Vec2::from_ints(8400, 8000), 550),
        creep(21, Team::Dire, Vec2::from_ints(8500, 8100), 550),
        creep(22, Team::Dire, Vec2::from_ints(8550, 7950), 550),
    ];
    let mut view = sylla_tick(wave.clone(), 300);
    view.units[2].abilities[3].level = 0;
    view.units[2].abilities[1].level = 0;
    let field = read(&view);
    assert_eq!(sylla_spell(&field), Some(Ask::cast(AbilitySlot(2), Target::Unit(id(20)))));

    // Just over half the pool is not enough to spare.
    let mut view = sylla_tick(wave, 160);
    view.units[2].abilities[3].level = 0;
    view.units[2].abilities[1].level = 0;
    let field = read(&view);
    assert_eq!(sylla_spell(&field), None);
}

#[test]
fn the_frenzy_goes_on_for_a_fight() {
    let mut view = sylla_tick(vec![hero(5, Team::Dire, Vec2::from_ints(8900, 8000))], 300);
    view.units[2].abilities[3].level = 0;
    let field = read(&view);
    assert_eq!(sylla_spell(&field), Some(Ask::cast(AbilitySlot(1), Target::Nothing)));
}

// Choosing a crowd by tournament.

#[test]
fn neighbours_in_the_standing_pair_and_an_odd_tail_sits_out() {
    assert_eq!(pairs_of(&[3, 1, 2, 0]), vec![(3, 1), (2, 0)]);
    assert_eq!(pairs_of(&[7, 8, 9]), vec![(7, 8)]);
    assert_eq!(pairs_of(&[]), Vec::<(usize, usize)>::new());
}

#[test]
fn a_selection_is_spelled_and_read_back() {
    for way in [Selection::Mirror, Selection::Swiss] {
        assert_eq!(Selection::named(way.spelling()), Some(way));
    }
    assert_eq!(Selection::named("ladder"), None);
}

// The attack cycle, and what has been seen of bodies falling.

#[test]
fn a_run_of_snapshots_is_remembered_from_its_oldest_to_its_newest() {
    let mut beat = Beat::new(HeroId(SHADOW_FIEND), 30);
    for (at, hp) in [(100u32, 550), (101, 520), (102, 480)] {
        let view = tick(at, vec![creep(2, Team::Dire, mid(), hp)], vec![]);
        beat.watch(&view, None);
    }
    assert_eq!(beat.ends_of(id(2)), Some(((100, 550), (102, 480))));
    assert_eq!(beat.ends_of(id(3)), None);
    assert_eq!(beat.tick(), 102);
}

#[test]
fn what_is_remembered_ages_out() {
    let mut beat = Beat::new(HeroId(SHADOW_FIEND), 30);
    beat.watch(&tick(100, vec![creep(2, Team::Dire, mid(), 550)], vec![]), None);
    beat.watch(&tick(105, vec![creep(2, Team::Dire, mid(), 500)], vec![]), None);
    // Ten ticks on, the first sample is older than the memory is long.
    beat.watch(&tick(111, vec![creep(2, Team::Dire, mid(), 450)], vec![]), None);
    assert_eq!(beat.ends_of(id(2)), Some(((105, 500), (111, 450))));
    // A unit not seen for longer than that is forgotten altogether.
    beat.watch(&tick(122, vec![], vec![]), None);
    assert_eq!(beat.ends_of(id(2)), None);
}

#[test]
fn the_cycle_comes_round_an_interval_after_the_last_blow_left() {
    let me = hero(1, Team::Radiant, mid());
    let mut beat = Beat::new(HeroId(SHADOW_FIEND), 30);
    beat.watch(&tick(200, vec![me.clone()], vec![]), Some(&me));
    assert_eq!(beat.interval(), 51);
    // No blow seen yet: the next one can start at once.
    assert_eq!(beat.lands_after(20), 20);
    let blow = bota::proto::EventKind::Damaged {
        source: Some(id(1)),
        target: id(2),
        amount: 40,
        kind: DamageKind::Physical,
        crit: false,
    };
    beat.saw(200, &[blow], Some(id(1)));
    assert_eq!(beat.struck_at(), Some(200));
    // The blow left twenty ticks before it landed; the next leaves an
    // interval after that, which is thirty-one ticks from now.
    assert_eq!(beat.lands_after(20), 31 + 20);
}

#[test]
fn who_struck_the_hero_is_remembered_for_a_while() {
    let mut beat = Beat::new(HeroId(SHADOW_FIEND), 30);
    let bite = bota::proto::EventKind::Damaged {
        source: Some(id(7)),
        target: id(1),
        amount: 20,
        kind: DamageKind::Physical,
        crit: false,
    };
    beat.saw(100, &[bite], Some(id(1)));
    assert!(beat.struck_me(id(7)));
    assert!(!beat.struck_me(id(8)));
    beat.saw(170, &[], Some(id(1)));
    assert!(!beat.struck_me(id(7)));
    // With no body standing nothing is taken in.
    beat.saw(171, &[bite], None);
    assert!(!beat.struck_me(id(7)));
}

// The rungs of the ladder that are answered in whole numbers.

/// A hero in the lane with a bag laid out slot by slot.
fn bag_of(slots: Vec<Option<u16>>) -> WorldView {
    let mut me = hero(1, Team::Radiant, mid());
    for (at, it) in slots.into_iter().enumerate() {
        me.items[at] = it.map(item);
    }
    field_of(vec![me], Some(1))
}

#[test]
fn goods_stranded_in_the_backpack_move_to_the_first_empty_working_slot() {
    let view = bag_of(vec![
        Some(TANGO), Some(BRANCH), Some(BRANCH), None, None, Some(SCROLL), None, Some(SALVE),
        Some(CLARITY),
    ]);
    let field = Field::of(&view, SlotId(0), Role::Mid).expect("a seat in the view");
    assert_eq!(
        tidy(&field),
        Some(Ask::mine(Order::Swap {
            from: bota::proto::ItemSlot(7),
            to: bota::proto::ItemSlot(3),
        }))
    );
}

#[test]
fn nothing_is_tidied_without_both_a_stranded_item_and_room() {
    let full = bag_of(vec![
        Some(TANGO), Some(BRANCH), Some(BRANCH), Some(CIRCLET), Some(MANTLE), Some(SCROLL), None,
        Some(SALVE), None,
    ]);
    let field = Field::of(&full, SlotId(0), Role::Mid).expect("a seat in the view");
    assert_eq!(tidy(&field), None);
    let empty_backpack = bag_of(vec![Some(TANGO), None]);
    let field = Field::of(&empty_backpack, SlotId(0), Role::Mid).expect("a seat in the view");
    assert_eq!(tidy(&field), None);
    let nobody = field_of(vec![], None);
    let field = Field::of(&nobody, SlotId(0), Role::Mid).expect("a seat in the view");
    assert_eq!(tidy(&field), None);
}

/// A hero in the lane hurt by some health, with a wand and a stick worn.
fn wand_view(hurt: i32, wand_charges: u8, stick_charges: u8) -> WorldView {
    let mut me = hero(1, Team::Radiant, mid());
    me.hp -= hurt;
    let mut wand = item(MAGIC_WAND);
    wand.charges = Some(wand_charges);
    let mut stick = item(MAGIC_STICK);
    stick.charges = Some(stick_charges);
    me.items[1] = Some(wand);
    me.items[4] = Some(stick);
    field_of(vec![me], Some(1))
}

#[test]
fn a_wand_is_pressed_only_for_what_it_would_not_waste() {
    // Seven charges restore a hundred and five: a hundred missing is not
    // enough, a hundred and five is.
    let view = wand_view(100, 7, 0);
    let field = Field::of(&view, SlotId(0), Role::Mid).expect("a seat in the view");
    assert_eq!(press_a_wand(&field), None);
    let view = wand_view(105, 7, 0);
    let field = Field::of(&view, SlotId(0), Role::Mid).expect("a seat in the view");
    assert_eq!(
        press_a_wand(&field),
        Some(Ask::use_item(bota::proto::ItemSlot(1), Target::Nothing))
    );
}

#[test]
fn a_stick_is_pressed_when_the_wand_is_not_worth_it() {
    // Four charges are too few for the wand; five on the stick are worth
    // seventy-five.
    let view = wand_view(80, 4, 5);
    let field = Field::of(&view, SlotId(0), Role::Mid).expect("a seat in the view");
    assert_eq!(
        press_a_wand(&field),
        Some(Ask::use_item(bota::proto::ItemSlot(4), Target::Nothing))
    );
    let mut view = wand_view(80, 4, 5);
    if let Some(stick) = view.units[2].items[4].as_mut() {
        stick.cooldown_left = 3;
    }
    let field = Field::of(&view, SlotId(0), Role::Mid).expect("a seat in the view");
    assert_eq!(press_a_wand(&field), None);
}

#[test]
fn a_swing_is_waited_out_while_the_mark_stands_in_reach() {
    let view = field_of(
        vec![
            hero(1, Team::Radiant, Vec2::from_ints(4000, 4000)),
            creep(2, Team::Dire, Vec2::from_ints(4300, 4000), 100),
            creep(3, Team::Dire, Vec2::from_ints(5000, 4000), 100),
            creep(4, Team::Dire, Vec2::from_ints(4100, 4000), 0),
        ],
        Some(1),
    );
    let field = Field::of(&view, SlotId(0), Role::Mid).expect("a seat in the view");
    let swing = Some(Ask::swing_at(id(2)));
    assert!(mid_swing(swing, 990, 1000, &field));
    assert!(mid_swing(swing, 1000 - SWING_PATIENCE, 1000, &field));
    assert!(!mid_swing(swing, 1000 - SWING_PATIENCE - 1, 1000, &field));
    assert!(!mid_swing(Some(Ask::swing_at(id(3))), 990, 1000, &field), "out of reach");
    assert!(!mid_swing(Some(Ask::swing_at(id(4))), 990, 1000, &field), "fallen");
    assert!(!mid_swing(Some(Ask::swing_at(id(9))), 990, 1000, &field), "gone");
    assert!(!mid_swing(Some(Ask::walk_to(mid())), 990, 1000, &field));
    assert!(!mid_swing(None, 990, 1000, &field));
}

#[test]
fn goods_are_bought_at_the_shop_or_by_courier_in_quiet() {
    let view = field_holding(vec![], 600);
    let field = Field::of(&view, SlotId(0), Role::Mid).expect("a seat in the view");
    assert_eq!(shopping(&stall(), &field), Some(Ask::buy(ItemId(TANGO))));

    // In the lane with nobody near, only a courier can carry what is bought.
    let lane = field_of(vec![hero(1, Team::Radiant, mid())], Some(1));
    let field = Field::of(&lane, SlotId(0), Role::Mid).expect("a seat in the view");
    assert_eq!(shopping(&stall(), &field), None);
    let mut bird = hero(30, Team::Radiant, Vec2::from_ints(3000, 3000));
    bird.kind = UnitKind::Courier;
    let lane = field_of(vec![hero(1, Team::Radiant, mid()), bird.clone()], Some(1));
    let field = Field::of(&lane, SlotId(0), Role::Mid).expect("a seat in the view");
    assert!(field.courier.is_some());
    assert_eq!(shopping(&stall(), &field), Some(Ask::buy(ItemId(TANGO))));

    // With a hero of the other side near, nothing is bought away from home.
    let fight = field_of(
        vec![
            hero(1, Team::Radiant, mid()),
            bird,
            hero(5, Team::Dire, Vec2::from_ints(9200, 8800)),
        ],
        Some(1),
    );
    let field = Field::of(&fight, SlotId(0), Role::Mid).expect("a seat in the view");
    assert_eq!(shopping(&stall(), &field), None);
}

/// A hero with two creeps of the other side that just struck it, and one of
/// its own nearby.
fn chewed_on(at: u32) -> (WorldView, Beat) {
    let mut view = field_of(
        vec![
            hero(1, Team::Radiant, mid()),
            creep(7, Team::Dire, Vec2::from_ints(8800, 8800), 500),
            creep(8, Team::Dire, Vec2::from_ints(8700, 8900), 500),
            creep(20, Team::Radiant, Vec2::from_ints(8600, 8700), 500),
        ],
        Some(1),
    );
    view.tick = at;
    let mut beat = Beat::new(HeroId(SHADOW_FIEND), 30);
    let bite = |who: u32| bota::proto::EventKind::Damaged {
        source: Some(id(who)),
        target: id(1),
        amount: 20,
        kind: DamageKind::Physical,
        crit: false,
    };
    beat.saw(at, &[bite(7), bite(8)], Some(id(1)));
    (view, beat)
}

#[test]
fn creeps_chewing_on_the_hero_are_shaken_off_and_it_stands_the_tick_after() {
    let (view, beat) = chewed_on(1000);
    let field = Field::of(&view, SlotId(0), Role::Mid).expect("a seat in the view");
    let mut shook_at = None;
    assert_eq!(shake(&mut shook_at, 1000, &beat, &field), Some(Ask::swing_at(id(20))));
    assert_eq!(shook_at, Some(1000));
    assert_eq!(
        shake(&mut shook_at, 1001, &beat, &field),
        Some(Ask::mine(Order::Move { target: Target::Nothing }))
    );
    assert_eq!(shook_at, Some(1000), "the stand does not start the clock again");
    assert_eq!(shake(&mut shook_at, 1002, &beat, &field), None);
    assert_eq!(shake(&mut shook_at, 1000 + SHAKE_TICKS - 1, &beat, &field), None);
    assert_eq!(
        shake(&mut shook_at, 1000 + SHAKE_TICKS, &beat, &field),
        Some(Ask::swing_at(id(20)))
    );
    assert_eq!(shook_at, Some(1000 + SHAKE_TICKS));
}

#[test]
fn one_creep_biting_is_not_worth_shaking_off() {
    let (view, _) = chewed_on(1000);
    let field = Field::of(&view, SlotId(0), Role::Mid).expect("a seat in the view");
    let mut beat = Beat::new(HeroId(SHADOW_FIEND), 30);
    let bite = bota::proto::EventKind::Damaged {
        source: Some(id(7)),
        target: id(1),
        amount: 20,
        kind: DamageKind::Physical,
        crit: false,
    };
    beat.saw(1000, &[bite], Some(id(1)));
    let mut shook_at = None;
    assert_eq!(shake(&mut shook_at, 1000, &beat, &field), None);
    assert_eq!(shook_at, None);
}

#[test]
fn a_shop_whose_builds_bottom_out_is_told_from_one_that_loops() {
    assert!(stall().bottoms_out());
    assert!(Stall { entries: Vec::new() }.bottoms_out());
    let looped = Stall {
        entries: vec![
            sold(BRANCH, 50, vec![]),
            sold(CIRCLET, 155, vec![MANTLE, BRANCH]),
            sold(MANTLE, 140, vec![NULL_TALISMAN]),
            sold(NULL_TALISMAN, 505, vec![CIRCLET]),
        ],
    };
    assert!(!looped.bottoms_out());
    let itself = Stall { entries: vec![sold(BRANCH, 50, vec![BRANCH])] };
    assert!(!itself.bottoms_out());
    // Parts listed before what they go into or after make no difference.
    let backwards = Stall {
        entries: vec![
            sold(MAGIC_WAND, 450, vec![MAGIC_STICK, BRANCH, BRANCH, RECIPE_MAGIC_WAND]),
            sold(MAGIC_STICK, 200, vec![BRANCH]),
            sold(BRANCH, 50, vec![]),
        ],
    };
    assert!(backwards.bottoms_out());
}

#[test]
fn a_tower_far_out_still_has_its_lane_laid_out() {
    let mut units = fountains();
    units.push(works(3, UnitKind::Tower, Team::Dire, Vec2::from_ints(24000, 9000)));
    units.push(works(4, UnitKind::Tower, Team::Radiant, Vec2::from_ints(-30000, -30000)));
    let view = tick(1000, units, vec![seat(SlotId(0), Team::Radiant, HeroId(2), None)]);
    let bot = Lane::read(&view, Which::Bottom, Team::Radiant).expect("fountains stand");
    assert_eq!(bot.theirs, Some(Vec2::from_ints(24000, 9000)));
    // As far from every lane's shape as from the fountain: the top lane,
    // which comes first where lanes are as near.
    let top = Lane::read(&view, Which::Top, Team::Radiant).expect("fountains stand");
    assert_eq!(top.mine, Some(Vec2::from_ints(-30000, -30000)));
    assert_eq!(top.route.first(), Some(&Vec2::from_ints(1760, 2278)));
    assert_eq!(top.route.last(), Some(&Vec2::from_ints(16624, 16064)));
}

// The same rungs, on the ticks the ladder is driven with.

/// One tick with the hero standing in the lane, however the caller wants it.
fn lane_tick(shape: impl Fn(&mut UnitView)) -> WorldView {
    let mut me = hero(1, Team::Radiant, mid());
    shape(&mut me);
    field_of(vec![me], Some(1))
}

/// An item slot holding a stack with the charges given.
fn stack(id: u16, charges: u8) -> ItemView {
    ItemView {
        charges: Some(charges),
        ..item(id)
    }
}

#[test]
fn a_wand_is_pressed_for_the_pool_it_would_fill() {
    let view = lane_tick(|me| {
        me.mana = 50;
        me.items[0] = Some(stack(MAGIC_WAND, 10));
    });
    let field = Field::of(&view, SlotId(0), Role::Mid).expect("a seat in the view");
    assert_eq!(
        press_a_wand(&field),
        Some(Ask::use_item(bota::proto::ItemSlot(0), Target::Nothing))
    );
}

#[test]
fn a_wand_holding_little_is_left_alone() {
    let view = lane_tick(|me| {
        me.mana = 50;
        me.items[0] = Some(stack(MAGIC_WAND, 2));
    });
    let field = Field::of(&view, SlotId(0), Role::Mid).expect("a seat in the view");
    assert!(
        !matches!(press_a_wand(&field), Some(Ask { order: Order::Use { .. }, .. })),
        "two charges are not worth the press"
    );
}

#[test]
fn a_wand_is_left_alone_when_nothing_is_missing() {
    let view = lane_tick(|me| {
        me.items[0] = Some(stack(MAGIC_WAND, 10));
    });
    let field = Field::of(&view, SlotId(0), Role::Mid).expect("a seat in the view");
    assert!(
        !matches!(press_a_wand(&field), Some(Ask { order: Order::Use { .. }, .. })),
        "a full hero wastes what it presses"
    );
}

/// Where the waves should meet on the lane the fixtures lay out: halfway
/// between the two tier-one towers.
fn meeting() -> Vec2 {
    Vec2::from_ints(8706, 8838)
}

/// The lane laid out with its two tier-one towers, the hero where it is put.
fn in_the_lane(at: Vec2, shape: impl Fn(&mut Vec<UnitView>)) -> WorldView {
    let mut units = fountains();
    units.push(works(10, UnitKind::Tower, Team::Radiant, Vec2::from_ints(7672, 7808)));
    units.push(works(11, UnitKind::Tower, Team::Dire, Vec2::from_ints(9740, 9868)));
    units.push(hero(1, Team::Radiant, at));
    shape(&mut units);
    let seat = seat(SlotId(0), Team::Radiant, HeroId(2), Some(id(1)));
    tick(1000, units, vec![seat])
}

/// A blow landed on the seat's own hero by somebody.
fn struck(source: EntityId) -> bota::proto::EventKind {
    bota::proto::EventKind::Damaged {
        source: Some(source),
        target: id(1),
        amount: 21,
        kind: DamageKind::Physical,
        crit: false,
    }
}

/// A tick where two of their creeps are chewing on the hero, with one of its
/// own to point at.
fn being_chewed() -> WorldView {
    in_the_lane(meeting(), |units| {
        units.push(creep(20, Team::Dire, Vec2::from_ints(8760, 8890), 550));
        units.push(creep(21, Team::Dire, Vec2::from_ints(8780, 8910), 550));
        units.push(creep(30, Team::Radiant, Vec2::from_ints(8680, 8790), 550));
    })
}

#[test]
fn creeps_chewing_on_the_hero_are_shaken_off() {
    let view = being_chewed();
    let field = Field::of(&view, SlotId(0), Role::Mid).expect("a seat in the view");
    let mut beat = Beat::new(HeroId(2), 30);
    beat.saw(999, &[struck(id(20)), struck(id(21))], Some(id(1)));
    let mut shook_at = None;
    assert_eq!(
        shake(&mut shook_at, 1000, &beat, &field),
        Some(Ask::swing_at(id(30))),
        "it points at one of its own creeps, never at itself"
    );
}

#[test]
fn a_shake_is_followed_by_standing_still() {
    let view = being_chewed();
    let field = Field::of(&view, SlotId(0), Role::Mid).expect("a seat in the view");
    let mut beat = Beat::new(HeroId(2), 30);
    beat.saw(999, &[struck(id(20)), struck(id(21))], Some(id(1)));
    let mut shook_at = None;
    shake(&mut shook_at, 1000, &beat, &field);
    assert_eq!(
        shake(&mut shook_at, 1001, &beat, &field),
        Some(Ask::mine(Order::Move { target: Target::Nothing })),
        "an order at a unit is a follow, and the follow is called off"
    );
}

#[test]
fn standing_still_after_a_shake_is_not_itself_a_shake() {
    let view = being_chewed();
    let field = Field::of(&view, SlotId(0), Role::Mid).expect("a seat in the view");
    let mut beat = Beat::new(HeroId(2), 30);
    beat.saw(999, &[struck(id(20)), struck(id(21))], Some(id(1)));
    let mut shook_at = None;
    shake(&mut shook_at, 1000, &beat, &field);
    for step in 1..4 {
        let ask = shake(&mut shook_at, 1000 + step, &beat, &field);
        let standing = ask == Some(Ask::mine(Order::Move { target: Target::Nothing }));
        assert_eq!(standing, step == 1, "tick {step} after the shake answered {ask:?}");
    }
}

#[test]
fn creeps_that_have_not_touched_the_hero_are_left_alone() {
    let view = being_chewed();
    let field = Field::of(&view, SlotId(0), Role::Mid).expect("a seat in the view");
    let mut beat = Beat::new(HeroId(2), 30);
    beat.saw(999, &[struck(id(20))], Some(id(1)));
    let mut shook_at = None;
    assert_ne!(
        shake(&mut shook_at, 1000, &beat, &field),
        Some(Ask::swing_at(id(1))),
        "one creep is not a wave worth spending a tick on"
    );
    assert_eq!(shook_at, None);
}

#[test]
fn goods_stranded_in_the_backpack_are_moved_forward() {
    let view = lane_tick(|me| {
        me.items[0] = Some(stack(TANGO, 3));
        me.items[7] = Some(stack(SCROLL, 1));
    });
    let field = Field::of(&view, SlotId(0), Role::Mid).expect("a seat in the view");
    assert_eq!(
        tidy(&field),
        Some(Ask::mine(Order::Swap {
            from: bota::proto::ItemSlot(7),
            to: bota::proto::ItemSlot(1),
        }))
    );
}

#[test]
fn a_full_bag_leaves_the_backpack_where_it_is() {
    let view = lane_tick(|me| {
        for at in 0..6 {
            me.items[at] = Some(stack(20, 1));
        }
        me.items[7] = Some(stack(SCROLL, 1));
    });
    let field = Field::of(&view, SlotId(0), Role::Mid).expect("a seat in the view");
    assert!(!matches!(tidy(&field), Some(Ask { order: Order::Swap { .. }, .. })));
}

#[test]
fn an_item_is_ready_off_cooldown_settled_in_and_with_a_charge_left() {
    let view = lane_tick(|me| {
        me.items[2] = Some(stack(SALVE, 1));
        me.items[3] = Some(ItemView { charges: None, ..item(SCROLL) });
        me.items[4] = Some(stack(CLARITY, 0));
        me.items[5] = Some(ItemView { mute_left: 4, ..item(TANGO) });
    });
    let field = Field::of(&view, SlotId(0), Role::Mid).expect("a seat in the view");
    assert_eq!(ready_item(&field, ItemId(SALVE)), Some(bota::proto::ItemSlot(2)));
    assert_eq!(ready_item(&field, ItemId(SCROLL)), Some(bota::proto::ItemSlot(3)));
    assert_eq!(ready_item(&field, ItemId(CLARITY)), None, "no charge left");
    assert_eq!(ready_item(&field, ItemId(TANGO)), None, "not settled in");
    assert_eq!(ready_item(&field, ItemId(MAGIC_WAND)), None, "not held");
}

// Deeds: what may be done, and the order each turns into.

#[test]
fn every_deed_allowed_turns_into_an_order() {
    let mut view = field_of(
        vec![
            hero(1, Team::Radiant, mid()),
            creep(2, Team::Dire, Vec2::from_ints(8900, 9000), 550),
            creep(3, Team::Radiant, Vec2::from_ints(8600, 8700), 100),
            hero(5, Team::Dire, Vec2::from_ints(9200, 8800)),
        ],
        Some(1),
    );
    view.units[2].items[0] = Some(stack(SALVE, 1));
    view.units[2].items[7] = Some(stack(SCROLL, 1));
    view.units[2].abilities = vec![AbilityView { can_level: true, ..ability(RAZE_NEAR, 1, 600) }];
    let field = Field::of(&view, SlotId(0), Role::Mid).expect("a seat in the view");
    let stall = stall();
    let flags = allowed(&field, &stall);
    assert_eq!(flags.len(), DEEDS);
    for (at, may) in flags.iter().enumerate() {
        let deed = Deed::of(at);
        assert_eq!(deed.index(), at);
        if *may {
            assert!(deed.into_ask(&field, &stall).is_some(), "{deed:?} is allowed and decodes to nothing");
        }
    }
    assert!(flags[Deed::Stand.index()]);
    assert!(flags[Deed::Swing(0).index()]);
    assert!(!flags[Deed::Swing(1).index()], "there is one creep to swing at");
    assert!(flags[Deed::PutOut(0).index()], "one of its own below half is put out");
    assert!(flags[Deed::Fight(0).index()]);
    assert!(flags[Deed::Use(0).index()]);
    assert!(flags[Deed::Sell(7).index()]);
    assert!(!flags[Deed::Use(1).index()]);
    assert!(flags[Deed::Learn(0).index()]);
    assert!(!flags[Deed::Buy.index()], "away from the shop with no courier");
    assert_eq!(
        Deed::Swing(0).into_ask(&field, &stall),
        Some(Ask::swing_at(id(2)))
    );
    assert_eq!(
        Deed::Step(0).into_ask(&field, &stall),
        Some(Ask::walk_to(Vec2::from_ints(8700 + 400, 8800)))
    );
    assert_eq!(
        Deed::Step(3).into_ask(&field, &stall),
        Some(Ask::walk_to(Vec2::from_ints(8700 - 283, 8800 + 283)))
    );
    assert_eq!(Deed::Swing(4).into_ask(&field, &stall), None);
}

#[test]
fn buying_is_allowed_only_when_the_list_has_something_the_gold_pays_for() {
    let view = field_holding(vec![], 600);
    let field = Field::of(&view, SlotId(0), Role::Mid).expect("a seat in the view");
    let flags = allowed(&field, &stall());
    assert!(flags[Deed::Buy.index()]);
    assert_eq!(Deed::Buy.into_ask(&field, &stall()), Some(Ask::buy(ItemId(TANGO))));

    // Gold for the cheapest thing, but not for what the list stops at.
    let held = vec![TANGO, BRANCH, BRANCH, SCROLL, CIRCLET, MANTLE];
    let view = field_holding(held, 150);
    let field = Field::of(&view, SlotId(0), Role::Mid).expect("a seat in the view");
    assert!(!allowed(&field, &stall())[Deed::Buy.index()]);
    assert_eq!(Deed::Buy.into_ask(&field, &stall()), None);
}

#[test]
fn a_seat_with_no_body_may_do_nothing() {
    let view = field_of(vec![], None);
    let field = Field::of(&view, SlotId(0), Role::Mid).expect("a seat in the view");
    assert!(allowed(&field, &stall()).iter().all(|may| !may));
    assert_eq!(Deed::Stand.into_ask(&field, &stall()), None);
}

#[test]
fn a_square_root_reaches_the_top_of_the_range() {
    assert_eq!(isqrt(i64::MAX), 3_037_000_499);
    assert_eq!(isqrt(i64::MAX - 1), 3_037_000_499);
}

#[test]
fn the_ladder_is_walked_in_one_order_from_the_top() {
    let mut walked = Vec::new();
    let mut rung = Some(Rung::first());
    while let Some(at) = rung {
        walked.push(at);
        rung = at.next();
    }
    assert_eq!(
        walked,
        vec![
            Rung::Held, Rung::Learn, Rung::Errand, Rung::Buy, Rung::Tidy, Rung::Remedy,
            Rung::Portal, Rung::Retreat, Rung::Spell, Rung::Aim, Rung::Finish, Rung::MidSwing,
            Rung::Shake, Rung::Pull, Rung::Press, Rung::Hold,
        ]
    );
}

#[test]
fn the_first_allowed_mind_takes_the_first_flag_that_is_up() {
    assert_eq!(FirstAllowed.choose_deed(&[false, false, true, true]), Some(2));
    assert_eq!(FirstAllowed.choose_deed(&[true, false]), Some(0));
    assert_eq!(FirstAllowed.choose_deed(&[false, false]), None);
    assert_eq!(FirstAllowed.choose_deed(&[]), None);
    assert_eq!(Nothing.choose_deed(&[true, true]), None);
}

#[test]
fn the_first_allowed_mind_stands_still_where_standing_is_allowed() {
    let view = field_holding(vec![], 600);
    let field = Field::of(&view, SlotId(0), Role::Mid).expect("a seat in the view");
    let flags = allowed(&field, &stall());
    assert!(flags[Deed::Stand.index()]);
    let mut mind = FirstAllowed;
    mind.starting();
    assert_eq!(mind.choose_deed(&flags), Some(Deed::Stand.index()));
    let view = field_of(vec![], None);
    let field = Field::of(&view, SlotId(0), Role::Mid).expect("a seat in the view");
    assert_eq!(mind.choose_deed(&allowed(&field, &stall())), None);
}
