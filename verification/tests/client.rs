//! The client's own pieces: what a press means, how a slot is drawn, what
//! the shop asks, and what the catalog calls things.

use bota::catalog::{ability, effect, hero, held_items, item, price_for, whole_price};
use bota::dice::Dice;
use bota::forest::Forest;
use bota::proto::{
    AbilitySlot, AbilityView, Aim, EntityId, HeroId, ItemId, ItemSlot, ItemView, MapId, MatchInfo,
    Order, ShopEntry, Target, TickMode, Vec2,
};
use bota::proto::{
    Angle, Attributes, Fixed, PlayerView, SlotId, StatusFlags, Team, UnitKind, UnitView, WorldView,
};
use bota::slots::{
    ability_look, decide, item_look, order_for, order_on, press, Controls, Gesture, Look, Panel, Pointed,
    Press, Slot,
};

fn sold(id: u16, cost: i32, components: Vec<u16>) -> ShopEntry {
    ShopEntry {
        id: ItemId(id),
        cost,
        components: components.into_iter().map(ItemId).collect(),
    }
}

/// A shop with a wand built from a stick, two branches and a recipe.
fn shop() -> Vec<ShopEntry> {
    vec![
        sold(3, 50, vec![]),
        sold(35, 200, vec![]),
        sold(41, 150, vec![]),
        sold(36, 450, vec![35, 3, 3, 41]),
        sold(9, 155, vec![]),
    ]
}

#[test]
fn a_whole_price_is_read_off_the_shop() {
    assert_eq!(whole_price(&shop(), ItemId(36)), 450);
    assert_eq!(whole_price(&shop(), ItemId(3)), 50);
    assert_eq!(whole_price(&shop(), ItemId(999)), 0);
}

#[test]
fn only_the_parts_of_what_is_asked_for_are_looked_for_in_hand() {
    let shop = shop();
    // Nothing in hand: every part is paid for.
    assert_eq!(price_for(&shop, ItemId(36), &[]), 200 + 50 + 50 + 150);
    // One branch and the stick in hand: the second branch and the recipe are
    // what is left to pay for.
    assert_eq!(price_for(&shop, ItemId(36), &[ItemId(3), ItemId(35)]), 50 + 150);
    // What is bought whole is bought however many are held.
    assert_eq!(price_for(&shop, ItemId(3), &[ItemId(3), ItemId(3)]), 50);
    // A part held twice is spent once per part it stands for.
    assert_eq!(
        price_for(&shop, ItemId(36), &[ItemId(3), ItemId(3), ItemId(3)]),
        200 + 150
    );
}

#[test]
fn the_catalog_finds_a_thing_by_its_wire_id() {
    let crit = ability(0).expect("the crit is catalogued");
    assert_eq!(crit.id, 0);
    assert_eq!(crit.name, "Crit");
    assert_eq!(ability(17), None);
    assert_eq!(item(3).map(|face| face.name), Some("Branch"));
    assert_eq!(item(42), None);
    assert_eq!(effect(11).map(|face| face.name), Some("Souls"));
    assert_eq!(effect(12), None);
    assert_eq!(hero(2).map(|face| face.name), Some("Shadow Fiend"));
    assert_eq!(hero(3), None);
}

#[test]
fn ctrl_on_an_ability_spends_a_point() {
    assert_eq!(
        decide(Slot::Ability(2), true, Some(Some(Aim::Point)), None, None),
        Press::Send(Order::Learn { slot: AbilitySlot(2) })
    );
}

#[test]
fn the_backpack_and_an_empty_slot_mean_nothing() {
    assert_eq!(decide(Slot::Item(7), false, Some(Some(Aim::Own)), None, None), Press::Nothing);
    assert_eq!(decide(Slot::Item(1), false, None, None, None), Press::Nothing);
}

#[test]
fn what_works_on_its_own_is_sent_and_what_is_aimed_is_taken_up() {
    assert_eq!(
        decide(Slot::Ability(0), false, Some(Some(Aim::Own)), None, None),
        Press::Send(Order::Cast { slot: AbilitySlot(0), target: Target::Nothing })
    );
    assert_eq!(
        decide(Slot::Item(0), false, Some(None), None, None),
        Press::Send(Order::Use { slot: ItemSlot(0), target: Target::Nothing })
    );
    assert_eq!(
        decide(Slot::Ability(1), false, Some(Some(Aim::Point)), None, None),
        Press::Aim(Slot::Ability(1))
    );
}

#[test]
fn a_second_press_of_a_unit_aimed_slot_aims_it_at_its_holder() {
    let me = EntityId { idx: 4, generation: 1 };
    assert_eq!(
        decide(Slot::Item(2), false, Some(Some(Aim::Unit)), Some(Slot::Item(2)), Some(me)),
        Press::Send(order_for(Slot::Item(2), Target::Unit(me)))
    );
    assert_eq!(
        decide(Slot::Item(2), false, Some(Some(Aim::Unit)), Some(Slot::Item(2)), None),
        Press::Nothing
    );
}

fn spell(level: u8, cooldown: u32, passive: bool) -> AbilityView {
    AbilityView {
        id: bota::proto::AbilityId(1),
        level,
        max_level: 4,
        cooldown_left: cooldown,
        mana_cost: 50,
        range: 0,
        aim: Aim::Own,
        passive,
        on: false,
        can_level: false,
    }
}

#[test]
fn a_slot_is_drawn_as_what_it_holds() {
    assert_eq!(ability_look(None, 100), Look::default());
    let ready = ability_look(Some(&spell(1, 0, false)), 100);
    assert!(ready.filled && ready.learned && ready.usable);
    assert!(!ability_look(Some(&spell(1, 0, false)), 40).usable);
    assert!(!ability_look(Some(&spell(0, 0, false)), 100).learned);
    let waiting = ability_look(Some(&spell(2, 12, true)), 100);
    assert!(waiting.passive && !waiting.usable);
    assert_eq!(waiting.cooldown_left, 12);
}

#[test]
fn an_item_is_used_only_from_the_inventory_and_with_charges_left() {
    let salve = ItemView {
        id: ItemId(2),
        charges: Some(1),
        cooldown_left: 0,
        mute_left: 0,
        mode: None,
        mana_cost: 0,
        range: 0,
        aim: Some(Aim::Unit),
        for_sale: false,
    };
    assert!(item_look(Some(&salve), 0, 0).usable);
    assert!(!item_look(Some(&salve), 6, 0).usable);
    let spent = ItemView { charges: Some(0), ..salve };
    assert!(!item_look(Some(&spent), 0, 0).usable);
    let worn = ItemView { aim: None, ..salve };
    let look = item_look(Some(&worn), 0, 0);
    assert!(look.passive && !look.usable && look.learned);
    assert_eq!(item_look(None, 0, 0), Look::default());
}

#[test]
fn two_streams_from_one_seed_agree() {
    let mut one = Dice::from_seed(7);
    let mut other = Dice::from_seed(7);
    let mut third = Dice::from_seed(8);
    let a = one.next_u64();
    assert_eq!(a, other.next_u64());
    assert_ne!(a, third.next_u64());
    assert_ne!(a, one.next_u64());
}

#[test]
fn the_first_number_of_a_stream_is_the_splitmix_of_the_seed() {
    // The seed is mixed with the step, then stepped, then stirred.
    let mut dice = Dice::from_seed(0);
    let count: u64 = 0x9e37_79b9_7f4a_7c15u64 ^ 0;
    let mut z = count.wrapping_add(0x9e37_79b9_7f4a_7c15);
    z = (z ^ (z >> 30)).wrapping_mul(0xbf58_476d_1ce4_e5b9);
    z = (z ^ (z >> 27)).wrapping_mul(0x94d0_49bb_1331_11eb);
    assert_eq!(dice.next_u64(), z ^ (z >> 31));
}

#[test]
fn the_forest_is_read_off_the_terms_of_the_match() {
    let trees = vec![Vec2::from_ints(100, 200), Vec2::from_ints(300, 400)];
    let info = MatchInfo {
        match_id: 1,
        map: MapId(0),
        tick_rate: 30,
        pregame_ticks: 900,
        trees: trees.clone(),
        mode: TickMode::Lockstep,
        picks: Vec::new(),
        shop: Vec::new(),
    };
    assert_eq!(Forest::of(&info).trees, trees);
    let _ = HeroId(0);
}

#[test]
fn round_seeds_move_with_the_generation_and_never_repeat_within_one() {
    let seeds = bota::breed::round_seeds(1, 1);
    assert_eq!(seeds.len(), bota::swiss::SWISS_ROUNDS + 1, "a seed a round, and the anchor match's last");
    assert_eq!(seeds, bota::breed::round_seeds(1, 1), "the same generation draws the same seeds");
    assert_ne!(seeds, bota::breed::round_seeds(1, 2));
    for one in 0..seeds.len() {
        for other in one + 1..seeds.len() {
            assert_ne!(seeds[one], seeds[other], "no round repeats another's");
        }
    }
}

#[test]
fn trials_and_reports_are_drawn_from_their_own_streams() {
    let trials = bota::breed::trials_of(1, 3, 5);
    assert_eq!(trials.len(), 3);
    assert_eq!(trials, bota::breed::trials_of(1, 3, 5));
    assert_ne!(trials, bota::breed::trials_of(1, 3, 6));
    let reported = bota::breed::reported_on();
    assert_eq!(reported, bota::breed::draws(bota::breed::REPORTING_SEED, bota::breed::REPORTED_ON));
    let mut dice = Dice::from_seed(bota::breed::REPORTING_SEED);
    assert_eq!(reported[0], dice.next_u64());
}

/// A hero with a salve in its first slot and a bolt in its first ability
/// slot.
fn holder() -> UnitView {
    let mut items = vec![None; 9];
    items[0] = Some(ItemView {
        id: ItemId(2),
        charges: Some(1),
        cooldown_left: 0,
        mute_left: 0,
        mode: None,
        mana_cost: 0,
        range: 250,
        aim: Some(Aim::Unit),
        for_sale: false,
    });
    UnitView {
        id: EntityId { idx: 4, generation: 1 },
        kind: UnitKind::Hero,
        team: Team::Radiant,
        pos: Vec2::from_ints(100, 100),
        facing: Angle { brads: 0 },
        hp: 600,
        max_hp: 600,
        mana: 300,
        max_mana: 300,
        move_speed: Fixed::from_int(300),
        attack_damage: 50,
        attack_range: Fixed::from_int(500),
        attack_interval: 51,
        attack_speed: 100,
        armor: Fixed::from_int(2),
        magic_resist: Fixed::zero(),
        radius: Fixed::from_int(24),
        vision_radius: Fixed::from_int(1800),
        true_sight_radius: Fixed::zero(),
        statuses: StatusFlags { bits: 0 },
        attributes: Attributes::all(20),
        primary: None,
        hero: Some(HeroId(0)),
        owner: Some(SlotId(0)),
        level: 1,
        abilities: vec![AbilityView { range: 550, aim: Aim::Unit, ..spell(1, 0, false) }],
        items,
        effects: Vec::new(),
    }
}

fn panel_view() -> WorldView {
    let mut stash = vec![None; 6];
    stash[1] = Some(ItemView {
        id: ItemId(7),
        charges: Some(3),
        cooldown_left: 0,
        mute_left: 0,
        mode: None,
        mana_cost: 0,
        range: 165,
        aim: Some(Aim::Tree),
        for_sale: false,
    });
    WorldView {
        tick: 1,
        viewer: Some(Team::Radiant),
        units: vec![holder()],
        players: vec![PlayerView {
            slot: SlotId(0),
            team: Team::Radiant,
            hero: HeroId(0),
            unit: Some(EntityId { idx: 4, generation: 1 }),
            level: 1,
            xp: 0,
            gold: Some(600),
            stash: Some(stash),
            kit: None,
            kills: 0,
            deaths: 0,
            assists: 0,
            last_hits: 0,
            denies: 0,
            respawn_left: 0,
        }],
        felled_trees: Vec::new(),
        planted_trees: Vec::new(),
    }
}

#[test]
fn a_salve_is_drunk_with_two_presses_of_its_own_key() {
    let view = panel_view();
    let me = EntityId { idx: 4, generation: 1 };
    let mut panel = Panel { view: Some(&view), mine: Some(SlotId(0)), commanded: Some(me), aiming: None };
    assert_eq!(press(&panel, Slot::Item(0), false), Press::Aim(Slot::Item(0)));
    panel.aiming = Some(Slot::Item(0));
    assert_eq!(
        press(&panel, Slot::Item(0), false),
        Press::Send(Order::Use { slot: ItemSlot(0), target: Target::Unit(me) })
    );
    assert_eq!(press(&panel, Slot::Item(3), false), Press::Nothing);
}

#[test]
fn the_panel_reads_the_bag_of_whom_it_is_about_and_the_stash_of_its_seat() {
    let view = panel_view();
    let me = EntityId { idx: 4, generation: 1 };
    let panel = Panel { view: Some(&view), mine: Some(SlotId(0)), commanded: Some(me), aiming: None };
    assert_eq!(panel.slot_unit().map(|unit| unit.id), Some(me));
    assert_eq!(panel.item_in(0).map(|held| held.id), Some(ItemId(2)));
    assert_eq!(panel.item_in(10).map(|held| held.id), Some(ItemId(7)));
    assert_eq!(panel.item_in(40), None);
    assert_eq!(panel.aim_in(Slot::Ability(0)), Some(Aim::Unit));
    assert_eq!(panel.aim_in(Slot::Item(10)), Some(Aim::Tree));
    assert_eq!(panel.reach_of(Slot::Ability(0)), 550);
    assert_eq!(panel.reach_of(Slot::Item(0)), 250);
    assert_eq!(panel.reach_of(Slot::Ability(3)), 0);
    let nobody = Panel { view: Some(&view), mine: None, commanded: None, aiming: None };
    assert_eq!(nobody.slot_unit().map(|unit| unit.id), None);
    assert_eq!(nobody.item_in(10), None);
}

#[test]
fn a_felled_tree_is_gone_and_a_planted_one_stands_after_the_map_s_own() {
    let forest = Forest {
        trees: vec![Vec2::from_ints(100, 200), Vec2::from_ints(300, 400), Vec2::from_ints(500, 600)],
    };
    let view = WorldView {
        tick: 10,
        viewer: None,
        units: Vec::new(),
        players: Vec::new(),
        felled_trees: vec![1, 7],
        planted_trees: vec![Vec2::from_ints(900, 900)],
    };
    assert_eq!(
        forest.standing(&view),
        vec![Vec2::from_ints(100, 200), Vec2::from_ints(500, 600), Vec2::from_ints(900, 900)]
    );
}

#[test]
fn what_a_seat_holds_is_its_bag_then_its_stash() {
    let mut view = panel_view();
    assert_eq!(held_items(&view, &view.players[0]), vec![ItemId(2), ItemId(7)]);
    // Held items price a build: a salve in hand is not bought again as a part.
    let shop = vec![sold(2, 100, vec![]), sold(7, 50, vec![]), sold(9, 400, vec![2, 7, 7])];
    let held = held_items(&view, &view.players[0]);
    assert_eq!(price_for(&shop, ItemId(9), &held), 50, "only the second of two parts is still wanted");
    // With no body in sight only the stash is counted.
    view.units.clear();
    assert_eq!(held_items(&view, &view.players[0]), vec![ItemId(7)]);
    view.players[0].stash = None;
    assert!(held_items(&view, &view.players[0]).is_empty());
}

/// Open ground under the cursor at a spot.
fn open_ground() -> Pointed {
    Pointed { any_unit: None, other_unit: None, loot: None, enemy_near: None, ground: Vec2::from_ints(500, 600) }
}

#[test]
fn a_right_click_reads_the_ground() {
    let idle = Controls { armed: false, aiming: None };
    let them = EntityId { idx: 9, generation: 1 };
    let mut c = idle;
    assert_eq!(
        order_on(&mut c, Gesture::Right, &open_ground(), None),
        Some(Order::Move { target: Target::Pos(Vec2::from_ints(500, 600)) })
    );
    let enemy = Pointed { other_unit: Some((them, false)), ..open_ground() };
    assert_eq!(order_on(&mut c, Gesture::Right, &enemy, None), Some(Order::Attack { target: Target::Unit(them) }));
    let friend = Pointed { other_unit: Some((them, true)), ..open_ground() };
    assert_eq!(order_on(&mut c, Gesture::Right, &friend, None), Some(Order::Move { target: Target::Unit(them) }));
    let loot = Pointed { loot: Some(them), enemy_near: Some(EntityId { idx: 3, generation: 1 }), ..open_ground() };
    assert_eq!(order_on(&mut c, Gesture::Right, &loot, None), Some(Order::Take { target: Target::Unit(them) }));
    let near = Pointed { enemy_near: Some(them), ..open_ground() };
    assert_eq!(order_on(&mut c, Gesture::Right, &near, None), Some(Order::Attack { target: Target::Unit(them) }));
    // A right click drops whatever was armed or taken up.
    let mut c = Controls { armed: true, aiming: Some(Slot::Item(0)) };
    order_on(&mut c, Gesture::Right, &open_ground(), None);
    assert_eq!(c, idle);
}

#[test]
fn an_armed_left_click_attacks_and_a_slot_taken_up_is_aimed() {
    let them = EntityId { idx: 9, generation: 1 };
    let mut c = Controls { armed: false, aiming: None };
    assert_eq!(order_on(&mut c, Gesture::Left, &open_ground(), None), None, "an idle left click orders nothing");
    assert_eq!(order_on(&mut c, Gesture::Arm, &open_ground(), None), None);
    assert!(c.armed);
    assert_eq!(
        order_on(&mut c, Gesture::Left, &open_ground(), None),
        Some(Order::Attack { target: Target::Pos(Vec2::from_ints(500, 600)) })
    );
    assert!(!c.armed, "the attack spends the arming");

    let mut c = Controls { armed: false, aiming: Some(Slot::Ability(1)) };
    let on_them = Pointed { any_unit: Some(them), ..open_ground() };
    assert_eq!(
        order_on(&mut c, Gesture::Left, &on_them, Some(Aim::Unit)),
        Some(Order::Cast { slot: AbilitySlot(1), target: Target::Unit(them) })
    );
    assert_eq!(c.aiming, None);
    let mut c = Controls { armed: false, aiming: Some(Slot::Item(2)) };
    assert_eq!(order_on(&mut c, Gesture::Left, &open_ground(), Some(Aim::Unit)), None, "nobody to aim at");
    assert_eq!(c.aiming, None, "the slot is put down all the same");
    let mut c = Controls { armed: false, aiming: Some(Slot::Item(2)) };
    assert_eq!(
        order_on(&mut c, Gesture::Left, &open_ground(), Some(Aim::Tree)),
        Some(Order::Use { slot: ItemSlot(2), target: Target::Pos(Vec2::from_ints(500, 600)) })
    );
    let mut c = Controls { armed: true, aiming: Some(Slot::Item(2)) };
    assert_eq!(order_on(&mut c, Gesture::Stop, &open_ground(), None), Some(Order::Move { target: Target::Nothing }));
    assert_eq!(c, Controls { armed: false, aiming: None });
}
