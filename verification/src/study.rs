//! Where a hero's skill points go.
//!
//! A plan is the abilities in the order points are spent on them, one entry
//! per point. The place of an entry is the hero level that point is spent at,
//! so the tenth entry is the last point a hero gets.

use vstd::prelude::*;

use crate::field::{book_of, deref, first_where, has_ability, lemma_first_where, lemma_nowhere, Field};
use crate::numbers::{
    BOUNCE, CRIT, FRENZY, NECROMASTERY, RAZE_NEAR, REQUIEM, SHADOW_FIEND, SYLLA, VOLLEY,
};
use crate::proto::{AbilityId, AbilitySlot, AbilityView, HeroId};

verus! {

/// Shadow Fiend's points: the razes first, the souls beside them, the
/// requiem whenever it opens.
pub const FIEND_PLAN: [u16; 10] = [
    RAZE_NEAR,
    NECROMASTERY,
    RAZE_NEAR,
    NECROMASTERY,
    RAZE_NEAR,
    REQUIEM,
    RAZE_NEAR,
    REQUIEM,
    NECROMASTERY,
    REQUIEM,
];

/// Sylla's points: the bolt first, the crit beside it, the volley whenever it
/// opens.
pub const SYLLA_PLAN: [u16; 10] = [
    BOUNCE,
    CRIT,
    BOUNCE,
    CRIT,
    BOUNCE,
    VOLLEY,
    BOUNCE,
    VOLLEY,
    FRENZY,
    VOLLEY,
];

/// The plan a hero follows, by the numbers of its abilities. Empty for one
/// the bot has no plan for.
pub open spec fn plan_spec(hero: HeroId) -> Seq<u16> {
    if hero.0 == SHADOW_FIEND {
        FIEND_PLAN@
    } else if hero.0 == SYLLA {
        SYLLA_PLAN@
    } else {
        Seq::empty()
    }
}

/// The abilities a row of numbers names.
pub open spec fn abilities_named(names: Seq<u16>) -> Seq<AbilityId> {
    names.map_values(|n: u16| AbilityId(n))
}

/// The abilities a row of numbers names, in the same order.
fn name_abilities(names: &[u16]) -> (ids: Vec<AbilityId>)
    ensures
        ids@ == abilities_named(names@),
{
    let mut ids: Vec<AbilityId> = Vec::new();
    let mut i: usize = 0;
    while i < names.len()
        invariant
            i <= names@.len(),
            ids@ == abilities_named(names@.take(i as int)),
        decreases names@.len() - i,
    {
        ids.push(AbilityId(names[i]));
        i += 1;
        assert(abilities_named(names@.take(i as int)) =~= abilities_named(names@.take(i - 1)).push(
            AbilityId(names@[i - 1]),
        ));
    }
    assert(names@.take(names@.len() as int) =~= names@);
    ids
}

/// The plan a hero follows. Empty for one the bot has no plan for.
pub fn plan_of(hero: HeroId) -> (plan: Vec<AbilityId>)
    ensures
        plan@ == abilities_named(plan_spec(hero)),
{
    if hero.0 == SHADOW_FIEND {
        name_abilities(FIEND_PLAN.as_slice())
    } else if hero.0 == SYLLA {
        name_abilities(SYLLA_PLAN.as_slice())
    } else {
        Vec::new()
    }
}

/// The level the entry at one place of a plan asks its ability to reach: how
/// many times the plan names it up to and including that place.
pub open spec fn plan_level(plan: Seq<AbilityId>, i: int) -> nat {
    plan.take(i + 1).filter(|x: AbilityId| x == plan[i]).len()
}

/// Where in a book the first slot holding an ability sits.
pub open spec fn slot_in(book: Option<Seq<AbilityView>>, id: AbilityId) -> Option<int> {
    match book {
        Some(b) => first_where(b, has_ability(id)),
        None => None,
    }
}

/// The first entry of a plan, from one place on, whose ability is in the
/// book below the level the entry asks for.
pub open spec fn behind_plan(book: Option<Seq<AbilityView>>, plan: Seq<AbilityId>, from: int) -> Option<
    int,
>
    decreases plan.len() - from,
{
    if from < 0 || from >= plan.len() {
        None
    } else if slot_in(book, plan[from]) matches Some(k) && book->0[k].level < plan_level(
        plan,
        from,
    ) {
        Some(from)
    } else {
        behind_plan(book, plan, from + 1)
    }
}

/// The first entry of a plan, from one place on, whose ability is in the
/// book and would take a point now.
pub open spec fn open_in_plan(book: Option<Seq<AbilityView>>, plan: Seq<AbilityId>, from: int) -> Option<
    int,
>
    decreases plan.len() - from,
{
    if from < 0 || from >= plan.len() {
        None
    } else if slot_in(book, plan[from]) matches Some(k) && book->0[k].can_level {
        Some(from)
    } else {
        open_in_plan(book, plan, from + 1)
    }
}

/// Whether an ability slot would take a point now.
pub open spec fn takes_point() -> spec_fn(AbilityView) -> bool {
    |a: AbilityView| a.can_level
}

/// Where a waiting skill point goes, for a book, the hero's own slots and a
/// plan: the plan while it can be followed; else the first slot of the plan
/// that will take a point; else the first of the hero's own slots that will.
pub open spec fn point_for(
    book: Option<Seq<AbilityView>>,
    own: Seq<AbilityView>,
    plan: Seq<AbilityId>,
) -> Option<AbilitySlot> {
    match behind_plan(book, plan, 0) {
        Some(i) => {
            let k = slot_in(book, plan[i])->0;
            if book->0[k].can_level {
                Some(AbilitySlot(k as u8))
            } else {
                None
            }
        },
        None => match open_in_plan(book, plan, 0) {
            Some(i) => Some(AbilitySlot(slot_in(book, plan[i])->0 as u8)),
            None => match first_where(own, takes_point()) {
                Some(k) => Some(AbilitySlot(k as u8)),
                None => None,
            },
        },
    }
}

/// How many times a plan names the entry at one place, up to that place.
fn level_upto(plan: &Vec<AbilityId>, i: usize) -> (n: u8)
    requires
        i < plan@.len(),
        plan@.len() <= 255,
    ensures
        n == plan_level(plan@, i as int),
{
    let ghost same = |x: AbilityId| x == plan@[i as int];
    let mut n: u8 = 0;
    let mut j: usize = 0;
    while j <= i
        invariant
            j <= i + 1,
            i < plan@.len() <= 255,
            same == (|x: AbilityId| x == plan@[i as int]),
            n == plan@.take(j as int).filter(same).len(),
            n <= j,
        decreases i + 1 - j,
    {
        proof {
            assert(plan@.take(j as int + 1) =~= plan@.take(j as int).push(plan@[j as int]));
            plan@.take(j as int).lemma_filter_push(plan@[j as int], same);
        }
        if plan[j] == plan[i] {
            n += 1;
        }
        j += 1;
    }
    n
}

/// The slot a waiting skill point should go into.
///
/// The plan is followed while it can be; a point the plan has nowhere to put
/// goes into the first slot of the plan that will take one, and then into the
/// first slot at all. `None` when no point is waiting.
pub fn next_point(field: &Field) -> (slot: Option<AbilitySlot>)
    ensures
        slot == point_for(
            book_of(deref(field.me), *field.seat),
            match field.me {
                Some(me) => me.abilities@,
                None => Seq::empty(),
            },
            abilities_named(plan_spec(field.hero)),
        ),
{
    let plan = plan_of(field.hero);
    let ghost book = book_of(deref(field.me), *field.seat);
    let ghost named = abilities_named(plan_spec(field.hero));
    assert(plan@.len() <= 10);
    let mut i: usize = 0;
    while i < plan.len()
        invariant
            plan@ == named,
            named == abilities_named(plan_spec(field.hero)),
            plan@.len() <= 10,
            book == book_of(deref(field.me), *field.seat),
            i <= plan@.len(),
            behind_plan(book, plan@, 0) == behind_plan(book, plan@, i as int),
        decreases plan@.len() - i,
    {
        let level = level_upto(&plan, i);
        match field.ability(plan[i]) {
            Some((slot, held)) => {
                if held.level < level {
                    return if held.can_level {
                        Some(slot)
                    } else {
                        None
                    };
                }
            },
            None => {},
        }
        i += 1;
    }
    assert(behind_plan(book, plan@, 0) is None);
    let mut j: usize = 0;
    while j < plan.len()
        invariant
            plan@ == named,
            named == abilities_named(plan_spec(field.hero)),
            book == book_of(deref(field.me), *field.seat),
            behind_plan(book, plan@, 0) is None,
            j <= plan@.len(),
            open_in_plan(book, plan@, 0) == open_in_plan(book, plan@, j as int),
        decreases plan@.len() - j,
    {
        match field.ability(plan[j]) {
            Some((slot, held)) => {
                if held.can_level {
                    return Some(slot);
                }
            },
            None => {},
        }
        j += 1;
    }
    let own = field.abilities();
    let ghost test = takes_point();
    let mut k: usize = 0;
    while k < own.len()
        invariant
            plan@ == named,
            named == abilities_named(plan_spec(field.hero)),
            book == book_of(deref(field.me), *field.seat),
            behind_plan(book, plan@, 0) is None,
            open_in_plan(book, plan@, 0) is None,
            own@ == match field.me {
                Some(me) => me.abilities@,
                None => Seq::<AbilityView>::empty(),
            },
            test == takes_point(),
            k <= own@.len(),
            forall|m: int| 0 <= m < k ==> !test(#[trigger] own@[m]),
        decreases own@.len() - k,
    {
        if own[k].can_level {
            proof {
                lemma_first_where(own@, test, k as int);
            }
            return Some(AbilitySlot(k as u8));
        }
        k += 1;
    }
    proof {
        lemma_nowhere(own@, test);
    }
    None
}

/// How many points a plan puts into one ability.
pub open spec fn points_in(plan: Seq<u16>, id: u16) -> nat
    decreases plan.len(),
{
    if plan.len() == 0 {
        0
    } else {
        points_in(plan.drop_last(), id) + if plan.last() == id {
            1nat
        } else {
            0nat
        }
    }
}

/// Each plan spends one point per hero level, ten in all; neither asks an
/// ability for more points than it holds, four for the basic ones and three
/// for the ultimate; and neither asks for its ultimate before the sixth
/// point, when it first opens.
pub proof fn lemma_plans_fit_the_book()
    ensures
        FIEND_PLAN@.len() == 10,
        SYLLA_PLAN@.len() == 10,
        points_in(FIEND_PLAN@, RAZE_NEAR) <= 4,
        points_in(FIEND_PLAN@, NECROMASTERY) <= 4,
        points_in(FIEND_PLAN@, REQUIEM) <= 3,
        points_in(SYLLA_PLAN@, BOUNCE) <= 4,
        points_in(SYLLA_PLAN@, CRIT) <= 4,
        points_in(SYLLA_PLAN@, VOLLEY) <= 3,
        forall|i: int| 0 <= i < 10 && FIEND_PLAN@[i] == REQUIEM ==> i + 1 >= 6,
        forall|i: int| 0 <= i < 10 && SYLLA_PLAN@[i] == VOLLEY ==> i + 1 >= 6,
{
    reveal_with_fuel(points_in, 11);
    assert(FIEND_PLAN@ == seq![13u16, 17, 13, 17, 13, 16, 13, 16, 17, 16]);
    assert(SYLLA_PLAN@ == seq![2u16, 0, 2, 0, 2, 3, 2, 3, 1, 3]);
    assert(points_in(seq![13u16, 17, 13, 17, 13, 16, 13, 16, 17, 16], 13) == 4);
    assert(points_in(seq![13u16, 17, 13, 17, 13, 16, 13, 16, 17, 16], 17) == 3);
    assert(points_in(seq![13u16, 17, 13, 17, 13, 16, 13, 16, 17, 16], 16) == 3);
    assert(points_in(seq![2u16, 0, 2, 0, 2, 3, 2, 3, 1, 3], 2) == 4);
    assert(points_in(seq![2u16, 0, 2, 0, 2, 3, 2, 3, 1, 3], 0) == 2);
    assert(points_in(seq![2u16, 0, 2, 0, 2, 3, 2, 3, 1, 3], 3) == 3);
}

/// Where the plan is found behind, its ability is in the book.
proof fn lemma_behind_found(book: Option<Seq<AbilityView>>, plan: Seq<AbilityId>, from: int)
    ensures
        behind_plan(book, plan, from) matches Some(i) ==> 0 <= i < plan.len() && slot_in(
            book,
            plan[i],
        ) is Some,
    decreases plan.len() - from,
{
    if 0 <= from < plan.len() {
        lemma_behind_found(book, plan, from + 1);
    }
}

/// Where the plan finds a slot open, its ability is in the book and takes a
/// point.
proof fn lemma_open_found(book: Option<Seq<AbilityView>>, plan: Seq<AbilityId>, from: int)
    ensures
        open_in_plan(book, plan, from) matches Some(i) ==> 0 <= i < plan.len() && (slot_in(
            book,
            plan[i],
        ) matches Some(k) && book->0[k].can_level),
    decreases plan.len() - from,
{
    if 0 <= from < plan.len() {
        lemma_open_found(book, plan, from + 1);
    }
}

/// A skill point only ever goes into a slot that will take it: one of the
/// book's, or of the hero's own, whose ability could be levelled now.
pub proof fn lemma_a_point_goes_where_it_is_taken(
    book: Option<Seq<AbilityView>>,
    own: Seq<AbilityView>,
    plan: Seq<AbilityId>,
)
    ensures
        point_for(book, own, plan) matches Some(slot) ==> (exists|k: int|
            0 <= k < book->0.len() && book is Some && (#[trigger] book->0[k]).can_level && slot
                == AbilitySlot(k as u8)) || (exists|k: int|
            0 <= k < own.len() && (#[trigger] own[k]).can_level && slot == AbilitySlot(k as u8)),
{
    lemma_behind_found(book, plan, 0);
    lemma_open_found(book, plan, 0);
    crate::field::lemma_first_found(own, takes_point());
    match behind_plan(book, plan, 0) {
        Some(i) => {
            let b = book->0;
            crate::field::lemma_first_found(b, has_ability(plan[i]));
            let k = slot_in(book, plan[i])->0;
            if b[k].can_level {
                assert(0 <= k < book->0.len() && book is Some && book->0[k].can_level);
            }
        },
        None => match open_in_plan(book, plan, 0) {
            Some(i) => {
                let b = book->0;
                crate::field::lemma_first_found(b, has_ability(plan[i]));
                let k = slot_in(book, plan[i])->0;
                assert(0 <= k < book->0.len() && book is Some && book->0[k].can_level);
            },
            None => {
                if let Some(k) = first_where(own, takes_point()) {
                    assert(own[k].can_level);
                }
            },
        },
    }
}

} // verus!
