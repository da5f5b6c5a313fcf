//! Settling a plan's stages, and what is refused.

use bota::lane::Role;
use bota::plan::{term_of, terms, Lesson, Refusal, Stage, Wrong, LESSONS};

/// A stage that says nothing at all.
fn blank() -> Stage {
    Stage {
        score: None,
        ticks: None,
        generations: None,
        population: None,
        matches: None,
        survivors: None,
        lanes: None,
        role: None,
        seed: None,
        mutation_sound: true,
    }
}

/// A stage that names a lesson and nothing else.
fn scored(lesson: &str) -> Stage {
    Stage { score: Some(lesson.to_string()), ..blank() }
}

#[test]
fn every_lesson_and_every_role_can_be_spelled() {
    for lesson in LESSONS {
        assert_eq!(
            Lesson::named(lesson.spelling()),
            Some(lesson),
            "{} spells itself back",
            lesson.spelling()
        );
    }
    for number in 1..=5 {
        let role = Role::of(number).expect("a role");
        assert_eq!(Role::named(role.spelling()), Some(role));
    }
}

#[test]
fn a_stage_that_says_nothing_takes_the_lesson_clock_and_a_plain_crowd() {
    let settled = terms(&blank(), &vec![scored("hold_the_lane")]).expect("stages");
    assert_eq!(settled.len(), 1);
    let term = &settled[0];
    assert_eq!(term.lesson, Lesson::HoldTheLane);
    assert_eq!(term.ticks, None, "the lesson's own clock, when the stage names none");
    assert_eq!(term.folk, 10);
    assert_eq!(term.trials, 1);
    assert_eq!(term.lives, 30);
    assert_eq!(term.keep, 2, "a quarter of the crowd");
    assert_eq!(term.role, Role::Mid);
}

#[test]
fn a_stage_overrides_the_defaults_and_the_defaults_override_nothing() {
    let defaults = Stage {
        population: Some(24),
        generations: Some(5),
        role: Some("offlane".to_string()),
        ..blank()
    };
    let first = Stage { ticks: Some(600), ..scored("stock_up") };
    let second = Stage {
        generations: Some(2),
        survivors: Some(1),
        matches: Some(3),
        lanes: Some(4),
        seed: Some(77),
        role: Some("support".to_string()),
        ..scored("grow_rich")
    };
    let settled = terms(&defaults, &vec![first, second]).expect("stages");
    assert_eq!(settled.len(), 2, "the stages stay in the order they were written");

    let first = &settled[0];
    assert_eq!(first.lesson, Lesson::StockUp);
    assert_eq!(first.ticks, Some(600), "the stage's clock, not the lesson's");
    assert_eq!(first.folk, 24, "from the defaults");
    assert_eq!(first.lives, 5, "from the defaults");
    assert_eq!(first.keep, 6, "a quarter of the population it settled on");
    assert_eq!(first.role, Role::Offlane);

    let second = &settled[1];
    assert_eq!(second.lesson, Lesson::GrowRich);
    assert_eq!(second.folk, 24, "still from the defaults");
    assert_eq!(second.lives, 2, "the stage wins over the defaults");
    assert_eq!(second.keep, 1);
    assert_eq!(second.trials, 3);
    assert_eq!(second.lanes, 4);
    assert_eq!(second.seed, 77);
    assert_eq!(second.role, Role::Support);
}

#[test]
fn nonsense_is_refused_when_the_plan_is_read() {
    let wrong = |stage: Stage| term_of(&blank(), &stage).expect_err("this stage is nonsense");
    assert_eq!(terms(&blank(), &Vec::new()), Err(Refusal::Empty));
    assert_eq!(wrong(scored("lane_keep")), Wrong::NoSuchLesson);
    assert_eq!(wrong(Stage { ticks: Some(300), ..blank() }), Wrong::NoScore);
    assert_eq!(wrong(Stage { ticks: Some(0), ..scored("stock_up") }), Wrong::NoughtTicks);
    assert_eq!(wrong(Stage { population: Some(1), ..scored("stock_up") }), Wrong::TooFew(1));
    assert_eq!(wrong(Stage { matches: Some(0), ..scored("stock_up") }), Wrong::NoMatches);
    assert_eq!(wrong(Stage { generations: Some(0), ..scored("stock_up") }), Wrong::NoGenerations);
    assert_eq!(
        wrong(Stage { population: Some(4), survivors: Some(9), ..scored("stock_up") }),
        Wrong::Survivors(9, 4)
    );
    assert_eq!(wrong(Stage { lanes: Some(0), ..scored("stock_up") }), Wrong::NoLanes);
    assert_eq!(wrong(Stage { role: Some("jungler".to_string()), ..scored("stock_up") }), Wrong::NoSuchRole);
    assert_eq!(wrong(Stage { mutation_sound: false, ..scored("stock_up") }), Wrong::Mutation);
}

#[test]
fn a_stage_that_goes_wrong_says_which_one_it_was() {
    let said = terms(&blank(), &vec![scored("stock_up"), scored("nowhere")])
        .expect_err("the second stage is nonsense");
    assert_eq!(said, Refusal::Stage(2, Wrong::NoSuchLesson));
}

#[test]
fn the_first_of_two_wrong_stages_is_the_one_named() {
    let said = terms(
        &blank(),
        &vec![scored("stock_up"), Stage { lanes: Some(0), ..scored("grow_rich") }, scored("nowhere")],
    )
    .expect_err("two stages are nonsense");
    assert_eq!(said, Refusal::Stage(2, Wrong::NoLanes));
}
