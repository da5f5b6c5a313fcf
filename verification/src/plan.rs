//! A training run as it is written down, settled stage by stage.
//!
//! A plan is a sequence of stages, each naming a lesson and how long a crowd
//! is bred at it. A stage may leave anything but the lesson out: what it
//! does not say comes from the plan's defaults, and what those do not say
//! either comes from the lesson's own clock and from a plain crowd.
//!
//! Everything a plan can get wrong is answered before any stage is taught:
//! a run of several hours that stops on its sixth stage because a number
//! there is nonsense has thrown away the five before it.

use vstd::prelude::*;

use crate::field::{
    first_where, lemma_first_found, lemma_first_is_first, lemma_first_where, lemma_nowhere,
};
use crate::lane::{role_read_as, Role};

verus! {

/// What a stage pays for.
#[derive(Clone, Copy, Debug, PartialEq, Eq, Structural)]
pub enum Lesson {
    /// Finding the lane at all.
    FindTheLane,
    /// Asking only for what the server takes.
    KeepItLegal,
    /// Meeting the wave where it arrives.
    MeetTheWave,
    /// Working the lane's creeps.
    WorkTheLane,
    /// Holding the lane against the other side.
    HoldTheLane,
    /// Buying what the list asks for.
    StockUp,
    /// Gathering gold.
    GrowRich,
    /// Growing levels.
    GrowStrong,
    /// Taking the other side's towers.
    TakeTheTowers,
}

/// Every lesson, in the order the ladder climbs them.
pub const LESSONS: [Lesson; 9] = [
    Lesson::FindTheLane,
    Lesson::KeepItLegal,
    Lesson::MeetTheWave,
    Lesson::WorkTheLane,
    Lesson::HoldTheLane,
    Lesson::StockUp,
    Lesson::GrowRich,
    Lesson::GrowStrong,
    Lesson::TakeTheTowers,
];

/// How a plan spells a lesson.
pub open spec fn lesson_spelled(lesson: Lesson) -> Seq<char> {
    match lesson {
        Lesson::FindTheLane => "find_the_lane"@,
        Lesson::KeepItLegal => "keep_it_legal"@,
        Lesson::MeetTheWave => "meet_the_wave"@,
        Lesson::WorkTheLane => "work_the_lane"@,
        Lesson::HoldTheLane => "hold_the_lane"@,
        Lesson::StockUp => "stock_up"@,
        Lesson::GrowRich => "grow_rich"@,
        Lesson::GrowStrong => "grow_strong"@,
        Lesson::TakeTheTowers => "take_the_towers"@,
    }
}

/// The lesson a spelling names, if any does.
pub open spec fn lesson_read_as(name: Seq<char>) -> Option<Lesson> {
    if name == "find_the_lane"@ {
        Some(Lesson::FindTheLane)
    } else if name == "keep_it_legal"@ {
        Some(Lesson::KeepItLegal)
    } else if name == "meet_the_wave"@ {
        Some(Lesson::MeetTheWave)
    } else if name == "work_the_lane"@ {
        Some(Lesson::WorkTheLane)
    } else if name == "hold_the_lane"@ {
        Some(Lesson::HoldTheLane)
    } else if name == "stock_up"@ {
        Some(Lesson::StockUp)
    } else if name == "grow_rich"@ {
        Some(Lesson::GrowRich)
    } else if name == "grow_strong"@ {
        Some(Lesson::GrowStrong)
    } else if name == "take_the_towers"@ {
        Some(Lesson::TakeTheTowers)
    } else {
        None
    }
}

impl Lesson {
    /// How a plan spells it.
    pub fn spelling(self) -> (name: &'static str)
        ensures
            name@ == lesson_spelled(self),
    {
        match self {
            Lesson::FindTheLane => "find_the_lane",
            Lesson::KeepItLegal => "keep_it_legal",
            Lesson::MeetTheWave => "meet_the_wave",
            Lesson::WorkTheLane => "work_the_lane",
            Lesson::HoldTheLane => "hold_the_lane",
            Lesson::StockUp => "stock_up",
            Lesson::GrowRich => "grow_rich",
            Lesson::GrowStrong => "grow_strong",
            Lesson::TakeTheTowers => "take_the_towers",
        }
    }

    /// The lesson a spelling names.
    pub fn named(name: &str) -> (lesson: Option<Lesson>)
        ensures
            lesson == lesson_read_as(name@),
    {
        let typed = name.to_owned();
        if typed == "find_the_lane".to_owned() {
            Some(Lesson::FindTheLane)
        } else if typed == "keep_it_legal".to_owned() {
            Some(Lesson::KeepItLegal)
        } else if typed == "meet_the_wave".to_owned() {
            Some(Lesson::MeetTheWave)
        } else if typed == "work_the_lane".to_owned() {
            Some(Lesson::WorkTheLane)
        } else if typed == "hold_the_lane".to_owned() {
            Some(Lesson::HoldTheLane)
        } else if typed == "stock_up".to_owned() {
            Some(Lesson::StockUp)
        } else if typed == "grow_rich".to_owned() {
            Some(Lesson::GrowRich)
        } else if typed == "grow_strong".to_owned() {
            Some(Lesson::GrowStrong)
        } else if typed == "take_the_towers".to_owned() {
            Some(Lesson::TakeTheTowers)
        } else {
            None
        }
    }
}

/// Every lesson reads back as itself from its own spelling.
pub proof fn lemma_lesson_spelling_reads_back(lesson: Lesson)
    ensures
        lesson_read_as(lesson_spelled(lesson)) == Some(lesson),
{
    reveal_strlit("find_the_lane");
    reveal_strlit("keep_it_legal");
    reveal_strlit("meet_the_wave");
    reveal_strlit("work_the_lane");
    reveal_strlit("hold_the_lane");
    reveal_strlit("stock_up");
    reveal_strlit("grow_rich");
    reveal_strlit("grow_strong");
    reveal_strlit("take_the_towers");
    let names = seq![
        "find_the_lane"@,
        "keep_it_legal"@,
        "meet_the_wave"@,
        "work_the_lane"@,
        "hold_the_lane"@,
        "stock_up"@,
        "grow_rich"@,
        "grow_strong"@,
        "take_the_towers"@,
    ];
    assert forall|i: int, j: int| 0 <= i < j < 9 implies names[i] != names[j] by {
        if names[i][0] == names[j][0] {
            assert(names[i][5] != names[j][5]);
        } else {
            assert(names[i][0] != names[j][0]);
        }
    }
}

/// The population a stage that names none is bred at.
pub const POPULATION: usize = 10;

/// The matches a model plays a generation when a stage names none.
pub const MATCHES: usize = 1;

/// The generations a stage that names none runs for.
pub const GENERATIONS: u32 = 30;

/// How many matches run at once when a stage names no number.
pub const LANES_AT_ONCE: usize = 12;

/// Where a stage that names no seed is seeded from.
pub const SEED: u64 = 1;

/// One stage of a plan, with everything it does not say left out.
#[derive(Clone, Debug)]
pub struct Stage {
    /// Which lesson is paid for, spelled with underscores. Absent only in
    /// the defaults.
    pub score: Option<String>,
    /// Ticks a match runs, which is also how long the lesson is paid for.
    pub ticks: Option<u32>,
    /// Generations the stage runs for.
    pub generations: Option<u32>,
    /// How many models there are.
    pub population: Option<usize>,
    /// Matches each model plays a generation.
    pub matches: Option<usize>,
    /// How many of the crowd survive a generation.
    pub survivors: Option<usize>,
    /// How many matches run at once.
    pub lanes: Option<usize>,
    /// What the seats are there to do.
    pub role: Option<String>,
    /// Where the stage is seeded from.
    pub seed: Option<u64>,
    /// Whether how far a child is moved from its parent, settled against the
    /// defaults, is a number no smaller than nought. The amount is a share
    /// and is weighed where shares are.
    pub mutation_sound: bool,
}

/// One stage with everything settled.
#[derive(Clone, Copy, Debug, PartialEq, Eq, Structural)]
pub struct Settled {
    /// The lesson paid for.
    pub lesson: Lesson,
    /// The clock its matches run to. Absent runs them to the lesson's own.
    pub ticks: Option<u32>,
    /// What the seats are there to do.
    pub role: Role,
    /// How many models there are.
    pub folk: usize,
    /// Matches each model plays a generation.
    pub trials: usize,
    /// Generations the stage runs for.
    pub lives: u32,
    /// How many of the crowd survive a generation.
    pub keep: usize,
    /// How many matches run at once.
    pub lanes: usize,
    /// Where the stage is seeded from.
    pub seed: u64,
}

/// What is wrong with a stage, the first thing found.
#[derive(Clone, Copy, Debug, PartialEq, Eq, Structural)]
pub enum Wrong {
    /// It names no lesson, and neither do the defaults.
    NoScore,
    /// The lesson it names is none there is.
    NoSuchLesson,
    /// A match of nought ticks is scored on nothing.
    NoughtTicks,
    /// A crowd this small has nothing to be chosen over.
    TooFew(usize),
    /// A model that plays no matches is judged on nothing.
    NoMatches,
    /// A stage of nought generations breeds nothing.
    NoGenerations,
    /// Survivors, of a population, outside one to the population.
    Survivors(usize, usize),
    /// A mutation that moves a child nowhere.
    Mutation,
    /// Nought lanes runs no matches at all.
    NoLanes,
    /// The role it names is none there is.
    NoSuchRole,
}

/// What is wrong with a plan.
#[derive(Clone, Copy, Debug, PartialEq, Eq, Structural)]
pub enum Refusal {
    /// A plan with an empty sequence teaches nothing.
    Empty,
    /// The stage at a place, counting from one, is wrong.
    Stage(usize, Wrong),
}

/// What a stage says of something, else what the defaults say.
pub open spec fn said<T>(stage: Option<T>, defaults: Option<T>) -> Option<T> {
    match stage {
        Some(v) => Some(v),
        None => defaults,
    }
}

/// What a string a stage may say is spelled as.
pub open spec fn spelled(name: Option<String>) -> Option<Seq<char>> {
    match name {
        Some(s) => Some(s@),
        None => None,
    }
}

/// The survivors of a population when nobody says: a quarter, and at least
/// one.
pub open spec fn quarter_of(population: usize) -> usize {
    if population / 4 >= 1 {
        population / 4
    } else {
        1
    }
}

/// One stage settled against the defaults: the first thing wrong with it,
/// checked in the order the fields are written, or everything settled.
pub open spec fn settle(defaults: Stage, stage: Stage) -> Result<Settled, Wrong> {
    let ticks = said(stage.ticks, defaults.ticks);
    let population = match said(stage.population, defaults.population) {
        Some(p) => p,
        None => POPULATION,
    };
    let matches = match said(stage.matches, defaults.matches) {
        Some(m) => m,
        None => MATCHES,
    };
    let generations = match said(stage.generations, defaults.generations) {
        Some(g) => g,
        None => GENERATIONS,
    };
    let survivors = match said(stage.survivors, defaults.survivors) {
        Some(s) => s,
        None => quarter_of(population),
    };
    let lanes = match said(stage.lanes, defaults.lanes) {
        Some(l) => l,
        None => LANES_AT_ONCE,
    };
    let seed = match said(stage.seed, defaults.seed) {
        Some(s) => s,
        None => SEED,
    };
    match said(spelled(stage.score), spelled(defaults.score)) {
        None => Err(Wrong::NoScore),
        Some(name) => match lesson_read_as(name) {
            None => Err(Wrong::NoSuchLesson),
            Some(lesson) => if ticks == Some(0u32) {
                Err(Wrong::NoughtTicks)
            } else if population < 2 {
                Err(Wrong::TooFew(population))
            } else if matches == 0 {
                Err(Wrong::NoMatches)
            } else if generations == 0 {
                Err(Wrong::NoGenerations)
            } else if survivors == 0 || survivors > population {
                Err(Wrong::Survivors(survivors, population))
            } else if !stage.mutation_sound {
                Err(Wrong::Mutation)
            } else if lanes == 0 {
                Err(Wrong::NoLanes)
            } else {
                let role = match said(spelled(stage.role), spelled(defaults.role)) {
                    None => Some(Role::Mid),
                    Some(named) => role_read_as(named),
                };
                match role {
                    None => Err(Wrong::NoSuchRole),
                    Some(role) => Ok(
                        Settled {
                            lesson,
                            ticks,
                            role,
                            folk: population,
                            trials: matches,
                            lives: generations,
                            keep: survivors,
                            lanes,
                            seed,
                        },
                    ),
                }
            },
        },
    }
}

/// Whether a stage settles against the defaults with nothing wrong.
#[verifier::opaque]
pub open spec fn stage_sound(defaults: Stage, stage: Stage) -> bool {
    settle(defaults, stage) is Ok
}

/// Whether a stage is one that does not settle.
pub open spec fn unsound(defaults: Stage) -> spec_fn(Stage) -> bool {
    |stage: Stage| !stage_sound(defaults, stage)
}

/// What settling a stage found, when it settled.
pub open spec fn settled_of(defaults: Stage, stage: Stage) -> Settled {
    match settle(defaults, stage) {
        Ok(s) => s,
        Err(_) => arbitrary(),
    }
}

/// What settling a stage found wrong, when it did not settle.
pub open spec fn wrong_of(defaults: Stage, stage: Stage) -> Wrong {
    match settle(defaults, stage) {
        Err(w) => w,
        Ok(_) => Wrong::NoScore,
    }
}

/// What a stage says of something, else what the defaults say.
fn say<T: Copy>(stage: Option<T>, defaults: Option<T>) -> (v: Option<T>)
    ensures
        v == said(stage, defaults),
{
    match stage {
        Some(v) => Some(v),
        None => defaults,
    }
}

/// Which of two spellings speaks, the stage's first.
fn word<'a>(stage: &'a Option<String>, defaults: &'a Option<String>) -> (w: Option<&'a String>)
    ensures
        match w {
            Some(s) => said(spelled(*stage), spelled(*defaults)) == Some(s@),
            None => said(spelled(*stage), spelled(*defaults)) is None,
        },
{
    match stage {
        Some(s) => Some(s),
        None => match defaults {
            Some(s) => Some(s),
            None => None,
        },
    }
}

/// One stage settled against the defaults: everything the stage does not
/// say taken from the defaults, then from the lesson's clock and a plain
/// crowd, and the first thing wrong with it reported.
pub fn term_of(defaults: &Stage, stage: &Stage) -> (t: Result<Settled, Wrong>)
    ensures
        t is Ok <==> stage_sound(*defaults, *stage),
        t == settle(*defaults, *stage),
{
    reveal(stage_sound);
    let ticks = say(stage.ticks, defaults.ticks);
    let population = match say(stage.population, defaults.population) {
        Some(p) => p,
        None => POPULATION,
    };
    let matches = match say(stage.matches, defaults.matches) {
        Some(m) => m,
        None => MATCHES,
    };
    let generations = match say(stage.generations, defaults.generations) {
        Some(g) => g,
        None => GENERATIONS,
    };
    let survivors = match say(stage.survivors, defaults.survivors) {
        Some(s) => s,
        None => if population / 4 >= 1 {
            population / 4
        } else {
            1
        },
    };
    let lanes = match say(stage.lanes, defaults.lanes) {
        Some(l) => l,
        None => LANES_AT_ONCE,
    };
    let seed = match say(stage.seed, defaults.seed) {
        Some(s) => s,
        None => SEED,
    };
    let name = match word(&stage.score, &defaults.score) {
        Some(name) => name,
        None => return Err(Wrong::NoScore),
    };
    let lesson = match Lesson::named(name.as_str()) {
        Some(lesson) => lesson,
        None => return Err(Wrong::NoSuchLesson),
    };
    if ticks == Some(0u32) {
        return Err(Wrong::NoughtTicks);
    }
    if population < 2 {
        return Err(Wrong::TooFew(population));
    }
    if matches == 0 {
        return Err(Wrong::NoMatches);
    }
    if generations == 0 {
        return Err(Wrong::NoGenerations);
    }
    if survivors == 0 || survivors > population {
        return Err(Wrong::Survivors(survivors, population));
    }
    if !stage.mutation_sound {
        return Err(Wrong::Mutation);
    }
    if lanes == 0 {
        return Err(Wrong::NoLanes);
    }
    let role = match word(&stage.role, &defaults.role) {
        None => Role::Mid,
        Some(named) => match Role::named(named.as_str()) {
            Some(role) => role,
            None => return Err(Wrong::NoSuchRole),
        },
    };
    Ok(
        Settled {
            lesson,
            ticks,
            role,
            folk: population,
            trials: matches,
            lives: generations,
            keep: survivors,
            lanes,
            seed,
        },
    )
}

/// What a whole plan settles to: every stage, in the order they are taught,
/// or an empty sequence refused, or the first stage that does not settle
/// named by its place, counting from one, with what is wrong with it.
pub open spec fn terms_spec(defaults: Stage, sequence: Seq<Stage>) -> Result<Seq<Settled>, Refusal> {
    if sequence.len() == 0 {
        Err(Refusal::Empty)
    } else {
        match first_where(sequence, unsound(defaults)) {
            Some(k) => Err(Refusal::Stage((k + 1) as usize, wrong_of(defaults, sequence[k]))),
            None => Ok(Seq::new(sequence.len(), |i: int| settled_of(defaults, sequence[i]))),
        }
    }
}

/// Every stage settled, in the order they are taught.
///
/// Everything a plan can get wrong is answered here rather than a stage at
/// a time: an empty sequence teaches nothing, and otherwise the first stage
/// that is wrong is named with what is wrong with it.
pub fn terms(defaults: &Stage, sequence: &Vec<Stage>) -> (t: Result<Vec<Settled>, Refusal>)
    ensures
        match (t, terms_spec(*defaults, sequence@)) {
            (Ok(settled), Ok(want)) => settled@ == want,
            (Err(r), Err(want)) => r == want,
            _ => false,
        },
{
    if sequence.len() == 0 {
        return Err(Refusal::Empty);
    }
    let ghost test = unsound(*defaults);
    let mut out: Vec<Settled> = Vec::new();
    let mut i: usize = 0;
    while i < sequence.len()
        invariant
            i <= sequence@.len(),
            sequence@.len() > 0,
            test == unsound(*defaults),
            out@.len() == i,
            forall|j: int| 0 <= j < i ==> !test(#[trigger] sequence@[j]),
            forall|j: int| 0 <= j < i ==> out@[j] == settled_of(*defaults, sequence@[j]),
        decreases sequence@.len() - i,
    {
        match term_of(defaults, &sequence[i]) {
            Ok(s) => {
                out.push(s);
            },
            Err(w) => {
                proof {
                    lemma_first_where(sequence@, test, i as int);
                }
                return Err(Refusal::Stage(i + 1, w));
            },
        }
        i += 1;
    }
    proof {
        lemma_nowhere(sequence@, test);
        assert(out@ =~= Seq::new(sequence@.len(), |k: int| settled_of(*defaults, sequence@[k])));
    }
    Ok(out)
}

/// A plan settles only when every stage in it does, and then each stage
/// settles to what it settles to alone; a refusal names a stage that does
/// not settle, and every stage before it does.
pub proof fn lemma_a_plan_settles_stage_by_stage(defaults: Stage, sequence: Seq<Stage>)
    requires
        sequence.len() <= usize::MAX,
    ensures
        terms_spec(defaults, sequence) matches Ok(all) ==> sequence.len() > 0 && all.len()
            == sequence.len() && forall|i: int|
            0 <= i < sequence.len() ==> stage_sound(defaults, #[trigger] sequence[i]) && all[i]
                == settled_of(defaults, sequence[i]),
        terms_spec(defaults, sequence) matches Err(Refusal::Stage(at, _)) ==> 1 <= at <= sequence.len()
            && !stage_sound(defaults, sequence[at - 1]) && forall|i: int|
            0 <= i < at - 1 ==> stage_sound(defaults, #[trigger] sequence[i]),
{
    lemma_first_found(sequence, unsound(defaults));
    lemma_first_is_first(sequence, unsound(defaults));
    if sequence.len() > 0 {
        if let Some(k) = first_where(sequence, unsound(defaults)) {
            assert(((k + 1) as usize) as int == k + 1);
            assert forall|i: int| 0 <= i < k implies stage_sound(defaults, #[trigger] sequence[i]) by {
                assert(!unsound(defaults)(sequence[i]));
            }
        } else {
            assert forall|i: int| 0 <= i < sequence.len() implies stage_sound(
                defaults,
                #[trigger] sequence[i],
            ) by {
                if !stage_sound(defaults, sequence[i]) {
                    assert(unsound(defaults)(sequence[i]));
                }
            }
        }
    }
}

} // verus!
