use porygon::controller::environment::Environment;
use porygon::controller::{Controller, Fetched};
use porygon::init::{Init, InitStep};
use porygon::setup::run::{Next, Resolved, SetupRun};
use porygon::setup::scope::controller::ControllerCollection;
use porygon::setup::scope::unique::UniqueCollection;
use porygon::setup::scope::{Collection, Scope};
use porygon::setup::skip::Skip;
use porygon::setup::step::Step;

/// A step type with a single instance: the lines of a banner.
struct BannerStep {
    lines: Vec<&'static str>,
}

impl Step for BannerStep {
    type Operand = &'static str;
    type Scope = ();

    fn name() -> &'static str {
        "banner"
    }

    fn operand_count(&self) -> usize {
        self.lines.len()
    }

    fn new(_scope: ()) -> Self {
        BannerStep { lines: Vec::new() }
    }

    fn append(&mut self, operand: &'static str) {
        self.lines.push(operand);
    }
}

fn nothing(_: &u8) {}

type Callback = fn(&u8);

fn scopes(collection: ControllerCollection<InitStep<Callback>>) -> Vec<(Controller, usize)> {
    collection
        .into_pairs()
        .into_iter()
        .map(|(scope, step)| (scope, step.operand_count()))
        .collect()
}

#[test]
fn unit_scope_never_skips() {
    let fetched: Fetched<u8, u8> = None;
    assert_eq!(().try_skip(fetched), Skip::Proceed);
    let failed: Fetched<u8, u8> = Some(Err(1));
    assert_eq!(().try_skip(failed), Skip::Proceed);
    assert_eq!(Scope::probe(&()), None);
}

#[test]
fn unit_scope_has_an_empty_suffix() {
    assert_eq!(().suffix(), "");
}

#[test]
fn controller_suffix_is_two_colons_and_the_display() {
    assert_eq!(Controller::global(Environment::Production).suffix(), "::Global");
    assert_eq!(Controller::pokecom(Environment::Production).suffix(), "::Pokecom");
    assert_eq!(Controller::duck_communism(Environment::Staging).suffix(), "::*DuckCommunism");
}

#[test]
fn controller_scope_skips_iff_not_connected() {
    let pokecom = Controller::pokecom(Environment::Production);
    let found: Fetched<u8, u8> = Some(Ok(1));
    let failed: Fetched<u8, u8> = Some(Err(1));
    let none: Fetched<u8, u8> = None;
    assert_eq!(pokecom.try_skip(found), Skip::Proceed);
    assert_eq!(pokecom.try_skip(failed), Skip::Skip);
    assert_eq!(pokecom.try_skip(none), Skip::Skip);
    let global = Controller::global(Environment::Production);
    let none: Fetched<u8, u8> = None;
    assert_eq!(global.try_skip(none), Skip::Proceed);
    let staging = Controller::pokecom(Environment::Staging);
    let failed: Fetched<u8, u8> = Some(Err(1));
    assert_eq!(staging.try_skip(failed), Skip::Proceed);
}

#[test]
fn controller_scope_probe_is_the_controller_probe() {
    let staff = Controller::pokecom_staff(Environment::Production);
    assert_eq!(Scope::probe(&staff), Some(193103073210662914));
    assert_eq!(Scope::probe(&Controller::global(Environment::Production)), None);
    assert_eq!(Scope::probe(&Controller::pokecom_staff(Environment::Staging)), None);
}

#[test]
fn skip_should_skip() {
    assert!(Skip::Skip.should_skip());
    assert!(!Skip::Proceed.should_skip());
}

#[test]
fn new_controller_collection_is_empty() {
    let collection: ControllerCollection<InitStep<Callback>> = ControllerCollection::default();
    assert!(collection.into_pairs().is_empty());
}

#[test]
fn factory_creates_on_first_use_and_finds_again() {
    let global = Controller::global(Environment::Production);
    let pokecom = Controller::pokecom(Environment::Production);
    let mut collection: ControllerCollection<InitStep<Callback>> = ControllerCollection::default();
    assert_eq!(collection.factory(pokecom).operand_count(), 0);
    collection.factory(pokecom).append(Init { name: "a", function: nothing });
    collection.factory(global).append(Init { name: "a", function: nothing });
    collection.factory(pokecom).append(Init { name: "b", function: nothing });
    assert_eq!(collection.factory(pokecom).operand_count(), 2);
    assert_eq!(collection.factory(global).operand_count(), 1);
    assert_eq!(scopes(collection), vec![(pokecom, 2), (global, 1)]);
}

#[test]
fn factory_tells_environments_apart() {
    let production = Controller::global(Environment::Production);
    let staging = Controller::global(Environment::Staging);
    let mut collection: ControllerCollection<InitStep<Callback>> = ControllerCollection::default();
    collection.factory(production).append(Init { name: "a", function: nothing });
    collection.factory(staging).append(Init { name: "b", function: nothing });
    assert_eq!(scopes(collection), vec![(production, 1), (staging, 1)]);
}

#[test]
fn unique_collection_starts_vacant() {
    let collection: UniqueCollection<BannerStep> = UniqueCollection::default();
    assert!(collection.is_vacant());
    assert!(collection.into_pairs().is_empty());
}

#[test]
fn unique_collection_hands_out_its_instance_once() {
    let mut collection: UniqueCollection<BannerStep> = UniqueCollection::default();
    assert!(collection.is_vacant());
    let step = collection.factory(());
    assert_eq!(step.operand_count(), 0);
    step.append("hello");
    step.append("world");
    assert!(!collection.is_vacant());
    let pairs = collection.into_pairs();
    assert_eq!(pairs.len(), 1);
    assert_eq!(pairs[0].1.lines, vec!["hello", "world"]);
}

#[test]
fn unique_into_iter_yields_the_instance_then_nothing() {
    let mut collection: UniqueCollection<BannerStep> = UniqueCollection::default();
    collection.factory(()).append("only");
    let mut iter = collection.into_iter();
    let first = iter.next();
    assert!(matches!(first, Some(((), ref step)) if step.lines == vec!["only"]));
    assert!(iter.next().is_none());
    assert!(iter.next().is_none());
}

#[test]
fn unique_into_iter_of_a_vacant_collection_is_empty() {
    let collection: UniqueCollection<BannerStep> = UniqueCollection::default();
    let mut iter = collection.into_iter();
    assert!(iter.next().is_none());
}

#[test]
fn run_over_a_unique_collection() {
    let client = 0u8;
    let mut collection: UniqueCollection<BannerStep> = UniqueCollection::default();
    collection.factory(()).append("line");
    let run: SetupRun<u8, BannerStep> = SetupRun::new(collection, &client);
    let check = match run.next() {
        Next::Check(check) => check,
        Next::Finished(_) => panic!("the instance is pending"),
    };
    assert_eq!(check.name(), "banner");
    let none: Fetched<u8, u8> = None;
    let skip = check.scope().try_skip(none);
    let (job, running) = match check.resolve(skip) {
        Resolved::Proceed(job, running) => (job, running),
        Resolved::Skipped(_) => panic!("the unit scope never skips"),
    };
    assert_eq!(job.step.lines, vec!["line"]);
    assert!(std::ptr::eq(job.args.client, &client));
    let run = match running.complete::<String>(Ok(())) {
        Ok(run) => run,
        Err(_) => panic!("the execution succeeded"),
    };
    match run.next() {
        Next::Finished(report) => {
            assert_eq!(report.completed, vec!["banner"]);
            assert!(report.skipped.is_empty());
        }
        Next::Check(_) => panic!("nothing is pending"),
    }
}

#[test]
fn run_over_a_vacant_unique_collection_finishes_at_once() {
    let client = 0u8;
    let collection: UniqueCollection<BannerStep> = UniqueCollection::default();
    let run: SetupRun<u8, BannerStep> = SetupRun::new(collection, &client);
    match run.next() {
        Next::Finished(report) => {
            assert!(report.completed.is_empty());
            assert!(report.skipped.is_empty());
        }
        Next::Check(_) => panic!("nothing was created"),
    }
}
