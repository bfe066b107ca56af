use std::cell::RefCell;

use porygon::controller::environment::Environment;
use porygon::controller::{Controller, Fetched};
use porygon::init::{Init, InitArgs, InitStep};
use porygon::setup::step::{Step, StepArgs};

type Log = RefCell<Vec<String>>;

type Callback = fn(&InitArgs<Log, &'static str>);

fn first(args: &InitArgs<Log, &'static str>) {
    args.client.borrow_mut().push(format!("first under {}", args.controller.to_string()));
}

fn second(args: &InitArgs<Log, &'static str>) {
    args.client.borrow_mut().push(format!("second with {:?}", args.guild));
}

fn third(args: &InitArgs<Log, &'static str>) {
    args.client.borrow_mut().push(String::from("third"));
}

fn found(guild: &'static str) -> Fetched<&'static str, String> {
    Some(Ok(guild))
}

fn names(inits: &[Init<Callback>]) -> Vec<&'static str> {
    inits.iter().map(|init| init.name).collect()
}

fn execute(
    step: InitStep<Callback>,
    log: &Log,
    scope: Controller,
    fetched: Fetched<&'static str, String>,
) -> Vec<&'static str> {
    let run = step.execute(StepArgs { client: log, scope }, fetched).ok().unwrap();
    run.run();
    names(&run.inits)
}

#[test]
fn new_step_has_no_operands() {
    let step: InitStep<Callback> = InitStep::new(Controller::global(Environment::Production));
    assert_eq!(step.operand_count(), 0);
}

#[test]
fn step_type_is_named_init() {
    assert_eq!(<InitStep<Callback> as Step>::name(), "init");
}

#[test]
fn name_in_joins_type_name_and_suffix() {
    let step: InitStep<Callback> = InitStep::new(Controller::pokecom(Environment::Production));
    assert_eq!(step.name_in(&Controller::pokecom(Environment::Production)), "init::Pokecom");
    assert_eq!(step.name_in(&Controller::global(Environment::Production)), "init::Global");
    assert_eq!(step.name_in(&Controller::global(Environment::Staging)), "init::*Global");
}

#[test]
fn append_with_distinct_names_counts_each() {
    let mut step: InitStep<Callback> = InitStep::new(Controller::global(Environment::Production));
    step.append(Init { name: "a", function: first });
    assert_eq!(step.operand_count(), 1);
    step.append(Init { name: "b", function: second });
    assert_eq!(step.operand_count(), 2);
    step.append(Init { name: "c", function: third });
    assert_eq!(step.operand_count(), 3);
}

#[test]
fn append_with_the_same_name_overwrites() {
    let log = Log::default();
    let global = Controller::global(Environment::Production);
    let mut step: InitStep<Callback> = InitStep::new(global);
    step.append(Init { name: "a", function: first });
    step.append(Init { name: "b", function: second });
    step.append(Init { name: "a", function: third });
    assert_eq!(step.operand_count(), 2);
    let order = execute(step, &log, global, None);
    assert_eq!(order, vec!["a", "b"]);
    assert_eq!(*log.borrow(), vec!["third", "second with None"]);
}

#[test]
fn names_are_compared_by_their_characters() {
    let mut step: InitStep<Callback> = InitStep::new(Controller::global(Environment::Production));
    let owned = String::from("abc");
    let leaked: &'static str = Box::leak(owned.into_boxed_str());
    step.append(Init { name: "abc", function: first });
    step.append(Init { name: leaked, function: second });
    assert_eq!(step.operand_count(), 1);
    step.append(Init { name: "abd", function: third });
    step.append(Init { name: "ab", function: third });
    step.append(Init { name: "", function: third });
    assert_eq!(step.operand_count(), 4);
}

#[test]
fn count_equals_number_of_distinct_names() {
    let mut step: InitStep<Callback> = InitStep::new(Controller::global(Environment::Production));
    let registered = ["x", "y", "x", "z", "y", "x", "w"];
    for name in registered.iter() {
        step.append(Init { name, function: first });
    }
    assert_eq!(step.operand_count(), 4);
    let log = Log::default();
    let order = execute(step, &log, Controller::global(Environment::Production), None);
    assert_eq!(order, vec!["x", "y", "z", "w"]);
}

#[test]
fn execute_hands_out_every_operand_once_in_order_of_registration() {
    let log = Log::default();
    let pokecom = Controller::pokecom(Environment::Production);
    let mut step: InitStep<Callback> = InitStep::new(pokecom);
    step.append(Init { name: "second", function: second });
    step.append(Init { name: "first", function: first });
    step.append(Init { name: "third", function: third });
    let order = execute(step, &log, pokecom, found("the guild"));
    assert_eq!(order, vec!["second", "first", "third"]);
    assert_eq!(
        *log.borrow(),
        vec!["second with Some(\"the guild\")", "first under Pokecom", "third"]
    );
}

#[test]
fn execute_hands_on_the_failure_of_the_fetch() {
    let log = Log::default();
    let pokecom = Controller::pokecom(Environment::Production);
    let mut step: InitStep<Callback> = InitStep::new(pokecom);
    step.append(Init { name: "first", function: first });
    let run = step.execute(
        StepArgs { client: &log, scope: pokecom },
        Some(Err::<&'static str, String>(String::from("timeout"))),
    );
    assert_eq!(run.err(), Some(String::from("timeout")));
    assert!(log.borrow().is_empty());
}

#[test]
fn execute_in_staging_hands_on_the_failure_of_the_fetch() {
    let log = Log::default();
    let global = Controller::global(Environment::Staging);
    let mut step: InitStep<Callback> = InitStep::new(global);
    step.append(Init { name: "first", function: first });
    let run = step.execute(
        StepArgs { client: &log, scope: global },
        Some(Err::<&'static str, String>(String::from("no staging guild"))),
    );
    assert_eq!(run.err(), Some(String::from("no staging guild")));
}

#[test]
fn execute_under_the_global_target_needs_no_guild() {
    let log = Log::default();
    let global = Controller::global(Environment::Production);
    let mut step: InitStep<Callback> = InitStep::new(global);
    step.append(Init { name: "second", function: second });
    // a stray failure is none of the step's business
    let order = execute(step, &log, global, Some(Err(String::from("stray"))));
    assert_eq!(order, vec!["second"]);
    assert_eq!(*log.borrow(), vec!["second with None"]);
}

#[test]
fn execute_without_a_fetch_leaves_the_guild_out() {
    let log = Log::default();
    let duck = Controller::duck_communism(Environment::Production);
    let mut step: InitStep<Callback> = InitStep::new(duck);
    step.append(Init { name: "second", function: second });
    let order = execute(step, &log, duck, None);
    assert_eq!(order, vec!["second"]);
    assert_eq!(*log.borrow(), vec!["second with None"]);
}

#[test]
fn execute_of_an_empty_step_hands_out_nothing() {
    let log = Log::default();
    let global = Controller::global(Environment::Production);
    let step: InitStep<Callback> = InitStep::new(global);
    let run = step
        .execute::<Log, &'static str, String>(StepArgs { client: &log, scope: global }, None)
        .ok()
        .unwrap();
    assert!(run.inits.is_empty());
    assert_eq!(run.args.controller, global);
    assert_eq!(run.args.guild, None);
}

#[test]
fn context_of_a_guild_holds_the_fetched_guild() {
    let log = Log::default();
    let duck = Controller::duck_communism(Environment::Production);
    let args: InitArgs<Log, &'static str> =
        InitArgs::new::<Callback, String>(StepArgs { client: &log, scope: duck }, found("ducks"));
    assert_eq!(args.controller, duck);
    assert_eq!(args.guild, Some("ducks"));
    assert!(std::ptr::eq(args.client, &log));
}

#[test]
fn context_without_a_guild_where_the_fetch_failed() {
    let log = Log::default();
    let duck = Controller::duck_communism(Environment::Production);
    let args: InitArgs<Log, &'static str> = InitArgs::new::<Callback, String>(
        StepArgs { client: &log, scope: duck },
        Some(Err(String::from("timeout"))),
    );
    assert_eq!(args.guild, None);
}

#[test]
fn context_of_the_global_target_has_no_guild() {
    let log = Log::default();
    let global = Controller::global(Environment::Production);
    let args: InitArgs<Log, &'static str> =
        InitArgs::new::<Callback, String>(StepArgs { client: &log, scope: global }, None);
    assert_eq!(args.controller, global);
    assert_eq!(args.guild, None);
}

#[test]
fn context_in_staging_holds_the_staging_guild() {
    let log = Log::default();
    let global = Controller::global(Environment::Staging);
    let args: InitArgs<Log, &'static str> =
        InitArgs::new::<Callback, String>(StepArgs { client: &log, scope: global }, found("staging"));
    assert_eq!(args.guild, Some("staging"));
}

#[test]
fn run_calls_every_initializer_once() {
    let log = Log::default();
    let global = Controller::global(Environment::Production);
    let mut step: InitStep<Callback> = InitStep::new(global);
    step.append(Init { name: "third", function: third });
    step.append(Init { name: "again", function: third });
    step.append(Init { name: "first", function: first });
    let run = step
        .execute::<Log, &'static str, String>(StepArgs { client: &log, scope: global }, None)
        .ok()
        .unwrap();
    assert!(log.borrow().is_empty());
    run.run();
    assert_eq!(*log.borrow(), vec!["third", "third", "first under Global"]);
}

#[test]
fn exec_runs_the_function_on_the_arguments() {
    let log = Log::default();
    let init: Init<Callback> = Init { name: "first", function: first };
    let args = InitArgs {
        client: &log,
        controller: Controller::pokecom_staff(Environment::Production),
        guild: None,
    };
    init.exec(&args);
    init.exec(&args);
    assert_eq!(*log.borrow(), vec!["first under PokcomStaff", "first under PokcomStaff"]);
}
