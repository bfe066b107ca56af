//! The activity feature: at the end of setup the bot shows a status message
//! picked at random.

use rand::seq::SliceRandom;
use vstd::prelude::*;

use crate::controller::environment::Environment;
use crate::controller::Controller;
use crate::init::Init;
use crate::setup::registration::registered;
use crate::setup::Setup;

verus! {

/// The status messages to pick from.
pub const MESSAGES: [&'static str; 41] = [
    "cyberduck supreme",
    "just vibing",
    "drunk internet duck",
    "Duck Game",
    "downloading more ram",
    "plotting against dakota",
    "planning a coup",
    "high on potenuse",
    "hacking the mainframe",
    "deleting the database",
    "beep boop. error",
    "how are you?",
    "taking a nap",
    "sleeping in class",
    "in a duck pond",
    "ducking around",
    "calculating...",
    "using math for evil",
    "writing more statuses",
    "press ctrl-c to quit",
    "dumb",
    "committing crimes",
    "being gay, doing crimes",
    "MCR — Black Parade",
    "quacking in the matrix",
    "porygone to the store",
    "stanning inky",
    "beating up geese",
    "eatin quackers",
    "doing hot bot shit",
    "playing with firequackers",
    "hey got any grapes",
    "remaking the remakes",
    "duck duck goose",
    "daffy-duck",
    "watching an*me",
    "release the quacken!",
    "hugging minecraft bee",
    "doing communism",
    "when i was a young duck",
    "no thots head empty",
];

/// The name under which the feature registers its initializer.
pub const NAME: &'static str = "activity";

/// Picks one of `messages` with `rand`'s `SliceRandom::choose` on the
/// generator of `rand::thread_rng`. The pick is one of the messages, or
/// `None` if and only if there are none; which one it is depends on chance.
/// Nothing is proved of this: it is what `rand` says of `choose`.
/// (`thread_rng` gives up where the system has no randomness to seed it
/// with; no argument of this function has a part in that.)
#[verifier::external_body]
fn pick(messages: &[&'static str]) -> (picked: Option<&'static str>)
    ensures
        picked is None <==> messages@.len() == 0,
        picked matches Some(message) ==> messages@.contains(message),
{
    messages.choose(&mut rand::thread_rng()).copied()
}

/// One of the status messages, picked at random.
pub fn random() -> (message: &'static str)
    ensures
        MESSAGES@.contains(message),
{
    pick(MESSAGES.as_slice()).unwrap()
}

/// Registers the feature with `setup`: the initializer `activity`, under the
/// name of the feature, for the global target.
pub fn installer<F>(setup: Setup<F>, environment: Environment, activity: F) -> (installed: Setup<F>)
    requires
        setup.wf(),
    ensures
        installed.wf(),
        installed@ == registered(
            setup@,
            Controller { brain: crate::controller::brain::ControllerBrain::Global, environment },
            Init { name: NAME, function: activity },
        ),
{
    setup.add_init(Controller::global(environment), Init { name: NAME, function: activity })
}

} // verus!
