//! The features of the bot. Each registers what it needs with the setup
//! builder; `installer` is the one way in.

use vstd::prelude::*;

pub mod activity;

use crate::controller::brain::ControllerBrain;
use crate::controller::environment::Environment;
use crate::controller::Controller;
use crate::init::Init;
use crate::setup::registration::registered;
use crate::setup::Setup;

verus! {

/// Registers every feature with `setup`. `activity` is the initializer of the
/// activity feature.
pub fn installer<F>(setup: Setup<F>, environment: Environment, activity: F) -> (installed: Setup<F>)
    requires
        setup.wf(),
    ensures
        installed.wf(),
        installed@ == registered(
            setup@,
            Controller { brain: ControllerBrain::Global, environment },
            Init { name: activity::NAME, function: activity },
        ),
{
    let install = move |setup: Setup<F>| -> (installed: Setup<F>)
        requires
            setup.wf(),
        ensures
            installed.wf(),
            installed@ == registered(
                setup@,
                Controller { brain: ControllerBrain::Global, environment },
                Init { name: activity::NAME, function: activity },
            ),
        { activity::installer(setup, environment, activity) };
    setup.add_from(install)
}

} // verus!
