use vstd::prelude::*;

pub mod brain;
pub mod environment;
pub mod upload;

use crate::guild::nickname::GuildNickname;
use brain::ControllerBrain;
use environment::Environment;
use upload::UploadInterface;

verus! {

/// A target of the setup: the global target, or one guild. Setup steps are
/// registered under a controller and run against it.
#[derive(Debug, PartialEq, Eq, Hash, Clone, Copy, Structural)]
pub struct Controller {
    pub brain: ControllerBrain,
    pub environment: Environment,
}

/// The outcome of fetching a guild: `None` where nothing was fetched, else
/// what the platform answered.
pub type Fetched<G, E> = Option<Result<G, E>>;

/// Whether a fetch was made and brought the guild.
pub open spec fn fetch_succeeded<G, E>(fetched: Fetched<G, E>) -> bool {
    fetched matches Some(Ok(_))
}

impl Controller {
    /// The controller of the global target.
    pub fn global(environment: Environment) -> (controller: Self)
        ensures
            controller == (Controller { brain: ControllerBrain::Global, environment }),
    {
        Controller { brain: ControllerBrain::Global, environment }
    }

    /// The controller of the public community guild.
    pub fn pokecom(environment: Environment) -> (controller: Self)
        ensures
            controller == (Controller {
                brain: ControllerBrain::Guild(GuildNickname::Pokecom),
                environment,
            }),
    {
        Controller { brain: ControllerBrain::Guild(GuildNickname::Pokecom), environment }
    }

    /// The controller of the staff guild.
    pub fn pokecom_staff(environment: Environment) -> (controller: Self)
        ensures
            controller == (Controller {
                brain: ControllerBrain::Guild(GuildNickname::PokecomStaff),
                environment,
            }),
    {
        Controller { brain: ControllerBrain::Guild(GuildNickname::PokecomStaff), environment }
    }

    /// The controller of the private guild.
    pub fn duck_communism(environment: Environment) -> (controller: Self)
        ensures
            controller == (Controller {
                brain: ControllerBrain::Guild(GuildNickname::DuckCommunism),
                environment,
            }),
    {
        Controller { brain: ControllerBrain::Guild(GuildNickname::DuckCommunism), environment }
    }

    /// The guild that stands behind the controller, if there is one.
    pub open spec fn spec_guild_id(self) -> Option<u64> {
        self.brain.spec_guild_id(self.environment)
    }

    /// The guild that has to be fetched before `is_connected` can answer.
    pub open spec fn spec_probe(self) -> Option<u64> {
        self.brain.spec_probe(self.environment)
    }

    /// Whether the controller counts as reachable.
    pub open spec fn spec_is_connected<G, E>(self, fetched: Fetched<G, E>) -> bool {
        self.brain.spec_is_connected(self.environment, fetched)
    }

    /// The guild that `try_get_guild` hands on.
    pub open spec fn spec_guild<G, E>(self, fetched: Fetched<G, E>) -> Option<G> {
        self.brain.spec_guild(self.environment, fetched)
    }

    /// The display form.
    pub open spec fn spec_display(self) -> Seq<char> {
        self.brain.spec_display(self.environment)
    }

    /// The guild that stands behind the controller: the one to fetch before
    /// `try_get_guild`, and the one its uploads go to.
    pub fn guild_id(&self) -> (guild: Option<u64>)
        ensures
            guild == self.spec_guild_id(),
    {
        self.brain.guild_id(self.environment)
    }

    /// The guild to fetch before asking `is_connected`, or `None` where the
    /// answer needs no fetch.
    pub fn probe(&self) -> (guild: Option<u64>)
        ensures
            guild == self.spec_probe(),
    {
        self.brain.probe(self.environment)
    }

    /// Whether the bot can reach the controller's guild; always true for the
    /// global target. `fetched` is the outcome of fetching the guild that
    /// `probe` names.
    pub fn is_connected<G, E>(&self, fetched: Fetched<G, E>) -> (connected: bool)
        ensures
            connected == self.spec_is_connected(fetched),
    {
        self.brain.is_connected(self.environment, fetched)
    }

    /// Whether a guild identifier (or the lack of one) matches the
    /// controller.
    pub fn matches_guild(&self, guild_id: Option<u64>) -> (matches: bool)
        ensures
            matches == self.brain.spec_matches_guild(self.environment, guild_id),
    {
        self.brain.matches_guild(self.environment, guild_id)
    }

    /// The guild of the controller: `None` for the global target or where the
    /// fetch failed. `fetched` is the outcome of fetching the guild that
    /// `guild_id` names.
    ///
    /// In staging the staging guild must have been fetched.
    pub fn try_get_guild<G, E>(&self, fetched: Fetched<G, E>) -> (guild: Option<G>)
        requires
            self.environment == Environment::Staging ==> fetched matches Some(Ok(_)),
        ensures
            guild == self.spec_guild(fetched),
    {
        self.brain.try_get_guild(self.environment, fetched)
    }

    /// The interface that picks the upload calls for the controller.
    pub fn upload_iface(&self) -> (iface: UploadInterface)
        ensures
            iface.target() == self.spec_guild_id(),
    {
        self.brain.upload_iface(self.environment)
    }

    /// The display form, that of the brain.
    pub fn to_string(&self) -> (text: String)
        ensures
            text@ == self.spec_display(),
    {
        self.brain.to_string(self.environment)
    }
}

} // verus!
