use vstd::prelude::*;
use vstd::string::StringExecFns;

use super::environment::Environment;
use super::upload::UploadInterface;
use crate::guild::nickname::properties::{properties_staging, STAGING_ID};
use crate::guild::nickname::GuildNickname;

verus! {

/// What a controller does: which guild stands behind a target, and what an
/// answer of the platform means for it.
///
/// In staging every brain counts as connected and stands for the staging
/// guild, so that code above it need not tell the two environments apart.
#[derive(Debug, PartialEq, Eq, Hash, Copy, Clone, Structural)]
pub enum ControllerBrain {
    Global,
    Guild(GuildNickname),
}

impl ControllerBrain {
    /// The guild that stands behind the target, if there is one.
    pub open spec fn spec_guild_id(self, env: Environment) -> Option<u64> {
        match env {
            Environment::Staging => Some(STAGING_ID),
            Environment::Production => match self {
                ControllerBrain::Global => None,
                ControllerBrain::Guild(nick) => Some(nick.spec_id()),
            },
        }
    }

    /// The guild that has to be fetched before `is_connected` can answer.
    pub open spec fn spec_probe(self, env: Environment) -> Option<u64> {
        match env {
            Environment::Staging => None,
            Environment::Production => self.spec_guild_id(env),
        }
    }

    /// The guild that `try_get_guild` hands on.
    pub open spec fn spec_guild<G, E>(
        self,
        env: Environment,
        fetched: Option<Result<G, E>>,
    ) -> Option<G> {
        match (self.spec_guild_id(env), fetched) {
            (Some(_), Some(Ok(guild))) => Some(guild),
            _ => None,
        }
    }

    /// Whether the target counts as reachable: always in staging and for the
    /// global target, and for a guild if and only if it was fetched with
    /// success.
    pub open spec fn spec_is_connected<G, E>(
        self,
        env: Environment,
        fetched: Option<Result<G, E>>,
    ) -> bool {
        match (env, self) {
            (Environment::Staging, _) => true,
            (Environment::Production, ControllerBrain::Global) => true,
            (Environment::Production, ControllerBrain::Guild(_)) => fetched matches Some(Ok(_)),
        }
    }

    /// Whether events of the guild `id` (of no guild, for `None`) belong to
    /// the target: always in staging and for the global target, and for a
    /// guild if and only if `id` is its identifier.
    pub open spec fn spec_matches_guild(self, env: Environment, id: Option<u64>) -> bool {
        match (env, self) {
            (Environment::Staging, _) => true,
            (Environment::Production, ControllerBrain::Global) => true,
            (Environment::Production, ControllerBrain::Guild(nick)) => id == Some(nick.spec_id()),
        }
    }

    /// The display form.
    pub open spec fn spec_display(self, env: Environment) -> Seq<char> {
        let name = match self {
            ControllerBrain::Global => "Global"@,
            ControllerBrain::Guild(nick) => nick.spec_name(),
        };
        match env {
            Environment::Production => name,
            Environment::Staging => "*"@ + name,
        }
    }

    /// The guild that stands behind the target: none for the global target in
    /// production, the staging guild for every target in staging.
    pub fn guild_id(&self, env: Environment) -> (guild: Option<u64>)
        ensures
            guild == self.spec_guild_id(env),
    {
        match env {
            Environment::Staging => Some(properties_staging().id()),
            Environment::Production => match self {
                ControllerBrain::Global => None,
                ControllerBrain::Guild(nick) => Some(nick.id()),
            },
        }
    }

    /// The guild to fetch before asking `is_connected`, or `None` where the
    /// answer needs no fetch.
    pub fn probe(&self, env: Environment) -> (guild: Option<u64>)
        ensures
            guild == self.spec_probe(env),
    {
        match env {
            Environment::Staging => None,
            Environment::Production => self.guild_id(env),
        }
    }

    /// Whether the target can be reached. `fetched` is the outcome of
    /// fetching the guild that `probe` names, `None` where nothing was
    /// fetched. The global target, and every target in staging, is
    /// connected; a guild is connected if and only if the fetch succeeded.
    pub fn is_connected<G, E>(&self, env: Environment, fetched: Option<Result<G, E>>) -> (connected:
        bool)
        ensures
            connected == self.spec_is_connected(env, fetched),
    {
        match env {
            Environment::Staging => true,
            Environment::Production => match self {
                ControllerBrain::Global => true,
                ControllerBrain::Guild(_) => self.try_get_guild(env, fetched).is_some(),
            },
        }
    }

    /// Whether a guild identifier (or the lack of one) belongs to the target.
    /// The global target, and every target in staging, matches everything; a
    /// guild matches its own identifier only.
    pub fn matches_guild(&self, env: Environment, id: Option<u64>) -> (matches: bool)
        ensures
            matches == self.spec_matches_guild(env, id),
    {
        match env {
            Environment::Staging => true,
            Environment::Production => match self {
                ControllerBrain::Global => true,
                ControllerBrain::Guild(nick) => match id {
                    Some(id) => id == nick.id(),
                    None => false,
                },
            },
        }
    }

    /// The guild of the target. `fetched` is the outcome of fetching the
    /// guild that `guild_id` names, `None` where nothing was fetched. A fetch
    /// that failed counts as no guild.
    ///
    /// In staging the staging guild must have been fetched.
    pub fn try_get_guild<G, E>(&self, env: Environment, fetched: Option<Result<G, E>>) -> (guild:
        Option<G>)
        requires
            env == Environment::Staging ==> fetched matches Some(Ok(_)),
        ensures
            guild == self.spec_guild(env, fetched),
            env == Environment::Staging ==> guild is Some,
    {
        match env {
            Environment::Staging => match fetched {
                Some(Ok(guild)) => Some(guild),
                _ => None,
            },
            Environment::Production => match self {
                ControllerBrain::Global => None,
                ControllerBrain::Guild(_) => match fetched {
                    Some(Ok(guild)) => Some(guild),
                    _ => None,
                },
            },
        }
    }

    /// The interface that picks the upload calls for the target.
    pub fn upload_iface(&self, env: Environment) -> (iface: UploadInterface)
        ensures
            iface.target() == self.spec_guild_id(env),
    {
        match env {
            Environment::Staging => UploadInterface::guild(properties_staging().id()),
            Environment::Production => match self {
                ControllerBrain::Global => UploadInterface::global(),
                ControllerBrain::Guild(nick) => UploadInterface::guild(nick.id()),
            },
        }
    }

    /// The display form: `Global` or the guild's name, behind a `*` in
    /// staging.
    pub fn to_string(&self, env: Environment) -> (text: String)
        ensures
            text@ == self.spec_display(env),
    {
        let name = match self {
            ControllerBrain::Global => "Global",
            ControllerBrain::Guild(nick) => nick.name(),
        };
        match env {
            Environment::Production => String::from_str(name),
            Environment::Staging => String::from_str("*").concat(name),
        }
    }
}

} // verus!
