use vstd::prelude::*;

verus! {

/// The call of the platform's command API that uploads one command. The
/// data of the command goes with it.
#[derive(Copy, Clone, Debug, PartialEq, Eq, Structural)]
pub enum UploadRequest {
    /// Replace the global command `command`.
    EditGlobal { command: u64 },
    /// Create a global command.
    CreateGlobal,
    /// Replace the command `command` of the guild `guild`.
    EditGuild { guild: u64, command: u64 },
    /// Create a command of the guild `guild`.
    CreateGuild { guild: u64 },
}

/// The call of the platform's command API that reads one command.
#[derive(Copy, Clone, Debug, PartialEq, Eq, Structural)]
pub enum GetRequest {
    /// Read the global command `command`.
    Global { command: u64 },
    /// Read the command `command` of the guild `guild`.
    Guild { guild: u64, command: u64 },
}

/// Where commands go.
#[derive(Debug)]
enum UploadInterfaceInner {
    Global,
    Guild(u64),
}

/// Picks the call of the command API that uploads to, or reads from, one
/// target. A controller hands one out; nothing else can make one.
pub struct UploadInterface(UploadInterfaceInner);

impl UploadInterface {
    /// The guild the interface addresses, or `None` for the global target.
    pub closed spec fn target(&self) -> Option<u64> {
        match self.0 {
            UploadInterfaceInner::Global => None,
            UploadInterfaceInner::Guild(guild) => Some(guild),
        }
    }

    /// The call that uploads a command to `target`, replacing `command_id`
    /// where one is given.
    pub open spec fn spec_upload(target: Option<u64>, command_id: Option<u64>) -> UploadRequest {
        match (target, command_id) {
            (None, Some(command)) => UploadRequest::EditGlobal { command },
            (None, None) => UploadRequest::CreateGlobal,
            (Some(guild), Some(command)) => UploadRequest::EditGuild { guild, command },
            (Some(guild), None) => UploadRequest::CreateGuild { guild },
        }
    }

    /// The call that reads the command `command` of `target`.
    pub open spec fn spec_get(target: Option<u64>, command: u64) -> GetRequest {
        match target {
            None => GetRequest::Global { command },
            Some(guild) => GetRequest::Guild { guild, command },
        }
    }

    /// An interface for the guild `id`.
    pub(crate) fn guild(id: u64) -> (iface: Self)
        ensures
            iface.target() == Some(id),
    {
        UploadInterface(UploadInterfaceInner::Guild(id))
    }

    /// An interface for the global target.
    pub(crate) fn global() -> (iface: Self)
        ensures
            iface.target() is None,
    {
        UploadInterface(UploadInterfaceInner::Global)
    }

    /// The guild the interface addresses, or `None` for the global target.
    pub fn guild_id(&self) -> (guild: Option<u64>)
        ensures
            guild == self.target(),
    {
        match self.0 {
            UploadInterfaceInner::Global => None,
            UploadInterfaceInner::Guild(guild) => Some(guild),
        }
    }

    /// The call that uploads a command. With a `command_id` the command of
    /// that identifier is replaced, without one a new command is created.
    pub fn upload(&self, command_id: Option<u64>) -> (request: UploadRequest)
        ensures
            request == Self::spec_upload(self.target(), command_id),
    {
        match (&self.0, command_id) {
            (UploadInterfaceInner::Global, Some(command)) => UploadRequest::EditGlobal { command },
            (UploadInterfaceInner::Global, None) => UploadRequest::CreateGlobal,
            (UploadInterfaceInner::Guild(guild), Some(command)) => UploadRequest::EditGuild {
                guild: *guild,
                command,
            },
            (UploadInterfaceInner::Guild(guild), None) => UploadRequest::CreateGuild {
                guild: *guild,
            },
        }
    }

    /// The call that reads the command of the identifier `command_id`.
    pub fn get(&self, command_id: u64) -> (request: GetRequest)
        ensures
            request == Self::spec_get(self.target(), command_id),
    {
        match &self.0 {
            UploadInterfaceInner::Global => GetRequest::Global { command: command_id },
            UploadInterfaceInner::Guild(guild) => GetRequest::Guild {
                guild: *guild,
                command: command_id,
            },
        }
    }
}

} // verus!
