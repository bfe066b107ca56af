use vstd::prelude::*;

verus! {

/// Identifier of the public community guild.
pub const POKECOM_ID: u64 = 157983957902819328;

/// Identifier of the staff guild.
pub const POKECOM_STAFF_ID: u64 = 193103073210662914;

/// Identifier of the private guild.
pub const DUCK_COMMUNISM_ID: u64 = 322199235825238017;

/// Identifier of the guild that stands in for every target in staging.
pub const STAGING_ID: u64 = 964389981516881920;

/// What is fixed about a member guild: its identifier and its display name.
#[derive(Debug)]
pub struct GuildNicknameProperties {
    pub id: u64,
    pub name: &'static str,
}

impl GuildNicknameProperties {
    pub fn id(&self) -> (id: u64)
        ensures
            id == self.id,
    {
        self.id
    }

    pub fn name(&self) -> (name: &'static str)
        ensures
            name == self.name,
    {
        self.name
    }

    /// The display form, which is the name.
    pub fn to_string(&self) -> (text: String)
        ensures
            text@ == self.name@,
    {
        String::from_str(self.name)
    }
}

/// The properties of the staging guild. No nickname selects it.
pub fn properties_staging() -> (properties: GuildNicknameProperties)
    ensures
        properties.id == STAGING_ID,
        properties.name@ == "Staging"@,
{
    GuildNicknameProperties { id: STAGING_ID, name: "Staging" }
}

} // verus!
