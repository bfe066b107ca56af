use vstd::prelude::*;

pub mod properties;

use properties::{GuildNicknameProperties, DUCK_COMMUNISM_ID, POKECOM_ID, POKECOM_STAFF_ID};

verus! {

/// A member guild, by the name the code knows it under.
#[derive(Copy, Clone, Debug, PartialEq, Eq, Hash, Structural)]
pub enum GuildNickname {
    Pokecom,
    PokecomStaff,
    DuckCommunism,
}

impl GuildNickname {
    /// The identifier of the guild.
    pub open spec fn spec_id(self) -> u64 {
        match self {
            GuildNickname::Pokecom => POKECOM_ID,
            GuildNickname::PokecomStaff => POKECOM_STAFF_ID,
            GuildNickname::DuckCommunism => DUCK_COMMUNISM_ID,
        }
    }

    /// The display name of the guild.
    pub open spec fn spec_name(self) -> Seq<char> {
        match self {
            GuildNickname::Pokecom => "Pokecom"@,
            GuildNickname::PokecomStaff => "PokcomStaff"@,
            GuildNickname::DuckCommunism => "DuckCommunism"@,
        }
    }

    pub fn id(&self) -> (id: u64)
        ensures
            id == self.spec_id(),
    {
        self.properties().id()
    }

    pub fn name(&self) -> (name: &'static str)
        ensures
            name@ == self.spec_name(),
    {
        self.properties().name()
    }

    pub fn properties(&self) -> (properties: GuildNicknameProperties)
        ensures
            properties.id == self.spec_id(),
            properties.name@ == self.spec_name(),
    {
        match self {
            GuildNickname::Pokecom => GuildNicknameProperties { id: POKECOM_ID, name: "Pokecom" },
            GuildNickname::PokecomStaff => GuildNicknameProperties {
                id: POKECOM_STAFF_ID,
                name: "PokcomStaff",
            },
            GuildNickname::DuckCommunism => GuildNicknameProperties {
                id: DUCK_COMMUNISM_ID,
                name: "DuckCommunism",
            },
        }
    }

    /// The display form, which is the name.
    pub fn to_string(&self) -> (text: String)
        ensures
            text@ == self.spec_name(),
    {
        self.properties().to_string()
    }
}

/// No two nicknames share an identifier.
pub proof fn lemma_ids_distinct(a: GuildNickname, b: GuildNickname)
    ensures
        a.spec_id() == b.spec_id() <==> a == b,
{
}

} // verus!
