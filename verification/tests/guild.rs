use porygon::guild::nickname::properties::{
    properties_staging, GuildNicknameProperties, DUCK_COMMUNISM_ID, POKECOM_ID, POKECOM_STAFF_ID,
    STAGING_ID,
};
use porygon::guild::nickname::GuildNickname;

#[test]
fn nickname_ids_are_fixed() {
    assert_eq!(GuildNickname::Pokecom.id(), 157983957902819328);
    assert_eq!(GuildNickname::PokecomStaff.id(), 193103073210662914);
    assert_eq!(GuildNickname::DuckCommunism.id(), 322199235825238017);
    assert_eq!(POKECOM_ID, 157983957902819328);
    assert_eq!(POKECOM_STAFF_ID, 193103073210662914);
    assert_eq!(DUCK_COMMUNISM_ID, 322199235825238017);
}

#[test]
fn nickname_ids_are_distinct() {
    let all = [
        GuildNickname::Pokecom,
        GuildNickname::PokecomStaff,
        GuildNickname::DuckCommunism,
    ];
    for a in all.iter() {
        for b in all.iter() {
            assert_eq!(a.id() == b.id(), a == b);
        }
        assert_ne!(a.id(), STAGING_ID);
    }
}

#[test]
fn nickname_names() {
    assert_eq!(GuildNickname::Pokecom.name(), "Pokecom");
    assert_eq!(GuildNickname::PokecomStaff.name(), "PokcomStaff");
    assert_eq!(GuildNickname::DuckCommunism.name(), "DuckCommunism");
}

#[test]
fn nickname_display_is_the_name() {
    assert_eq!(GuildNickname::Pokecom.to_string(), "Pokecom");
    assert_eq!(GuildNickname::PokecomStaff.to_string(), "PokcomStaff");
    assert_eq!(GuildNickname::DuckCommunism.to_string(), "DuckCommunism");
}

#[test]
fn nickname_properties_hold_id_and_name() {
    let properties = GuildNickname::DuckCommunism.properties();
    assert_eq!(properties.id(), 322199235825238017);
    assert_eq!(properties.name(), "DuckCommunism");
    assert_eq!(properties.to_string(), "DuckCommunism");
}

#[test]
fn staging_properties() {
    let properties = properties_staging();
    assert_eq!(properties.id(), 964389981516881920);
    assert_eq!(properties.id(), STAGING_ID);
    assert_eq!(properties.name(), "Staging");
}

#[test]
fn properties_getters_read_the_fields() {
    let properties = GuildNicknameProperties { id: 42, name: "Somewhere" };
    assert_eq!(properties.id(), 42);
    assert_eq!(properties.name(), "Somewhere");
    assert_eq!(properties.to_string(), "Somewhere");
}
