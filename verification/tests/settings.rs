use herdr::runtime_provider::settings::{
    Document, Entry, EntryVerdict, OwnerProviderSettings, SettingsError, MAX_PROVIDERS,
    MAX_SETTINGS_BYTES,
};

const ACCEPTED: EntryVerdict = EntryVerdict {
    host_id: true,
    project_id: true,
    profile_id: true,
    authority_id: true,
    authority_generation: true,
    scope: true,
};

fn entry(id: &str, home: &str) -> String {
    format!(
        r#"[[providers]]
id = "{id}"
host_id = "host"
project_id = "project"
profile_id = "profile"
policy_generation = 1
authority_id = "authority"
authority_generation = 1
coven_home = {home:?}
"#
    )
}

fn known(table: &toml::Table, names: &[&str]) -> bool {
    table.keys().all(|key| names.contains(&key.as_str()))
}

fn provider(table: &toml::Table) -> Option<Entry> {
    let names = [
        "id",
        "host_id",
        "project_id",
        "profile_id",
        "policy_generation",
        "authority_id",
        "authority_generation",
        "allow_actions",
        "project_root",
        "coven_home",
    ];
    if !known(table, &names) {
        return None;
    }
    let text = |name: &str| -> Option<String> { Some(table.get(name)?.as_str()?.to_owned()) };
    let number =
        |name: &str| -> Option<u64> { u64::try_from(table.get(name)?.as_integer()?).ok() };
    Some(Entry {
        id: text("id")?,
        host_id: text("host_id")?,
        project_id: text("project_id")?,
        profile_id: text("profile_id")?,
        policy_generation: number("policy_generation")?,
        authority_id: text("authority_id")?,
        authority_generation: number("authority_generation")?,
        allow_actions: table
            .get("allow_actions")
            .and_then(|value| value.as_bool())
            .unwrap_or(false),
        project_root: text("project_root").map(String::into_bytes),
        coven_home: text("coven_home")?.into_bytes(),
    })
}

/// What TOML makes of a settings file.
fn document(bytes: &[u8]) -> Option<Document> {
    let text = OwnerProviderSettings::file_text(bytes).ok()?;
    let table: toml::Table = toml::from_str(&text).ok()?;
    if !known(&table, &["version", "enabled", "providers"]) {
        return None;
    }
    let mut providers = Vec::new();
    if let Some(value) = table.get("providers") {
        for item in value.as_array()? {
            providers.push(provider(item.as_table()?)?);
        }
    }
    Some(Document {
        version: u32::try_from(table.get("version")?.as_integer()?).ok()?,
        enabled: match table.get("enabled") {
            Some(value) => value.as_bool()?,
            None => false,
        },
        providers,
    })
}

fn parse(bytes: &[u8]) -> Result<OwnerProviderSettings, SettingsError> {
    let document = document(bytes);
    let count = document.as_ref().map_or(0, |document| document.providers.len());
    OwnerProviderSettings::parse(bytes, &document, &vec![ACCEPTED; count])
}

#[test]
fn explicit_opt_in_is_required() {
    let settings = parse(b"version = 1").ok().unwrap();
    assert!(!settings.enabled);
    assert!(settings.providers.is_empty());
}

#[test]
fn settings_errors_do_not_echo_owner_local_input() {
    let secret = b"version = 1\ncredential = 'sensitive-owner-value'";
    let error = parse(secret).err().unwrap();
    assert_eq!(error, SettingsError::InvalidDocument);
    assert!(!error.message().contains("sensitive-owner-value"));
    assert_eq!(
        parse(&vec![b'x'; MAX_SETTINGS_BYTES + 1]).err(),
        Some(SettingsError::TooLarge)
    );
}

#[test]
fn relative_provider_home_is_rejected_before_starting_workers() {
    let text = format!(
        "version = 1\nenabled = true\n{}",
        entry("provider", "relative/home")
    );
    assert_eq!(
        parse(text.as_bytes()).err(),
        Some(SettingsError::InvalidEntry {
            index: 0,
            field: "coven_home"
        })
    );
}

#[test]
fn duplicate_provider_and_scope_are_rejected() {
    let home = "/home/owner";
    for (second_id, expected) in [
        ("first", SettingsError::DuplicateProvider),
        ("second", SettingsError::DuplicateScope),
    ] {
        let text = format!(
            "version = 1\nenabled = true\n{}{}",
            entry("first", home),
            entry(second_id, home)
        );
        assert_eq!(parse(text.as_bytes()).err(), Some(expected));
    }
}

#[test]
fn accepted_entries_become_configurations() {
    let text = format!("version = 1\nenabled = true\n{}", entry("first", "/home/owner"));
    let settings = parse(text.as_bytes()).ok().unwrap();
    assert!(settings.enabled);
    assert_eq!(settings.providers.len(), 1);
    let config = &settings.providers[0];
    assert_eq!(config.identity.provider_id.as_str(), "first");
    assert_eq!(config.coven_home(), b"/home/owner");
    assert_eq!(config.project_root(), b"/home/owner");
    assert!(!config.actions_allowed());
}

#[test]
fn every_settings_error_has_its_input() {
    assert_eq!(
        parse(b"version = 2").err(),
        Some(SettingsError::UnsupportedVersion)
    );
    assert_eq!(parse(&[0xff, 0xfe]).err(), Some(SettingsError::InvalidDocument));
    assert_eq!(parse(b"enabled =").err(), Some(SettingsError::InvalidDocument));
    let mut many = "version = 1\n".to_owned();
    for i in 0..=MAX_PROVIDERS {
        many.push_str(&entry(&format!("p{i}"), "/home"));
    }
    assert_eq!(parse(many.as_bytes()).err(), Some(SettingsError::TooManyProviders));
    let text = format!("version = 1\n{}", entry("a b", "/home"));
    let error = parse(text.as_bytes()).err().unwrap();
    assert_eq!(error.message(), "invalid provider entry 0 field id");
    let text = format!("version = 1\n{}", entry("p", "/home"));
    for (verdict, field) in [
        (EntryVerdict { host_id: false, ..ACCEPTED }, "host_id"),
        (EntryVerdict { project_id: false, ..ACCEPTED }, "project_id"),
        (EntryVerdict { profile_id: false, ..ACCEPTED }, "profile_id"),
        (EntryVerdict { authority_id: false, ..ACCEPTED }, "authority_id"),
        (
            EntryVerdict { authority_generation: false, ..ACCEPTED },
            "authority_generation",
        ),
        (EntryVerdict { scope: false, ..ACCEPTED }, "identity"),
    ] {
        let bytes = text.as_bytes();
        assert_eq!(
            OwnerProviderSettings::parse(bytes, &document(bytes), &vec![verdict]).err(),
            Some(SettingsError::InvalidEntry { index: 0, field })
        );
    }
    assert_eq!(
        SettingsError::ReadFailed.message(),
        "could not read owner provider settings"
    );
    assert!(!OwnerProviderSettings::none().enabled);
}
