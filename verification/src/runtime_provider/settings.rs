//! Owner-local provider selection. API callers select a configured id; they cannot supply
//! a Coven home, credentials, an executable or an environment.
use vstd::prelude::*;
use vstd::utf8::*;

use super::{
    absolute, copy_bytes, has_nul, project_root_path, provider_id_text, ProviderConfig, ProviderId,
    ProviderIdentity, MAX_PATH_BYTES,
};
use crate::coven::{ExecutionAuthority, ExecutionScope};
use crate::text::{decimal, decimal_text, same};

verus! {

/// The name of the settings file in the configuration directory.
pub const OWNER_SETTINGS_FILE: &'static str = "runtime-providers.toml";

pub const MAX_SETTINGS_BYTES: usize = 65_536;

pub const MAX_PROVIDERS: usize = 16;

pub const DEFAULT_QUEUE_CAPACITY: usize = 8;

/// One provider entry of a settings document.
pub struct Entry {
    pub id: String,
    pub host_id: String,
    pub project_id: String,
    pub profile_id: String,
    pub policy_generation: u64,
    pub authority_id: String,
    pub authority_generation: u64,
    pub allow_actions: bool,
    pub project_root: Option<Vec<u8>>,
    pub coven_home: Vec<u8>,
}

/// A settings document.
pub struct Document {
    pub version: u32,
    pub enabled: bool,
    pub providers: Vec<Entry>,
}

/// The daemon client's verdicts on the identifiers of one entry.
#[derive(Clone, Copy, Debug, PartialEq, Eq, Structural)]
pub struct EntryVerdict {
    pub host_id: bool,
    pub project_id: bool,
    pub profile_id: bool,
    pub authority_id: bool,
    pub authority_generation: bool,
    pub scope: bool,
}

#[derive(Clone, Copy, Debug, PartialEq, Eq)]
pub enum SettingsError {
    ReadFailed,
    TooLarge,
    InvalidDocument,
    UnsupportedVersion,
    TooManyProviders,
    InvalidEntry { index: usize, field: &'static str },
    DuplicateProvider,
    DuplicateScope,
}

impl SettingsError {
    pub open spec fn text(self) -> Seq<char> {
        match self {
            SettingsError::ReadFailed => "could not read owner provider settings"@,
            SettingsError::TooLarge => "owner provider settings exceed the size limit"@,
            SettingsError::InvalidDocument => "invalid owner provider settings document"@,
            SettingsError::UnsupportedVersion => "unsupported owner provider settings version"@,
            SettingsError::TooManyProviders => "too many configured providers"@,
            SettingsError::InvalidEntry { index, field } => "invalid provider entry "@ + decimal(
                index as nat,
            ) + " field "@ + field@,
            SettingsError::DuplicateProvider => "duplicate provider id"@,
            SettingsError::DuplicateScope => "duplicate provider host/project/profile scope"@,
        }
    }

    /// The message for an operator. It holds no path and no part of the document, because
    /// diagnostics may cross the API.
    pub fn message(&self) -> (r: String)
        ensures
            r@ == self.text(),
    {
        match self {
            SettingsError::ReadFailed => "could not read owner provider settings".to_owned(),
            SettingsError::TooLarge => "owner provider settings exceed the size limit".to_owned(),
            SettingsError::InvalidDocument => "invalid owner provider settings document".to_owned(),
            SettingsError::UnsupportedVersion => {
                "unsupported owner provider settings version".to_owned()
            },
            SettingsError::TooManyProviders => "too many configured providers".to_owned(),
            SettingsError::InvalidEntry { index, field } => {
                "invalid provider entry ".to_owned().concat(
                    decimal_text(*index as u64).as_str(),
                ).concat(" field ").concat(field)
            },
            SettingsError::DuplicateProvider => "duplicate provider id".to_owned(),
            SettingsError::DuplicateScope => {
                "duplicate provider host/project/profile scope".to_owned()
            },
        }
    }

    /// This error is `defect` of the entry at `index`.
    pub open spec fn reports(self, defect: EntryDefect, index: nat) -> bool {
        match defect {
            EntryDefect::Field(name) => self matches SettingsError::InvalidEntry { index: i, field }
                && i == index && field@ == name,
            EntryDefect::DuplicateProvider => self == SettingsError::DuplicateProvider,
            EntryDefect::DuplicateScope => self == SettingsError::DuplicateScope,
        }
    }
}

/// What is wrong with an entry.
pub enum EntryDefect {
    Field(Seq<char>),
    DuplicateProvider,
    DuplicateScope,
}

pub open spec fn same_scope(a: Entry, b: Entry) -> bool {
    a.host_id@ == b.host_id@ && a.project_id@ == b.project_id@ && a.profile_id@ == b.profile_id@
}

/// The project root of an entry: its own, or else its Coven home.
pub open spec fn entry_root(entry: Entry) -> Seq<u8> {
    match entry.project_root {
        Some(root) => root@,
        None => entry.coven_home@,
    }
}

/// The first thing that is wrong with the entry at `i`, given the entries before it.
pub open spec fn entry_defect(
    entries: Seq<Entry>,
    verdicts: Seq<EntryVerdict>,
    i: int,
) -> Option<EntryDefect> {
    let entry = entries[i];
    let verdict = verdicts[i];
    if !absolute(entry.coven_home@) || entry.coven_home@.len() > MAX_PATH_BYTES {
        Some(EntryDefect::Field("coven_home"@))
    } else if !provider_id_text(entry.id@) {
        Some(EntryDefect::Field("id"@))
    } else if !verdict.host_id {
        Some(EntryDefect::Field("host_id"@))
    } else if !verdict.project_id {
        Some(EntryDefect::Field("project_id"@))
    } else if !verdict.profile_id {
        Some(EntryDefect::Field("profile_id"@))
    } else if !verdict.authority_id {
        Some(EntryDefect::Field("authority_id"@))
    } else if !verdict.authority_generation {
        Some(EntryDefect::Field("authority_generation"@))
    } else if exists|j: int| 0 <= j < i && (#[trigger] entries[j]).id@ == entry.id@ {
        Some(EntryDefect::DuplicateProvider)
    } else if exists|j: int| 0 <= j < i && same_scope(#[trigger] entries[j], entry) {
        Some(EntryDefect::DuplicateScope)
    } else if !verdict.scope {
        Some(EntryDefect::Field("identity"@))
    } else if has_nul(entry.coven_home@) {
        Some(EntryDefect::Field("coven_home"@))
    } else if !project_root_path(entry_root(entry)) {
        Some(EntryDefect::Field("project_root"@))
    } else {
        None
    }
}

/// The first entry, from `i` on, with something wrong.
pub open spec fn first_defect(
    entries: Seq<Entry>,
    verdicts: Seq<EntryVerdict>,
    i: nat,
) -> Option<(nat, EntryDefect)>
    decreases entries.len() - i,
{
    if i >= entries.len() {
        None
    } else {
        match entry_defect(entries, verdicts, i as int) {
            Some(defect) => Some((i, defect)),
            None => first_defect(entries, verdicts, i + 1),
        }
    }
}

/// `config` is what an entry configures.
pub open spec fn configures(entry: Entry, config: ProviderConfig) -> bool {
    &&& config.wf()
    &&& config.identity.provider_id@ == entry.id@
    &&& config.identity.host_id == entry.host_id
    &&& config.identity.scope == (ExecutionScope {
        project_id: entry.project_id,
        profile_id: entry.profile_id,
        policy_generation: entry.policy_generation,
    })
    &&& config.identity.authority == (ExecutionAuthority {
        id: entry.authority_id,
        generation: entry.authority_generation,
    })
    &&& config.coven_home@ == entry.coven_home@
    &&& config.project_root@ == entry_root(entry)
    &&& config.queue_capacity == DEFAULT_QUEUE_CAPACITY
    &&& config.actions_allowed == entry.allow_actions
}

/// Which providers the owner configured, and whether they may be used at all.
pub struct OwnerProviderSettings {
    pub enabled: bool,
    pub providers: Vec<ProviderConfig>,
}

/// `std::str::from_utf8`, with the text it gives copied: bytes that are valid UTF-8 become
/// the text they encode, and all others are refused.
#[verifier::external_body]
pub(crate) fn utf8_text(bytes: &[u8]) -> (r: Option<String>)
    ensures
        r is Some <==> valid_utf8(bytes@),
        r matches Some(text) ==> text@ == decode_utf8(bytes@),
{
    std::str::from_utf8(bytes).ok().map(str::to_owned)
}

impl OwnerProviderSettings {
    pub open spec fn nothing(self) -> bool {
        !self.enabled && self.providers@.len() == 0
    }

    /// Every configured provider can be started.
    pub open spec fn wf(self) -> bool {
        forall|i: int| 0 <= i < self.providers@.len() ==> (#[trigger] self.providers@[i]).wf()
    }

    /// The native-only default: no provider is configured and none may be used.
    pub fn none() -> (r: Self)
        ensures
            r.nothing(),
    {
        OwnerProviderSettings { enabled: false, providers: Vec::new() }
    }

    /// The text of a settings file, where it is small enough and valid UTF-8.
    pub fn file_text(bytes: &[u8]) -> (r: Result<String, SettingsError>)
        ensures
            r is Ok <==> bytes@.len() <= MAX_SETTINGS_BYTES && valid_utf8(bytes@),
            r matches Ok(text) ==> text@ == decode_utf8(bytes@),
            r matches Err(error) ==> error == (if bytes@.len() > MAX_SETTINGS_BYTES {
                SettingsError::TooLarge
            } else {
                SettingsError::InvalidDocument
            }),
    {
        if bytes.len() > MAX_SETTINGS_BYTES {
            return Err(SettingsError::TooLarge);
        }
        match utf8_text(bytes) {
            Some(text) => Ok(text),
            None => Err(SettingsError::InvalidDocument),
        }
    }

    fn configure(entry: &Entry, verdict: EntryVerdict) -> (r: Result<ProviderConfig, &'static str>)
        requires
            absolute(entry.coven_home@),
            provider_id_text(entry.id@),
            verdict.authority_generation,
        ensures
            r is Ok <==> verdict.scope && !has_nul(entry.coven_home@) && project_root_path(
                entry_root(*entry),
            ),
            r matches Ok(config) ==> configures(*entry, config),
            r matches Err(field) ==> field@ == (if !verdict.scope {
                "identity"@
            } else if has_nul(entry.coven_home@) {
                "coven_home"@
            } else {
                "project_root"@
            }),
    {
        let provider_id = match ProviderId::new(entry.id.as_str()) {
            Ok(id) => id,
            Err(_) => {
                return Err("identity");
            },
        };
        let scope = ExecutionScope {
            project_id: entry.project_id.clone(),
            profile_id: entry.profile_id.clone(),
            policy_generation: entry.policy_generation,
        };
        let authority = ExecutionAuthority {
            id: entry.authority_id.clone(),
            generation: entry.authority_generation,
        };
        let identity = match ProviderIdentity::new(
            provider_id,
            entry.host_id.clone(),
            scope,
            authority,
            verdict.scope,
            verdict.authority_generation,
        ) {
            Ok(identity) => identity,
            Err(_) => {
                return Err("identity");
            },
        };
        let config = match ProviderConfig::new(
            identity,
            copy_bytes(&entry.coven_home),
            DEFAULT_QUEUE_CAPACITY,
        ) {
            Ok(config) => config,
            Err(_) => {
                return Err("coven_home");
            },
        };
        let root = match &entry.project_root {
            Some(root) => copy_bytes(root),
            None => copy_bytes(&entry.coven_home),
        };
        match config.with_project_root(root) {
            Ok(config) => Ok(config.with_actions_allowed(entry.allow_actions)),
            Err(_) => Err("project_root"),
        }
    }

    fn repeats_id(entries: &Vec<Entry>, index: usize) -> (r: bool)
        requires
            index < entries@.len(),
        ensures
            r == exists|j: int|
                0 <= j < index && (#[trigger] entries@[j]).id@ == entries@[index as int].id@,
    {
        let mut j: usize = 0;
        while j < index
            invariant
                j <= index < entries@.len(),
                forall|k: int|
                    0 <= k < j ==> (#[trigger] entries@[k]).id@ != entries@[index as int].id@,
            decreases index - j,
        {
            if same(entries[j].id.as_str(), entries[index].id.as_str()) {
                assert(entries@[j as int].id@ == entries@[index as int].id@);
                return true;
            }
            j = j + 1;
        }
        false
    }

    fn repeats_scope(entries: &Vec<Entry>, index: usize) -> (r: bool)
        requires
            index < entries@.len(),
        ensures
            r == exists|j: int|
                0 <= j < index && same_scope(#[trigger] entries@[j], entries@[index as int]),
    {
        let mut j: usize = 0;
        while j < index
            invariant
                j <= index < entries@.len(),
                forall|k: int|
                    0 <= k < j ==> !same_scope(#[trigger] entries@[k], entries@[index as int]),
            decreases index - j,
        {
            if same(entries[j].host_id.as_str(), entries[index].host_id.as_str()) && same(
                entries[j].project_id.as_str(),
                entries[index].project_id.as_str(),
            ) && same(entries[j].profile_id.as_str(), entries[index].profile_id.as_str()) {
                assert(same_scope(entries@[j as int], entries@[index as int]));
                return true;
            }
            j = j + 1;
        }
        false
    }

    fn check_entry(entries: &Vec<Entry>, verdict: EntryVerdict, index: usize, Ghost(verdicts): Ghost<
        Seq<EntryVerdict>,
    >) -> (r: Result<ProviderConfig, SettingsError>)
        requires
            index < entries@.len(),
            verdicts.len() == entries@.len(),
            verdict == verdicts[index as int],
        ensures
            r is Ok <==> entry_defect(entries@, verdicts, index as int) is None,
            r matches Ok(config) ==> configures(entries@[index as int], config),
            r matches Err(error) ==> entry_defect(entries@, verdicts, index as int)
                matches Some(defect) && error.reports(defect, index as nat),
    {
        let entry = &entries[index];
        if entry.coven_home.len() == 0 || entry.coven_home[0] != 0x2f || entry.coven_home.len()
            > MAX_PATH_BYTES {
            return Err(SettingsError::InvalidEntry { index, field: "coven_home" });
        }
        if ProviderId::new(entry.id.as_str()).is_err() {
            return Err(SettingsError::InvalidEntry { index, field: "id" });
        }
        if !verdict.host_id {
            return Err(SettingsError::InvalidEntry { index, field: "host_id" });
        }
        if !verdict.project_id {
            return Err(SettingsError::InvalidEntry { index, field: "project_id" });
        }
        if !verdict.profile_id {
            return Err(SettingsError::InvalidEntry { index, field: "profile_id" });
        }
        if !verdict.authority_id {
            return Err(SettingsError::InvalidEntry { index, field: "authority_id" });
        }
        if !verdict.authority_generation {
            return Err(SettingsError::InvalidEntry { index, field: "authority_generation" });
        }
        if OwnerProviderSettings::repeats_id(entries, index) {
            return Err(SettingsError::DuplicateProvider);
        }
        if OwnerProviderSettings::repeats_scope(entries, index) {
            return Err(SettingsError::DuplicateScope);
        }
        match OwnerProviderSettings::configure(entry, verdict) {
            Ok(config) => Ok(config),
            Err(field) => Err(SettingsError::InvalidEntry { index, field }),
        }
    }

    /// Read a settings file. `document` is what the TOML parser makes of the text that
    /// `file_text` gives for the same bytes, and `verdicts` are the daemon client's verdicts on
    /// its entries.
    pub fn parse(
        bytes: &[u8],
        document: &Option<Document>,
        verdicts: &Vec<EntryVerdict>,
    ) -> (r: Result<Self, SettingsError>)
        requires
            document matches Some(document) ==> verdicts@.len() == document.providers@.len(),
        ensures
            bytes@.len() > MAX_SETTINGS_BYTES ==> r == Err::<Self, SettingsError>(
                SettingsError::TooLarge,
            ),
            bytes@.len() <= MAX_SETTINGS_BYTES && (!valid_utf8(bytes@) || *document is None) ==> r
                == Err::<Self, SettingsError>(SettingsError::InvalidDocument),
            bytes@.len() <= MAX_SETTINGS_BYTES && valid_utf8(bytes@) ==> (document matches Some(
                document,
            ) ==> {
                let defect = first_defect(document.providers@, verdicts@, 0);
                &&& document.version != 1 ==> r == Err::<Self, SettingsError>(
                    SettingsError::UnsupportedVersion,
                )
                &&& document.version == 1 && document.providers@.len() > MAX_PROVIDERS ==> r
                    == Err::<Self, SettingsError>(SettingsError::TooManyProviders)
                &&& document.version == 1 && document.providers@.len() <= MAX_PROVIDERS ==> {
                    &&& r is Ok <==> defect is None
                    &&& r matches Ok(settings) ==> {
                        &&& settings.enabled == document.enabled
                        &&& settings.providers@.len() == document.providers@.len()
                        &&& forall|i: int|
                            0 <= i < document.providers@.len() ==> configures(
                                document.providers@[i],
                                #[trigger] settings.providers@[i],
                            )
                    }
                    &&& r matches Err(error) ==> defect matches Some((index, what))
                        && error.reports(what, index)
                }
            }),
            r matches Ok(settings) ==> settings.wf(),
    {
        if let Err(error) = OwnerProviderSettings::file_text(bytes) {
            return Err(error);
        }
        let parsed = match document {
            Some(parsed) => parsed,
            None => {
                return Err(SettingsError::InvalidDocument);
            },
        };
        if parsed.version != 1 {
            return Err(SettingsError::UnsupportedVersion);
        }
        if parsed.providers.len() > MAX_PROVIDERS {
            return Err(SettingsError::TooManyProviders);
        }
        let mut providers: Vec<ProviderConfig> = Vec::new();
        let mut index: usize = 0;
        while index < parsed.providers.len()
            invariant
                bytes@.len() <= MAX_SETTINGS_BYTES,
                valid_utf8(bytes@),
                *document == Some(*parsed),
                parsed.version == 1,
                parsed.providers@.len() <= MAX_PROVIDERS,
                index <= parsed.providers@.len(),
                verdicts@.len() == parsed.providers@.len(),
                providers@.len() == index,
                forall|i: int|
                    0 <= i < index ==> configures(
                        parsed.providers@[i],
                        #[trigger] providers@[i],
                    ),
                first_defect(parsed.providers@, verdicts@, 0) == first_defect(
                    parsed.providers@,
                    verdicts@,
                    index as nat,
                ),
            decreases parsed.providers@.len() - index,
        {
            match OwnerProviderSettings::check_entry(
                &parsed.providers,
                verdicts[index],
                index,
                Ghost(verdicts@),
            ) {
                Ok(config) => {
                    providers.push(config);
                },
                Err(error) => {
                    return Err(error);
                },
            }
            index = index + 1;
        }
        Ok(OwnerProviderSettings { enabled: parsed.enabled, providers })
    }
}

proof fn lemma_no_defect_at(entries: Seq<Entry>, verdicts: Seq<EntryVerdict>, i: nat, at: int)
    requires
        first_defect(entries, verdicts, i) is None,
        i <= at < entries.len(),
    ensures
        entry_defect(entries, verdicts, at) is None,
    decreases at - i,
{
    if i < at {
        lemma_no_defect_at(entries, verdicts, i + 1, at);
    }
}

/// Accepted settings never name two providers alike, nor two with the same host, project
/// and profile.
pub proof fn accepted_providers_are_distinct(entries: Seq<Entry>, verdicts: Seq<EntryVerdict>)
    requires
        verdicts.len() == entries.len(),
        first_defect(entries, verdicts, 0) is None,
    ensures
        forall|i: int, j: int|
            0 <= i < j < entries.len() ==> (#[trigger] entries[i]).id@ != (
            #[trigger] entries[j]).id@ && !same_scope(entries[i], entries[j]),
{
    assert forall|i: int, j: int| 0 <= i < j < entries.len() implies (#[trigger] entries[i]).id@ != (
    #[trigger] entries[j]).id@ && !same_scope(entries[i], entries[j]) by {
        lemma_no_defect_at(entries, verdicts, 0, j);
    }
}

proof fn lemma_no_defect(entries: Seq<Entry>, verdicts: Seq<EntryVerdict>, from: nat, i: int)
    requires
        first_defect(entries, verdicts, from) is None,
        from <= i < entries.len(),
    ensures
        entry_defect(entries, verdicts, i) is None,
    decreases i - from,
{
    if from < i {
        lemma_no_defect(entries, verdicts, from + 1, i);
    }
}

/// Owner settings are accepted only where each of their providers is in order: its paths are
/// absolute, its id is plain, the daemon client takes its names, and no other has its id or its
/// place.
pub proof fn accepted_entries_are_in_order(
    entries: Seq<Entry>,
    verdicts: Seq<EntryVerdict>,
    i: int,
    j: int,
)
    requires
        first_defect(entries, verdicts, 0) is None,
        0 <= i < entries.len(),
        0 <= j < i,
    ensures
        entries[i].coven_home@.len() > 0 && entries[i].coven_home@[0] == 0x2f
            && entries[i].coven_home@.len() <= 4096,
        provider_id_text(entries[i].id@),
        verdicts[i].host_id && verdicts[i].project_id && verdicts[i].profile_id
            && verdicts[i].authority_id && verdicts[i].authority_generation && verdicts[i].scope,
        entries[j].id@ != entries[i].id@,
        entries[j].host_id@ != entries[i].host_id@ || entries[j].project_id@
            != entries[i].project_id@ || entries[j].profile_id@ != entries[i].profile_id@,
        entries[i].project_root matches Some(root) ==> root@.len() > 0 && root@[0] == 0x2f,
{
    lemma_no_defect(entries, verdicts, 0, i);
    assert(same_scope(entries[j], entries[i]) || !same_scope(entries[j], entries[i]));
}

/// A provider is configured as its owner wrote it: under its own names, in its own directories,
/// with actions exactly where they were allowed, and in the project's root where one is given.
pub proof fn providers_are_configured_as_written(entry: Entry, config: ProviderConfig)
    requires
        configures(entry, config),
    ensures
        config.identity.provider_id@ == entry.id@,
        config.identity.host_id == entry.host_id,
        config.identity.scope.project_id == entry.project_id,
        config.identity.scope.profile_id == entry.profile_id,
        config.identity.scope.policy_generation == entry.policy_generation,
        config.identity.authority.id == entry.authority_id,
        config.identity.authority.generation == entry.authority_generation,
        config.coven_home@ == entry.coven_home@,
        entry.project_root matches Some(root) ==> config.project_root@ == root@,
        entry.project_root is None ==> config.project_root@ == entry.coven_home@,
        config.actions_allowed == entry.allow_actions,
        config.queue_capacity == 8,
{
}

/// What is wrong with an entry is named, in the order in which it is looked at.
pub proof fn defective_entries_name_their_field(
    entries: Seq<Entry>,
    verdicts: Seq<EntryVerdict>,
    i: int,
)
    ensures
        ({
            let defect = entry_defect(entries, verdicts, i);
            let home = entries[i].coven_home@;
            let home_ok = home.len() > 0 && home[0] == 0x2f && home.len() <= 4096;
            let id_ok = provider_id_text(entries[i].id@);
            let said = verdicts[i];
            &&& !home_ok ==> defect == Some(EntryDefect::Field("coven_home"@))
            &&& home_ok && !id_ok ==> defect == Some(EntryDefect::Field("id"@))
            &&& home_ok && id_ok && !said.host_id ==> defect == Some(EntryDefect::Field("host_id"@))
            &&& home_ok && id_ok && said.host_id && !said.project_id ==> defect == Some(
                EntryDefect::Field("project_id"@),
            )
            &&& home_ok && id_ok && said.host_id && said.project_id && !said.profile_id ==> defect
                == Some(EntryDefect::Field("profile_id"@))
            &&& home_ok && id_ok && said.host_id && said.project_id && said.profile_id
                && !said.authority_id ==> defect == Some(EntryDefect::Field("authority_id"@))
            &&& home_ok && id_ok && said.host_id && said.project_id && said.profile_id
                && said.authority_id && !said.authority_generation ==> defect == Some(
                EntryDefect::Field("authority_generation"@),
            )
        }),
{
}

/// A single provider in order is accepted.
pub proof fn entries_in_order_are_accepted(entries: Seq<Entry>, verdicts: Seq<EntryVerdict>)
    requires
        entries.len() == 1,
        entries[0].coven_home@.len() > 0 && entries[0].coven_home@[0] == 0x2f
            && entries[0].coven_home@.len() <= 4096,
        forall|k: int| 0 <= k < entries[0].coven_home@.len() ==> #[trigger] entries[0].coven_home@[k] != 0,
        provider_id_text(entries[0].id@),
        verdicts.len() == 1,
        verdicts[0].host_id && verdicts[0].project_id && verdicts[0].profile_id
            && verdicts[0].authority_id && verdicts[0].authority_generation && verdicts[0].scope,
        entries[0].project_root is None,
    ensures
        first_defect(entries, verdicts, 0) is None,
{
    assert(entry_defect(entries, verdicts, 0) is None);
    assert(first_defect(entries, verdicts, 1) is None);
}

/// Each defect of the owner's settings has a text of its own; of an entry its place and its
/// field are told.
pub proof fn settings_defects_have_their_own_text(index: usize, field: &'static str)
    ensures
        SettingsError::ReadFailed.text() == "could not read owner provider settings"@,
        SettingsError::TooLarge.text() == "owner provider settings exceed the size limit"@,
        SettingsError::InvalidDocument.text() == "invalid owner provider settings document"@,
        SettingsError::UnsupportedVersion.text() == "unsupported owner provider settings version"@,
        SettingsError::TooManyProviders.text() == "too many configured providers"@,
        (SettingsError::InvalidEntry { index, field }).text() == "invalid provider entry "@ + decimal(
            index as nat,
        ) + " field "@ + field@,
        SettingsError::DuplicateProvider.text() == "duplicate provider id"@,
        SettingsError::DuplicateScope.text() == "duplicate provider host/project/profile scope"@,
        MAX_SETTINGS_BYTES == 64 * 1024,
        MAX_PROVIDERS == 16,
        DEFAULT_QUEUE_CAPACITY == 8,
{
}

/// Once its own fields are taken, an entry is held against those before it: one with the same
/// id, or with the same host, project and profile, is refused; then its identity, its home and
/// its project root are, and where nothing is wrong it is accepted.
pub proof fn entries_are_held_against_those_before(
    entries: Seq<Entry>,
    verdicts: Seq<EntryVerdict>,
    i: int,
    j: int,
)
    requires
        0 <= i < entries.len(),
        entries[i].coven_home@.len() > 0 && entries[i].coven_home@[0] == 0x2f
            && entries[i].coven_home@.len() <= 4096,
        provider_id_text(entries[i].id@),
        verdicts[i].host_id && verdicts[i].project_id && verdicts[i].profile_id
            && verdicts[i].authority_id && verdicts[i].authority_generation,
    ensures
        ({
            let entry = entries[i];
            let defect = entry_defect(entries, verdicts, i);
            let alone = forall|k: int|
                0 <= k < i ==> (#[trigger] entries[k]).id@ != entry.id@ && (entries[k].host_id@
                    != entry.host_id@ || entries[k].project_id@ != entry.project_id@
                    || entries[k].profile_id@ != entry.profile_id@);
            let root = match entry.project_root {
                Some(own) => own@,
                None => entry.coven_home@,
            };
            &&& 0 <= j < i && entries[j].id@ == entry.id@ ==> defect == Some(
                EntryDefect::DuplicateProvider,
            )
            &&& 0 <= j < i && entries[j].host_id@ == entry.host_id@ && entries[j].project_id@
                == entry.project_id@ && entries[j].profile_id@ == entry.profile_id@ ==> defect
                == Some(EntryDefect::DuplicateProvider) || defect == Some(
                EntryDefect::DuplicateScope,
            )
            &&& alone && !verdicts[i].scope ==> defect == Some(EntryDefect::Field("identity"@))
            &&& alone && verdicts[i].scope && has_nul(entry.coven_home@) ==> defect == Some(
                EntryDefect::Field("coven_home"@),
            )
            &&& alone && verdicts[i].scope && !has_nul(entry.coven_home@) && !project_root_path(
                root,
            ) ==> defect == Some(EntryDefect::Field("project_root"@))
            &&& alone && verdicts[i].scope && !has_nul(entry.coven_home@) && project_root_path(root)
                ==> defect is None
        }),
{
    let entry = entries[i];
    if exists|k: int| 0 <= k < i && same_scope(#[trigger] entries[k], entry) {
        let k = choose|k: int| 0 <= k < i && same_scope(#[trigger] entries[k], entry);
        assert(entries[k].host_id@ == entry.host_id@);
    }
    if 0 <= j < i && entries[j].host_id@ == entry.host_id@ && entries[j].project_id@
        == entry.project_id@ && entries[j].profile_id@ == entry.profile_id@ {
        assert(same_scope(entries[j], entry));
    }
}

/// Where nothing is configured, no provider may be used and there is none.
pub proof fn nothing_configured_is_nothing(settings: OwnerProviderSettings)
    ensures
        settings.nothing() <==> !settings.enabled && settings.providers@ == Seq::<
            ProviderConfig,
        >::empty(),
{
    if settings.providers@.len() == 0 {
        assert(settings.providers@ =~= Seq::<ProviderConfig>::empty());
    }
}

} // verus!
