//! The settings that cleanup persists.
use vstd::prelude::*;

use super::policy::{Policy, PolicyView};
use crate::path::{components, same_path};
use crate::runtime_provider::copy_bytes;

verus! {

/// A repository that cleanup looks after.
#[derive(Debug)]
pub struct Registration {
    pub repository: Vec<u8>,
    /// The policy of this repository, where it has one of its own.
    pub policy: Option<Policy>,
    pub next_attempt: u64,
    pub failures: u32,
}

#[verifier::ext_equal]
pub struct RegistrationView {
    pub repository: Seq<u8>,
    pub policy: Option<PolicyView>,
    pub next_attempt: u64,
    pub failures: u32,
}

pub open spec fn policy_view(value: Option<Policy>) -> Option<PolicyView> {
    match value {
        Some(policy) => Some(policy@),
        None => None,
    }
}

impl View for Registration {
    type V = RegistrationView;

    open spec fn view(&self) -> RegistrationView {
        RegistrationView {
            repository: self.repository@,
            policy: policy_view(self.policy),
            next_attempt: self.next_attempt,
            failures: self.failures,
        }
    }
}

impl Clone for Registration {
    fn clone(&self) -> (r: Self)
        ensures
            r@ == self@,
    {
        Registration {
            repository: copy_bytes(&self.repository),
            policy: match &self.policy {
                Some(policy) => Some(policy.clone()),
                None => None,
            },
            next_attempt: self.next_attempt,
            failures: self.failures,
        }
    }
}

/// The policy of an owner, and the repositories that are looked after.
#[derive(Debug)]
pub struct Settings {
    pub policy: Policy,
    pub repositories: Vec<Registration>,
}

#[verifier::ext_equal]
pub struct SettingsView {
    pub policy: PolicyView,
    pub repositories: Seq<RegistrationView>,
}

pub open spec fn registration_views(values: Seq<Registration>) -> Seq<RegistrationView> {
    Seq::new(values.len(), |i: int| values[i]@)
}

impl View for Settings {
    type V = SettingsView;

    open spec fn view(&self) -> SettingsView {
        SettingsView {
            policy: self.policy@,
            repositories: registration_views(self.repositories@),
        }
    }
}

impl Default for Settings {
    fn default() -> (r: Self)
        ensures
            r@ == (SettingsView { policy: PolicyView::standard(), repositories: Seq::empty() }),
    {
        let settings = Settings { policy: Policy::default(), repositories: Vec::new() };
        assert(settings@.repositories =~= Seq::empty());
        settings
    }
}

impl Clone for Settings {
    fn clone(&self) -> (r: Self)
        ensures
            r@ == self@,
    {
        let mut repositories: Vec<Registration> = Vec::new();
        let mut i: usize = 0;
        while i < self.repositories.len()
            invariant
                i <= self.repositories@.len(),
                repositories@.len() == i,
                forall|j: int|
                    0 <= j < i ==> (#[trigger] repositories@[j])@ == self.repositories@[j]@,
            decreases self.repositories@.len() - i,
        {
            repositories.push(self.repositories[i].clone());
            i = i + 1;
        }
        assert(registration_views(repositories@) =~= registration_views(self.repositories@));
        Settings { policy: self.policy.clone(), repositories }
    }
}

/// The first registration, from `i` on, of a repository.
pub open spec fn registered(
    repositories: Seq<RegistrationView>,
    repository: Seq<u8>,
    i: nat,
) -> Option<nat>
    decreases repositories.len() - i,
{
    if i >= repositories.len() {
        None
    } else if components(repositories[i as int].repository) == components(repository) {
        Some(i)
    } else {
        registered(repositories, repository, i + 1)
    }
}

/// A registration that is found is one of the repository.
pub proof fn lemma_registered(repositories: Seq<RegistrationView>, repository: Seq<u8>, i: nat)
    ensures
        registered(repositories, repository, i) matches Some(at) ==> i <= at < repositories.len()
            && components(repositories[at as int].repository) == components(repository),
    decreases repositories.len() - i,
{
    if i < repositories.len() && components(repositories[i as int].repository) != components(
        repository,
    ) {
        lemma_registered(repositories, repository, i + 1);
    }
}

impl SettingsView {
    /// The policy that holds for a registered repository.
    pub open spec fn policy_of(self, repository: Seq<u8>) -> Option<PolicyView> {
        match registered(self.repositories, repository, 0) {
            Some(i) => match self.repositories[i as int].policy {
                Some(policy) => Some(policy),
                None => Some(self.policy),
            },
            None => None,
        }
    }
}

impl Settings {
    /// Where a repository is registered, if it is.
    pub fn position(&self, repository: &Vec<u8>) -> (r: Option<usize>)
        ensures
            match registered(self@.repositories, repository@, 0) {
                Some(at) => r matches Some(i) && i == at && i < self.repositories@.len(),
                None => r is None,
            },
    {
        let mut i: usize = 0;
        let ghost views = registration_views(self.repositories@);
        while i < self.repositories.len()
            invariant
                i <= self.repositories@.len(),
                views == registration_views(self.repositories@),
                registered(views, repository@, 0) == registered(views, repository@, i as nat),
            decreases self.repositories@.len() - i,
        {
            assert(views[i as int] == self.repositories@[i as int]@);
            if same_path(&self.repositories[i].repository, repository) {
                return Some(i);
            }
            i = i + 1;
        }
        None
    }
}

/// A repository that is registered goes by its own policy where it has one, and by the common
/// policy otherwise; one that is not registered goes by none.
pub proof fn repositories_go_by_their_own_policy(
    settings: SettingsView,
    repository: Seq<u8>,
    i: int,
)
    requires
        0 <= i < settings.repositories.len(),
    ensures
        components(settings.repositories[i].repository) == components(repository) && (forall|
            k: int,
        |
            0 <= k < i ==> components((#[trigger] settings.repositories[k]).repository)
                != components(repository)) ==> settings.policy_of(repository) == (
        match settings.repositories[i].policy {
            Some(policy) => Some(policy),
            None => Some(settings.policy),
        }),
        (forall|k: int|
            0 <= k < settings.repositories.len() ==> components(
                (#[trigger] settings.repositories[k]).repository,
            ) != components(repository)) ==> settings.policy_of(repository) is None,
{
    lemma_first_registered(settings.repositories, repository, 0, i);
}

proof fn lemma_first_registered(
    repositories: Seq<RegistrationView>,
    repository: Seq<u8>,
    from: nat,
    i: int,
)
    requires
        from <= i < repositories.len(),
    ensures
        components(repositories[i].repository) == components(repository) && (forall|k: int|
            from <= k < i ==> components((#[trigger] repositories[k]).repository) != components(
                repository,
            )) ==> registered(repositories, repository, from) == Some(i as nat),
        (forall|k: int|
            from <= k < repositories.len() ==> components((#[trigger] repositories[k]).repository)
                != components(repository)) ==> registered(repositories, repository, from) is None,
    decreases repositories.len() - from,
{
    if components(repositories[from as int].repository) != components(repository) {
        if from < i {
            lemma_first_registered(repositories, repository, from + 1, i);
        } else if from + 1 < repositories.len() {
            lemma_first_registered(repositories, repository, from + 1, from as int + 1);
        }
    }
}

} // verus!
