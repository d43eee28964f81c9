//! The live terminal runtimes of a server, by durable terminal id.
use vstd::prelude::*;

use super::table::Table;
use crate::runtime_provider::actor::ProviderRuntimeHandle;
use crate::runtime_provider::{ContractLimits, OperationTicket, ProviderCommand, SubmitError};

verus! {

/// The most terminals that show an external execution.
pub const MAX_EXTERNAL_TERMINALS: usize = 64;

pub open spec fn handles_wf(handles: Map<Seq<char>, ProviderRuntimeHandle>) -> bool {
    forall|id: Seq<char>| #[trigger] handles.dom().contains(id) ==> handles[id].wf()
}

/// Native runtimes of type `R`, provider handles, and external terminal models of type
/// `S`. A terminal is native or external, never both.
pub struct TerminalRuntimeRegistry<R, S> {
    pub runtimes: Table<R>,
    pub external: Table<ProviderRuntimeHandle>,
    pub external_sessions: Table<S>,
}

impl<R, S> TerminalRuntimeRegistry<R, S> {
    pub open spec fn native(self, id: Seq<char>) -> bool {
        self.runtimes@.dom().contains(id)
    }

    pub open spec fn provided(self, id: Seq<char>) -> bool {
        self.external@.dom().contains(id)
    }

    pub open spec fn modelled(self, id: Seq<char>) -> bool {
        self.external_sessions@.dom().contains(id)
    }

    /// No terminal is both native and external, and the external ones are bounded.
    pub open spec fn wf(self) -> bool {
        &&& self.runtimes.wf()
        &&& self.external.wf()
        &&& self.external_sessions.wf()
        &&& forall|id: Seq<char>|
            #![trigger self.native(id)]
            self.native(id) ==> !self.provided(id) && !self.modelled(id)
        &&& self.external@.dom().len() <= MAX_EXTERNAL_TERMINALS
        &&& handles_wf(self.external@)
    }

    pub fn new() -> (r: Self)
        ensures
            r.wf(),
            r.runtimes@ == Map::<Seq<char>, R>::empty(),
            r.external@ == Map::<Seq<char>, ProviderRuntimeHandle>::empty(),
            r.external_sessions@ == Map::<Seq<char>, S>::empty(),
    {
        TerminalRuntimeRegistry {
            runtimes: Table::new(),
            external: Table::new(),
            external_sessions: Table::new(),
        }
    }

    pub fn get(&self, terminal_id: &str) -> (r: Option<&R>)
        requires
            self.wf(),
        ensures
            r is Some <==> self.native(terminal_id@),
            r matches Some(runtime) ==> *runtime == self.runtimes@[terminal_id@],
    {
        self.runtimes.get(terminal_id)
    }

    /// Register a native runtime. For an external terminal it is handed back, just as a
    /// runtime that was displaced is.
    pub fn insert(&mut self, terminal_id: String, runtime: R) -> (r: Option<R>)
        requires
            old(self).wf(),
        ensures
            final(self).wf(),
            final(self).external == old(self).external,
            final(self).external_sessions == old(self).external_sessions,
            old(self).provided(terminal_id@) || old(self).modelled(terminal_id@) ==> r == Some(
                runtime,
            ) && final(self).runtimes == old(self).runtimes,
            !old(self).provided(terminal_id@) && !old(self).modelled(terminal_id@) ==> {
                &&& final(self).runtimes@ == old(self).runtimes@.insert(terminal_id@, runtime)
                &&& r is Some <==> old(self).native(terminal_id@)
                &&& r matches Some(displaced) ==> displaced == old(self).runtimes@[terminal_id@]
            },
    {
        if self.external.contains(terminal_id.as_str()) || self.external_sessions.contains(
            terminal_id.as_str(),
        ) {
            return Some(runtime);
        }
        let ghost id = terminal_id@;
        let displaced = self.runtimes.insert(terminal_id, runtime);
        assert forall|other: Seq<char>|
            #![trigger self.native(other)]
            self.native(other) implies !self.provided(other) && !self.modelled(other) by {
            if other != id {
                assert(old(self).native(other));
            }
        }
        displaced
    }

    pub fn external(&self, terminal_id: &str) -> (r: Option<&ProviderRuntimeHandle>)
        requires
            self.wf(),
        ensures
            r is Some <==> self.provided(terminal_id@),
            r matches Some(handle) ==> *handle == self.external@[terminal_id@] && handle.wf(),
    {
        self.external.get(terminal_id)
    }

    /// Submit a command to the provider of a terminal.
    pub fn submit(
        &mut self,
        terminal_id: &str,
        command: ProviderCommand,
        limits: ContractLimits,
        contract_ok: bool,
    ) -> (r: Result<OperationTicket, SubmitError>)
        requires
            old(self).wf(),
            old(self).provided(terminal_id@),
        ensures
            final(self).wf(),
            final(self).runtimes == old(self).runtimes,
            final(self).external_sessions == old(self).external_sessions,
            final(self).provided(terminal_id@),
            final(self).external@ == old(self).external@.insert(
                terminal_id@,
                final(self).external@[terminal_id@],
            ),
            old(self).external@[terminal_id@].answers(
                command,
                limits,
                contract_ok,
                r,
                final(self).external@[terminal_id@],
            ),
    {
        match self.external.remove(terminal_id) {
            Some(removed) => {
                let mut handle = removed;
                let answer = handle.submit(command, limits, contract_ok);
                self.external.insert(terminal_id.to_owned(), handle);
                assert(self.external@ =~= old(self).external@.insert(terminal_id@, handle));
                assert(self.external@.dom() =~= old(self).external@.dom());
                assert forall|other: Seq<char>|
                    #![trigger self.native(other)]
                    self.native(other) implies !self.provided(other) && !self.modelled(other) by {
                    assert(old(self).native(other));
                }
                answer
            },
            None => Err(SubmitError::Disconnected),
        }
    }

    pub fn external_session(&self, terminal_id: &str) -> (r: Option<&S>)
        requires
            self.wf(),
        ensures
            r is Some <==> self.modelled(terminal_id@),
            r matches Some(session) ==> *session == self.external_sessions@[terminal_id@],
    {
        self.external_sessions.get(terminal_id)
    }

    pub fn attach_external_session(&mut self, terminal_id: String, session: S) -> (r: Result<
        (),
        &'static str,
    >)
        requires
            old(self).wf(),
        ensures
            final(self).wf(),
            final(self).runtimes == old(self).runtimes,
            final(self).external == old(self).external,
            r is Ok <==> !old(self).native(terminal_id@) && !old(self).modelled(terminal_id@),
            r is Ok ==> final(self).external_sessions@ == old(self).external_sessions@.insert(
                terminal_id@,
                session,
            ),
            r matches Err(message) ==> message@ == "terminal already has an external model"@
                && final(self).external_sessions == old(self).external_sessions,
    {
        if self.runtimes.contains(terminal_id.as_str()) || self.external_sessions.contains(
            terminal_id.as_str(),
        ) {
            return Err("terminal already has an external model");
        }
        let ghost id = terminal_id@;
        self.external_sessions.insert(terminal_id, session);
        assert forall|other: Seq<char>|
            #![trigger self.native(other)]
            self.native(other) implies !self.provided(other) && !self.modelled(other) by {
            assert(old(self).native(other));
            assert(!old(self).native(id));
        }
        Ok(())
    }

    /// Take out an external terminal model. Whoever gets it closes it.
    pub fn remove_external_session(&mut self, terminal_id: &str) -> (r: Option<S>)
        requires
            old(self).wf(),
        ensures
            final(self).wf(),
            final(self).runtimes == old(self).runtimes,
            final(self).external == old(self).external,
            final(self).external_sessions@ == old(self).external_sessions@.remove(terminal_id@),
            r is Some <==> old(self).modelled(terminal_id@),
            r matches Some(session) ==> session == old(self).external_sessions@[terminal_id@],
    {
        let session = self.external_sessions.remove(terminal_id);
        assert forall|other: Seq<char>|
            #![trigger self.native(other)]
            self.native(other) implies !self.provided(other) && !self.modelled(other) by {
            assert(old(self).native(other));
        }
        session
    }

    /// Why a provider handle is not attached to a terminal, if it is not.
    pub open spec fn attach_refusal(self, id: Seq<char>) -> Option<Seq<char>> {
        if self.native(id) || self.provided(id) || self.modelled(id) {
            Some("terminal already has a runtime"@)
        } else if self.external@.dom().len() >= MAX_EXTERNAL_TERMINALS {
            Some("external terminal limit reached"@)
        } else {
            None
        }
    }

    pub fn attach_external(&mut self, terminal_id: String, runtime: ProviderRuntimeHandle) -> (r: Result<
        (),
        &'static str,
    >)
        requires
            old(self).wf(),
            runtime.wf(),
        ensures
            final(self).wf(),
            final(self).runtimes == old(self).runtimes,
            final(self).external_sessions == old(self).external_sessions,
            r is Ok <==> old(self).attach_refusal(terminal_id@) is None,
            r is Ok ==> final(self).external@ == old(self).external@.insert(terminal_id@, runtime),
            r matches Err(message) ==> old(self).attach_refusal(terminal_id@) == Some(message@)
                && final(self).external == old(self).external,
    {
        if self.runtimes.contains(terminal_id.as_str()) || self.external.contains(
            terminal_id.as_str(),
        ) || self.external_sessions.contains(terminal_id.as_str()) {
            return Err("terminal already has a runtime");
        }
        if self.external.len() >= MAX_EXTERNAL_TERMINALS {
            return Err("external terminal limit reached");
        }
        let ghost id = terminal_id@;
        self.external.insert(terminal_id, runtime);
        assert forall|other: Seq<char>|
            #![trigger self.native(other)]
            self.native(other) implies !self.provided(other) && !self.modelled(other) by {
            assert(old(self).native(other));
            assert(!old(self).native(id));
        }
        Ok(())
    }

    /// Let go of an external terminal: its model is handed back to be closed, and its
    /// provider handle, detached and stopped, to retire.
    pub fn shutdown_external(&mut self, terminal_id: &str) -> (r: (
        Option<S>,
        Option<ProviderRuntimeHandle>,
    ))
        requires
            old(self).wf(),
        ensures
            final(self).wf(),
            final(self).runtimes == old(self).runtimes,
            final(self).external@ == old(self).external@.remove(terminal_id@),
            final(self).external_sessions@ == old(self).external_sessions@.remove(terminal_id@),
            r.0 is Some <==> old(self).modelled(terminal_id@),
            r.0 matches Some(session) ==> session == old(self).external_sessions@[terminal_id@],
            r.1 is Some <==> old(self).provided(terminal_id@),
            r.1 matches Some(handle) ==> handle.wf() && handle.stopped && handle.detached
                && old(self).external@[terminal_id@].retires(handle),
    {
        let session = self.remove_external_session(terminal_id);
        let ghost middle = *self;
        let removed = self.external.remove(terminal_id);
        assert forall|other: Seq<char>|
            #![trigger self.native(other)]
            self.native(other) implies !self.provided(other) && !self.modelled(other) by {
            assert(middle.native(other));
        }
        let retired = match removed {
            Some(handle) => {
                let mut handle = handle;
                assert(middle.provided(terminal_id@));
                let ghost held = handle;
                handle.detach();
                let ghost left = handle;
                handle.shutdown();
                assert(held.detaches(left) && left.shuts_down(handle));
                Some(handle)
            },
            None => None,
        };
        proof {
            middle.external.lemma_finite();
        }
        (session, retired)
    }

    pub fn remove(&mut self, terminal_id: &str) -> (r: Option<R>)
        requires
            old(self).wf(),
        ensures
            final(self).wf(),
            final(self).external == old(self).external,
            final(self).external_sessions == old(self).external_sessions,
            final(self).runtimes@ == old(self).runtimes@.remove(terminal_id@),
            r is Some <==> old(self).native(terminal_id@),
            r matches Some(runtime) ==> runtime == old(self).runtimes@[terminal_id@],
    {
        let runtime = self.runtimes.remove(terminal_id);
        assert forall|other: Seq<char>|
            #![trigger self.native(other)]
            self.native(other) implies !self.provided(other) && !self.modelled(other) by {
            assert(old(self).native(other));
        }
        runtime
    }

    /// The number of terminals that have a runtime of some kind. A model whose provider
    /// is registered too counts once.
    pub fn len(&self) -> (r: usize)
        requires
            self.wf(),
            self.runtimes.entries@.len() + self.external.entries@.len()
                + self.external_sessions.entries@.len() <= usize::MAX,
        ensures
            r == self.runtimes@.dom().len() + self.external@.dom().len()
                + self.external_sessions@.dom().difference(self.external@.dom()).len(),
    {
        let runtimes: usize = self.runtimes.len();
        let external: usize = self.external.len();
        let models: usize = self.external_sessions.count_beyond(&self.external);
        proof {
            self.runtimes.lemma_len();
            self.external.lemma_len();
        }
        runtimes + external + models
    }
}

/// A native terminal cannot become external while it lives, nor an external one native:
/// registering a runtime of the other sort is refused.
pub proof fn native_and_external_exclude_each_other<R, S>(
    registry: TerminalRuntimeRegistry<R, S>,
    id: Seq<char>,
)
    requires
        registry.wf(),
        registry.native(id),
    ensures
        !registry.provided(id),
        !registry.modelled(id),
        registry.attach_refusal(id) is Some,
{
}

/// A terminal gets one runtime: a provider is refused where there is a native runtime, a
/// provider or a model already, or where there are as many providers as there may be, and
/// nowhere else.
pub proof fn terminals_get_one_runtime<R, S>(
    registry: TerminalRuntimeRegistry<R, S>,
    id: Seq<char>,
)
    ensures
        registry.attach_refusal(id) is None <==> !registry.runtimes@.dom().contains(id)
            && !registry.external@.dom().contains(id)
            && !registry.external_sessions@.dom().contains(id) && registry.external@.dom().len()
            < 64,
        registry.runtimes@.dom().contains(id) ==> registry.attach_refusal(id) == Some(
            "terminal already has a runtime"@,
        ),
{
}

/// A terminal without a runtime is refused one only where sixty-four external terminals have
/// theirs, and that is told.
pub proof fn full_registries_say_so<R, S>(registry: TerminalRuntimeRegistry<R, S>, id: Seq<char>)
    requires
        !registry.runtimes@.dom().contains(id),
        !registry.external@.dom().contains(id),
        !registry.external_sessions@.dom().contains(id),
    ensures
        registry.external@.dom().len() >= 64 ==> registry.attach_refusal(id) == Some(
            "external terminal limit reached"@,
        ),
        registry.external@.dom().len() < 64 ==> registry.attach_refusal(id) is None,
{
}

} // verus!
