//! The command line of the execution providers: each request is formed from typed data, or not
//! at all.
use vstd::prelude::*;

use crate::api::{
    RuntimeProviderAttachParams, RuntimeProviderAttachmentTarget, RuntimeProviderTarget,
};
use crate::text::{
    byte_count, byte_len, contains_control, has_control, number_of, parse_number, same,
    starts_with, text_of, texts,
};

verus! {

pub const USAGE: &'static str = "usage: herdr runtime-provider <list|get PROVIDER|attach PROVIDER SESSION GENERATION [--workspace ID] [--label LABEL] [--focus]|attachment TERMINAL|takeover TERMINAL|detach TERMINAL>";

/// What is asked of the server.
#[derive(Debug, PartialEq, Eq)]
pub enum Method {
    RuntimeProviderList,
    RuntimeProviderGet(RuntimeProviderTarget),
    RuntimeProviderAttachmentGet(RuntimeProviderAttachmentTarget),
    RuntimeProviderDetach(RuntimeProviderAttachmentTarget),
    RuntimeProviderTakeover(RuntimeProviderAttachmentTarget),
    RuntimeProviderAttach(RuntimeProviderAttachParams),
}

#[verifier::ext_equal]
pub enum MethodView {
    List,
    Get(Seq<char>),
    AttachmentGet(Seq<char>),
    Detach(Seq<char>),
    Takeover(Seq<char>),
    Attach {
        provider: Seq<char>,
        session: Seq<char>,
        generation: u64,
        workspace: Option<Seq<char>>,
        label: Option<Seq<char>>,
        focus: bool,
    },
}

impl View for Method {
    type V = MethodView;

    open spec fn view(&self) -> MethodView {
        match self {
            Method::RuntimeProviderList => MethodView::List,
            Method::RuntimeProviderGet(target) => MethodView::Get(target.provider_id@),
            Method::RuntimeProviderAttachmentGet(target) => MethodView::AttachmentGet(
                target.terminal_id@,
            ),
            Method::RuntimeProviderDetach(target) => MethodView::Detach(target.terminal_id@),
            Method::RuntimeProviderTakeover(target) => MethodView::Takeover(target.terminal_id@),
            Method::RuntimeProviderAttach(params) => MethodView::Attach {
                provider: params.provider_id@,
                session: params.session_id@,
                generation: params.generation,
                workspace: text_of(params.workspace_id),
                label: text_of(params.label),
                focus: params.focus,
            },
        }
    }
}

/// A text can be an id.
pub open spec fn is_id(text: Seq<char>) -> bool {
    text.len() > 0 && byte_len(text) <= 128 && !has_control(text)
}

/// A text can be a label.
pub open spec fn is_label(text: Seq<char>) -> bool {
    !"--"@.is_prefix_of(text) && byte_len(text) <= 256 && !has_control(text)
}

/// A text can be the id of a workspace.
pub open spec fn is_workspace(text: Seq<char>) -> bool {
    is_id(text) && !"--"@.is_prefix_of(text)
}

/// What the options of an attachment say.
#[verifier::ext_equal]
pub struct AttachOptions {
    pub workspace: Option<Seq<char>>,
    pub label: Option<Seq<char>>,
    pub focus: bool,
}

/// What the arguments from the `i`-th on add to what was said before them. No option is given
/// twice, and none takes another option for its value.
pub open spec fn attach_options(args: Seq<Seq<char>>, i: int, said: AttachOptions) -> Option<
    AttachOptions,
>
    decreases args.len() - i,
{
    if i >= args.len() {
        Some(said)
    } else if args[i] == "--focus"@ && !said.focus {
        attach_options(args, i + 1, AttachOptions { focus: true, ..said })
    } else if args[i] == "--workspace"@ && said.workspace is None {
        if i + 1 < args.len() && is_workspace(args[i + 1]) {
            attach_options(args, i + 2, AttachOptions { workspace: Some(args[i + 1]), ..said })
        } else {
            None
        }
    } else if args[i] == "--label"@ && said.label is None {
        if i + 1 < args.len() && is_label(args[i + 1]) {
            attach_options(args, i + 2, AttachOptions { label: Some(args[i + 1]), ..said })
        } else {
            None
        }
    } else {
        None
    }
}

/// The generation that a text stands for, where it can be one.
pub open spec fn generation_of(text: Seq<char>) -> Option<u64> {
    match number_of(text) {
        Some(n) => if 0 < n <= i64::MAX {
            Some(n as u64)
        } else {
            None
        },
        None => None,
    }
}

/// The request that arguments form, if they form one. `session_ok` says whether the third of
/// them can be the id of a session.
pub open spec fn request_of(args: Seq<Seq<char>>, session_ok: bool) -> Option<MethodView> {
    if args.len() == 1 && args[0] == "list"@ {
        Some(MethodView::List)
    } else if args.len() == 2 && args[0] == "get"@ && is_id(args[1]) {
        Some(MethodView::Get(args[1]))
    } else if args.len() == 2 && args[0] == "attachment"@ && is_id(args[1]) {
        Some(MethodView::AttachmentGet(args[1]))
    } else if args.len() == 2 && args[0] == "detach"@ && is_id(args[1]) {
        Some(MethodView::Detach(args[1]))
    } else if args.len() == 2 && args[0] == "takeover"@ && is_id(args[1]) {
        Some(MethodView::Takeover(args[1]))
    } else if args.len() >= 4 && args[0] == "attach"@ && is_id(args[1]) && session_ok {
        let none = AttachOptions { workspace: None, label: None, focus: false };
        match (generation_of(args[3]), attach_options(args, 4, none)) {
            (Some(generation), Some(said)) => Some(
                MethodView::Attach {
                    provider: args[1],
                    session: args[2],
                    generation,
                    workspace: said.workspace,
                    label: said.label,
                    focus: said.focus,
                },
            ),
            _ => None,
        }
    } else {
        None
    }
}

fn valid_id(value: &str) -> (r: bool)
    ensures
        r == is_id(value@),
{
    value.unicode_len() > 0 && byte_count(value) <= 128 && !contains_control(value)
}

fn parse_attach(args: &Vec<String>) -> (r: Option<Method>)
    requires
        args@.len() >= 4,
        texts(args@)[0] == "attach"@,
        is_id(texts(args@)[1]),
    ensures
        match request_of(texts(args@), true) {
            Some(request) => r matches Some(method) && method@ == request,
            None => r is None,
        },
{
    let ghost all = texts(args@);
    proof {
        reveal_strlit("list");
        reveal_strlit("get");
        reveal_strlit("attachment");
        reveal_strlit("detach");
        reveal_strlit("takeover");
        reveal_strlit("attach");
    }
    let generation: u64 = match parse_number(args[3].as_str()) {
        Some(value) => {
            if value == 0 || value > 0x7fff_ffff_ffff_ffff {
                return None;
            }
            value
        },
        None => {
            return None;
        },
    };
    let ghost none = AttachOptions { workspace: None, label: None, focus: false };
    let mut workspace: Option<String> = None;
    let mut label: Option<String> = None;
    let mut focus: bool = false;
    let mut i: usize = 4;
    while i < args.len()
        invariant
            4 <= i <= args@.len(),
            all == texts(args@),
            none == (AttachOptions { workspace: None, label: None, focus: false }),
            request_of(all, true) is Some ==> attach_options(all, 4, none) is Some,
            attach_options(all, 4, none) == attach_options(
                all,
                i as int,
                AttachOptions { workspace: text_of(workspace), label: text_of(label), focus },
            ),
        decreases args@.len() - i,
    {
        let flag = args[i].as_str();
        assert(flag@ == all[i as int]);
        if same(flag, "--focus") && !focus {
            focus = true;
            i = i + 1;
        } else if same(flag, "--workspace") && workspace.is_none() {
            if i + 1 >= args.len() {
                return None;
            }
            let value = args[i + 1].as_str();
            assert(value@ == all[i + 1]);
            if !valid_id(value) || starts_with(value, "--") {
                return None;
            }
            workspace = Some(value.to_owned());
            i = i + 2;
        } else if same(flag, "--label") && label.is_none() {
            if i + 1 >= args.len() {
                return None;
            }
            let value = args[i + 1].as_str();
            assert(value@ == all[i + 1]);
            if starts_with(value, "--") || byte_count(value) > 256 || contains_control(value) {
                return None;
            }
            label = Some(value.to_owned());
            i = i + 2;
        } else {
            return None;
        }
    }
    Some(
        Method::RuntimeProviderAttach(
            RuntimeProviderAttachParams {
                provider_id: args[1].clone(),
                session_id: args[2].clone(),
                generation,
                workspace_id: workspace,
                focus,
                label,
            },
        ),
    )
}

/// The request that arguments form, if they form one. `session_ok` says whether the third of
/// them can be the id of a session.
pub fn parse(args: &Vec<String>, session_ok: bool) -> (r: Option<Method>)
    ensures
        match request_of(texts(args@), session_ok) {
            Some(request) => r matches Some(method) && method@ == request,
            None => r is None,
        },
{
    let ghost all = texts(args@);
    if args.len() == 0 {
        return None;
    }
    let command = args[0].as_str();
    assert(command@ == all[0]);
    if args.len() == 1 {
        if same(command, "list") {
            return Some(Method::RuntimeProviderList);
        }
        return None;
    }
    let id = args[1].as_str();
    assert(id@ == all[1]);
    if args.len() == 2 {
        if !valid_id(id) {
            return None;
        }
        if same(command, "get") {
            return Some(
                Method::RuntimeProviderGet(RuntimeProviderTarget { provider_id: args[1].clone() }),
            );
        }
        if same(command, "attachment") {
            return Some(
                Method::RuntimeProviderAttachmentGet(
                    RuntimeProviderAttachmentTarget { terminal_id: args[1].clone() },
                ),
            );
        }
        if same(command, "detach") {
            return Some(
                Method::RuntimeProviderDetach(
                    RuntimeProviderAttachmentTarget { terminal_id: args[1].clone() },
                ),
            );
        }
        if same(command, "takeover") {
            return Some(
                Method::RuntimeProviderTakeover(
                    RuntimeProviderAttachmentTarget { terminal_id: args[1].clone() },
                ),
            );
        }
        return None;
    }
    if args.len() < 4 || !same(command, "attach") || !valid_id(id) || !session_ok {
        return None;
    }
    parse_attach(args)
}

/// What arguments ask for.
#[derive(Debug, PartialEq, Eq)]
pub enum Invocation {
    /// The usage is asked for.
    Help,
    /// The arguments ask for nothing.
    Usage,
    Request(Method),
}

pub open spec fn asks_for_help(args: Seq<Seq<char>>) -> bool {
    args.len() == 1 && (args[0] == "help"@ || args[0] == "--help"@ || args[0] == "-h"@)
}

/// What arguments ask for.
pub fn run(args: &Vec<String>, session_ok: bool) -> (r: Invocation)
    ensures
        if asks_for_help(texts(args@)) {
            r == Invocation::Help
        } else {
            match request_of(texts(args@), session_ok) {
                Some(request) => r matches Invocation::Request(method) && method@ == request,
                None => r == Invocation::Usage,
            }
        },
{
    if args.len() == 1 {
        let command = args[0].as_str();
        assert(command@ == texts(args@)[0]);
        if same(command, "help") || same(command, "--help") || same(command, "-h") {
            return Invocation::Help;
        }
    }
    match parse(args, session_ok) {
        Some(method) => Invocation::Request(method),
        None => Invocation::Usage,
    }
}

/// An argument from the `i`-th on is a value, or an option that was not said before.
proof fn lemma_options_once(args: Seq<Seq<char>>, i: int, said: AttachOptions)
    requires
        0 <= i,
        attach_options(args, i, said) is Some,
    ensures
        said.focus ==> forall|k: int| i <= k < args.len() ==> #[trigger] args[k] != "--focus"@,
        said.workspace is Some ==> forall|k: int|
            i <= k < args.len() ==> #[trigger] args[k] != "--workspace"@,
        said.label is Some ==> forall|k: int|
            i <= k < args.len() ==> #[trigger] args[k] != "--label"@,
        forall|j: int, k: int|
            #![trigger args[j], args[k]]
            i <= j < k < args.len() && "--"@.is_prefix_of(args[j]) ==> args[j] != args[k],
    decreases args.len() - i,
{
    reveal_strlit("--");
    reveal_strlit("--focus");
    reveal_strlit("--workspace");
    reveal_strlit("--label");
    assert("--"@.is_prefix_of("--focus"@));
    assert("--"@.is_prefix_of("--workspace"@));
    assert("--"@.is_prefix_of("--label"@));
    assert("--focus"@[2] != "--label"@[2]);
    if i < args.len() {
        if args[i] == "--focus"@ && !said.focus {
            lemma_options_once(args, i + 1, AttachOptions { focus: true, ..said });
        } else if args[i] == "--workspace"@ && said.workspace is None {
            lemma_options_once(
                args,
                i + 2,
                AttachOptions { workspace: Some(args[i + 1]), ..said },
            );
        } else {
            lemma_options_once(args, i + 2, AttachOptions { label: Some(args[i + 1]), ..said });
        }
    }
}

/// Arguments in which an option of an attachment occurs twice never form a request.
pub proof fn repeated_options_form_no_request(
    args: Seq<Seq<char>>,
    session_ok: bool,
    j: int,
    k: int,
)
    requires
        4 <= j < k < args.len(),
        args[j] == args[k],
        "--"@.is_prefix_of(args[j]),
    ensures
        request_of(args, session_ok) is None,
{
    let none = AttachOptions { workspace: None, label: None, focus: false };
    if attach_options(args, 4, none) is Some {
        lemma_options_once(args, 4, none);
    }
}

/// A request to attach names a provider, and a generation that is not zero and fits in 63 bits.
pub proof fn attachments_name_a_generation(args: Seq<Seq<char>>, session_ok: bool)
    ensures
        request_of(args, session_ok) matches Some(
            MethodView::Attach { provider, session, generation, .. },
        ) ==> session_ok && is_id(provider) && provider == args[1] && session == args[2] && 0
            < generation <= i64::MAX,
{
}

/// A request is asked for by its word, with what it is about after it.
pub proof fn requests_go_by_their_word(id: Seq<char>, session_ok: bool)
    requires
        id.len() > 0,
        byte_len(id) <= 128,
        !has_control(id),
    ensures
        request_of(seq!["list"@], session_ok) == Some(MethodView::List),
        request_of(seq!["get"@, id], session_ok) == Some(MethodView::Get(id)),
        request_of(seq!["attachment"@, id], session_ok) == Some(MethodView::AttachmentGet(id)),
        request_of(seq!["detach"@, id], session_ok) == Some(MethodView::Detach(id)),
        request_of(seq!["takeover"@, id], session_ok) == Some(MethodView::Takeover(id)),
        request_of(seq!["list"@, id], session_ok) is None,
        request_of(seq!["get"@], session_ok) is None,
        request_of(seq!["attach"@, id], session_ok) is None,
{
    reveal_strlit("list");
    reveal_strlit("get");
    reveal_strlit("attachment");
    reveal_strlit("detach");
    reveal_strlit("takeover");
    reveal_strlit("attach");
    assert("list"@.len() == 4 && "get"@.len() == 3 && "attachment"@.len() == 10 && "detach"@.len()
        == 6 && "takeover"@.len() == 8 && "attach"@.len() == 6);
    assert("detach"@[0] == 'd' && "attach"@[0] == 'a');
}

/// What a request is about has a plain name: one that is empty, too long or holds a control
/// character is refused.
pub proof fn requests_are_about_plain_names(word: Seq<char>, id: Seq<char>, session_ok: bool)
    requires
        id.len() == 0 || byte_len(id) > 128 || has_control(id),
    ensures
        request_of(seq![word, id], session_ok) is None,
{
}

/// A request to attach carries what was said, whatever the order: the provider, the session,
/// the generation, and the workspace, the label and the focus where they were said.
pub proof fn attachments_are_as_asked(
    provider: Seq<char>,
    session: Seq<char>,
    generation: Seq<char>,
    workspace: Seq<char>,
    label: Seq<char>,
    n: u64,
)
    requires
        is_id(provider),
        generation_of(generation) == Some(n),
        is_workspace(workspace),
        is_label(label),
    ensures
        request_of(seq!["attach"@, provider, session, generation], true) == Some(
            MethodView::Attach {
                provider,
                session,
                generation: n,
                workspace: None,
                label: None,
                focus: false,
            },
        ),
        request_of(seq!["attach"@, provider, session, generation], false) is None,
        request_of(seq!["attach"@, provider, session, generation, "--focus"@], true) == Some(
            MethodView::Attach {
                provider,
                session,
                generation: n,
                workspace: None,
                label: None,
                focus: true,
            },
        ),
        request_of(
            seq!["attach"@, provider, session, generation, "--workspace"@, workspace],
            true,
        ) == Some(
            MethodView::Attach {
                provider,
                session,
                generation: n,
                workspace: Some(workspace),
                label: None,
                focus: false,
            },
        ),
        request_of(seq!["attach"@, provider, session, generation, "--label"@, label], true) == Some(
            MethodView::Attach {
                provider,
                session,
                generation: n,
                workspace: None,
                label: Some(label),
                focus: false,
            },
        ),
        request_of(seq!["attach"@, provider, session, generation, "--label"@], true) is None,
        request_of(seq!["attach"@, provider, session, generation, "--workspace"@], true) is None,
{
    reveal_strlit("list");
    reveal_strlit("get");
    reveal_strlit("attachment");
    reveal_strlit("detach");
    reveal_strlit("takeover");
    reveal_strlit("attach");
    assert("list"@.len() == 4 && "attach"@.len() == 6);
    reveal_strlit("--focus");
    reveal_strlit("--workspace");
    reveal_strlit("--label");
    assert("--focus"@.len() == 7 && "--workspace"@.len() == 11 && "--label"@.len() == 7);
    assert("--focus"@[2] == 'f' && "--label"@[2] == 'l');
    let none = AttachOptions { workspace: None, label: None, focus: false };
    let plain = seq!["attach"@, provider, session, generation];
    let focused = plain.push("--focus"@);
    let placed = plain.push("--workspace"@).push(workspace);
    let labelled = plain.push("--label"@).push(label);
    assert(seq!["attach"@, provider, session, generation, "--focus"@] =~= focused);
    assert(seq!["attach"@, provider, session, generation, "--workspace"@, workspace] =~= placed);
    assert(seq!["attach"@, provider, session, generation, "--label"@, label] =~= labelled);
    assert(attach_options(plain, 4, none) == Some(none));
    let focus = AttachOptions { focus: true, ..none };
    assert(attach_options(focused, 5, focus) == Some(focus));
    assert(attach_options(focused, 4, none) == Some(focus));
    let place = AttachOptions { workspace: Some(workspace), ..none };
    assert(attach_options(placed, 6, place) == Some(place));
    assert(attach_options(placed, 4, none) == Some(place));
    let named = AttachOptions { label: Some(label), ..none };
    assert(attach_options(labelled, 6, named) == Some(named));
    assert(attach_options(labelled, 4, none) == Some(named));
}

/// A generation is a number, not zero, that fits in 63 bits; a label may be empty and a
/// workspace may not, and neither begins like an option.
pub proof fn values_are_plain(text: Seq<char>)
    ensures
        generation_of(text) matches Some(n) ==> number_of(text) == Some(n as nat) && 0 < n
            <= 0x7fff_ffff_ffff_ffff,
        (number_of(text) matches Some(n) && 0 < n && n <= 0x7fff_ffff_ffff_ffff) ==> generation_of(
            text,
        ) is Some,
        is_workspace(text) ==> text.len() > 0 && byte_len(text) <= 128 && !has_control(text)
            && !"--"@.is_prefix_of(text),
        is_label(text) <==> byte_len(text) <= 256 && !has_control(text) && !"--"@.is_prefix_of(text),
        text.len() > 0 && byte_len(text) <= 128 && !has_control(text) && !"--"@.is_prefix_of(text)
            ==> is_workspace(text),
{
}

/// Help is asked for in the usual ways, and by nothing else.
pub proof fn help_is_asked_for_by_its_word(args: Seq<Seq<char>>)
    ensures
        asks_for_help(seq!["help"@]) && asks_for_help(seq!["--help"@]) && asks_for_help(
            seq!["-h"@],
        ),
        asks_for_help(args) ==> args.len() == 1 && (args[0] == "help"@ || args[0] == "--help"@
            || args[0] == "-h"@),
{
}

} // verus!
