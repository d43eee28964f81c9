//! The command line of worktrees.
use vstd::prelude::*;

use crate::json::{
    json_equal, json_items, json_pointer, number_at, read_number, read_text, same_value, text_at,
};
use crate::text::{same, text_of, texts};

verus! {

/// What is asked of worktrees.
#[derive(Clone, Copy, Debug, PartialEq, Eq, Structural)]
pub enum WorktreeCommand {
    Cleanup,
    List,
    Create,
    Open,
    Remove,
    Help,
    /// Nothing that is known.
    Unknown,
}

pub open spec fn command_of(args: Seq<Seq<char>>) -> WorktreeCommand {
    if args.len() == 0 {
        WorktreeCommand::Unknown
    } else if args[0] == "cleanup"@ {
        WorktreeCommand::Cleanup
    } else if args[0] == "list"@ {
        WorktreeCommand::List
    } else if args[0] == "create"@ {
        WorktreeCommand::Create
    } else if args[0] == "open"@ {
        WorktreeCommand::Open
    } else if args[0] == "remove"@ {
        WorktreeCommand::Remove
    } else if args[0] == "help"@ || args[0] == "--help"@ || args[0] == "-h"@ {
        WorktreeCommand::Help
    } else {
        WorktreeCommand::Unknown
    }
}

/// The command that arguments begin with. Whoever asks for help gets it with success.
pub fn run_worktree_command(args: &Vec<String>) -> (r: WorktreeCommand)
    ensures
        r == command_of(texts(args@)),
{
    if args.len() == 0 {
        return WorktreeCommand::Unknown;
    }
    let name = args[0].as_str();
    assert(name@ == texts(args@)[0]);
    if same(name, "cleanup") {
        WorktreeCommand::Cleanup
    } else if same(name, "list") {
        WorktreeCommand::List
    } else if same(name, "create") {
        WorktreeCommand::Create
    } else if same(name, "open") {
        WorktreeCommand::Open
    } else if same(name, "remove") {
        WorktreeCommand::Remove
    } else if same(name, "help") || same(name, "--help") || same(name, "-h") {
        WorktreeCommand::Help
    } else {
        WorktreeCommand::Unknown
    }
}

/// Why arguments form no request.
#[derive(Debug, PartialEq, Eq)]
pub enum Refusal {
    /// The last argument is an option that wants a value.
    MissingValue(&'static str),
    Unknown(String),
    Usage(&'static str),
    /// The argument cannot be made an absolute path here.
    Path(usize),
}

#[verifier::ext_equal]
pub enum RefusalView {
    MissingValue(Seq<char>),
    Unknown(Seq<char>),
    Usage(Seq<char>),
    Path(int),
}

impl View for Refusal {
    type V = RefusalView;

    open spec fn view(&self) -> RefusalView {
        match self {
            Refusal::MissingValue(option) => RefusalView::MissingValue(option@),
            Refusal::Unknown(option) => RefusalView::Unknown(option@),
            Refusal::Usage(usage) => RefusalView::Usage(usage@),
            Refusal::Path(i) => RefusalView::Path(*i as int),
        }
    }
}

impl RefusalView {
    /// What the user is told.
    pub open spec fn told(self) -> Seq<char> {
        match self {
            RefusalView::MissingValue(option) => "missing value for "@ + option,
            RefusalView::Unknown(option) => "unknown option: "@ + option,
            RefusalView::Usage(usage) => usage,
            RefusalView::Path(_) => "cannot resolve the path"@,
        }
    }
}

impl Refusal {
    /// What the user is told.
    pub fn message(&self) -> (r: String)
        ensures
            r@ == self@.told(),
    {
        match self {
            Refusal::MissingValue(option) => "missing value for ".to_owned().concat(option),
            Refusal::Unknown(option) => "unknown option: ".to_owned().concat(option.as_str()),
            Refusal::Usage(usage) => (*usage).to_owned(),
            Refusal::Path(_) => "cannot resolve the path".to_owned(),
        }
    }
}

pub const LIST_USAGE: &'static str = "usage: herdr worktree list [--workspace ID | --cwd PATH] [--trust-repository]";

pub const CREATE_USAGE: &'static str = "usage: herdr worktree create [--workspace ID | --cwd PATH] [--branch NAME] [--base REF] [--path PATH] [--label TEXT] [--focus] [--no-focus] [--trust-repository]";

pub const OPEN_USAGE: &'static str = "usage: herdr worktree open [--workspace ID | --cwd PATH] (--path PATH | --branch NAME) [--label TEXT] [--focus] [--no-focus] [--trust-repository]";

pub const REMOVE_USAGE: &'static str = "usage: herdr worktree remove --workspace ID [--force] [--trust-repository]";

pub const CLEANUP_USAGE: &'static str = "usage: herdr worktree cleanup inspect | register PATH | preview [PATH] | run [PATH] | configure POLICY.json [PATH]";

/// The options of the commands.
#[derive(Clone, Copy, Debug, PartialEq, Eq, Structural)]
pub enum WorktreeOption {
    Workspace,
    Cwd,
    Branch,
    Base,
    Path,
    Label,
    Focus,
    NoFocus,
    TrustRepository,
    Force,
    Json,
}

/// The option that a text is, where a command has it.
pub open spec fn option_of(text: Seq<char>, command: WorktreeCommand) -> Option<WorktreeOption> {
    let creates = command == WorktreeCommand::Create;
    let places = creates || command == WorktreeCommand::Open;
    let removes = command == WorktreeCommand::Remove;
    if text == "--workspace"@ {
        Some(WorktreeOption::Workspace)
    } else if text == "--cwd"@ && !removes {
        Some(WorktreeOption::Cwd)
    } else if text == "--branch"@ && places {
        Some(WorktreeOption::Branch)
    } else if text == "--base"@ && creates {
        Some(WorktreeOption::Base)
    } else if text == "--path"@ && places {
        Some(WorktreeOption::Path)
    } else if text == "--label"@ && places {
        Some(WorktreeOption::Label)
    } else if text == "--focus"@ && places {
        Some(WorktreeOption::Focus)
    } else if text == "--no-focus"@ && places {
        Some(WorktreeOption::NoFocus)
    } else if text == "--trust-repository"@ {
        Some(WorktreeOption::TrustRepository)
    } else if text == "--force"@ && removes {
        Some(WorktreeOption::Force)
    } else if text == "--json"@ {
        Some(WorktreeOption::Json)
    } else {
        None
    }
}

fn find_option(text: &str, command: WorktreeCommand) -> (r: Option<WorktreeOption>)
    ensures
        r == option_of(text@, command),
{
    let creates: bool = command == WorktreeCommand::Create;
    let places: bool = creates || command == WorktreeCommand::Open;
    let removes: bool = command == WorktreeCommand::Remove;
    if same(text, "--workspace") {
        Some(WorktreeOption::Workspace)
    } else if same(text, "--cwd") && !removes {
        Some(WorktreeOption::Cwd)
    } else if same(text, "--branch") && places {
        Some(WorktreeOption::Branch)
    } else if same(text, "--base") && creates {
        Some(WorktreeOption::Base)
    } else if same(text, "--path") && places {
        Some(WorktreeOption::Path)
    } else if same(text, "--label") && places {
        Some(WorktreeOption::Label)
    } else if same(text, "--focus") && places {
        Some(WorktreeOption::Focus)
    } else if same(text, "--no-focus") && places {
        Some(WorktreeOption::NoFocus)
    } else if same(text, "--trust-repository") {
        Some(WorktreeOption::TrustRepository)
    } else if same(text, "--force") && removes {
        Some(WorktreeOption::Force)
    } else if same(text, "--json") {
        Some(WorktreeOption::Json)
    } else {
        None
    }
}

/// An option wants a value, and this is its name.
pub open spec fn valued(option: WorktreeOption) -> Option<Seq<char>> {
    match option {
        WorktreeOption::Workspace => Some("--workspace"@),
        WorktreeOption::Cwd => Some("--cwd"@),
        WorktreeOption::Branch => Some("--branch"@),
        WorktreeOption::Base => Some("--base"@),
        WorktreeOption::Path => Some("--path"@),
        WorktreeOption::Label => Some("--label"@),
        _ => None,
    }
}

fn value_name(option: WorktreeOption) -> (r: Option<&'static str>)
    ensures
        r is Some <==> valued(option) is Some,
        r matches Some(name) ==> valued(option) == Some(name@),
{
    match option {
        WorktreeOption::Workspace => Some("--workspace"),
        WorktreeOption::Cwd => Some("--cwd"),
        WorktreeOption::Branch => Some("--branch"),
        WorktreeOption::Base => Some("--base"),
        WorktreeOption::Path => Some("--path"),
        WorktreeOption::Label => Some("--label"),
        _ => None,
    }
}

/// What options say.
#[derive(Debug, PartialEq, Eq)]
pub struct Options {
    pub workspace_id: Option<String>,
    pub cwd: Option<String>,
    pub branch: Option<String>,
    pub base: Option<String>,
    pub path: Option<String>,
    pub label: Option<String>,
    pub focus: bool,
    pub trust_repository: bool,
    pub force: bool,
}

#[verifier::ext_equal]
pub struct OptionsView {
    pub workspace_id: Option<Seq<char>>,
    pub cwd: Option<Seq<char>>,
    pub branch: Option<Seq<char>>,
    pub base: Option<Seq<char>>,
    pub path: Option<Seq<char>>,
    pub label: Option<Seq<char>>,
    pub focus: bool,
    pub trust_repository: bool,
    pub force: bool,
}

impl View for Options {
    type V = OptionsView;

    open spec fn view(&self) -> OptionsView {
        OptionsView {
            workspace_id: text_of(self.workspace_id),
            cwd: text_of(self.cwd),
            branch: text_of(self.branch),
            base: text_of(self.base),
            path: text_of(self.path),
            label: text_of(self.label),
            focus: self.focus,
            trust_repository: self.trust_repository,
            force: self.force,
        }
    }
}

/// Nothing is said.
pub open spec fn unsaid() -> OptionsView {
    OptionsView {
        workspace_id: None,
        cwd: None,
        branch: None,
        base: None,
        path: None,
        label: None,
        focus: false,
        trust_repository: false,
        force: false,
    }
}

/// What was said, with one more option and its value.
pub open spec fn with_option(
    said: OptionsView,
    option: WorktreeOption,
    value: Seq<char>,
) -> OptionsView {
    match option {
        WorktreeOption::Workspace => OptionsView { workspace_id: Some(value), ..said },
        WorktreeOption::Cwd => OptionsView { cwd: Some(value), ..said },
        WorktreeOption::Branch => OptionsView { branch: Some(value), ..said },
        WorktreeOption::Base => OptionsView { base: Some(value), ..said },
        WorktreeOption::Path => OptionsView { path: Some(value), ..said },
        WorktreeOption::Label => OptionsView { label: Some(value), ..said },
        WorktreeOption::Focus => OptionsView { focus: true, ..said },
        WorktreeOption::NoFocus => OptionsView { focus: false, ..said },
        WorktreeOption::TrustRepository => OptionsView { trust_repository: true, ..said },
        WorktreeOption::Force => OptionsView { force: true, ..said },
        WorktreeOption::Json => said,
    }
}

pub open spec fn is_path_option(option: WorktreeOption) -> bool {
    option == WorktreeOption::Cwd || option == WorktreeOption::Path
}

/// What one argument is where an option makes something else of it than its text: as an
/// absolute path, where that can be told, and as the id of a workspace in its normal form.
pub struct Reading {
    pub path: Option<String>,
    pub workspace_id: String,
}

#[verifier::ext_equal]
pub struct ReadingView {
    pub path: Option<Seq<char>>,
    pub workspace_id: Seq<char>,
}

impl View for Reading {
    type V = ReadingView;

    open spec fn view(&self) -> ReadingView {
        ReadingView { path: text_of(self.path), workspace_id: self.workspace_id@ }
    }
}

/// The value of an option that takes no path: the id of a workspace is taken in its normal
/// form, and everything else as it is written.
pub open spec fn plain_value(
    args: Seq<Seq<char>>,
    readings: Seq<ReadingView>,
    at: int,
    option: WorktreeOption,
) -> Seq<char> {
    if option == WorktreeOption::Workspace {
        readings[at].workspace_id
    } else {
        args[at]
    }
}

/// What the arguments from the `i`-th on add to what was said: of an option that is given more
/// than once the last one counts. `readings` holds what each argument is as a path and as the
/// id of a workspace.
pub open spec fn options_of(
    args: Seq<Seq<char>>,
    readings: Seq<ReadingView>,
    command: WorktreeCommand,
    i: int,
    said: OptionsView,
) -> Result<OptionsView, RefusalView>
    decreases args.len() - i,
{
    if i >= args.len() {
        Ok(said)
    } else {
        match option_of(args[i], command) {
            None => Err(RefusalView::Unknown(args[i])),
            Some(option) => match valued(option) {
                None => options_of(
                    args,
                    readings,
                    command,
                    i + 1,
                    with_option(said, option, Seq::empty()),
                ),
                Some(name) => if i + 1 >= args.len() {
                    Err(RefusalView::MissingValue(name))
                } else if !is_path_option(option) {
                    options_of(
                        args,
                        readings,
                        command,
                        i + 2,
                        with_option(said, option, plain_value(args, readings, i + 1, option)),
                    )
                } else {
                    match readings[i + 1].path {
                        Some(path) => options_of(
                            args,
                            readings,
                            command,
                            i + 2,
                            with_option(said, option, path),
                        ),
                        None => Err(RefusalView::Path(i + 1)),
                    }
                },
            },
        }
    }
}

pub open spec fn reading_views(readings: Seq<Reading>) -> Seq<ReadingView> {
    Seq::new(readings.len(), |i: int| readings[i]@)
}

fn add_option(said: &mut Options, option: WorktreeOption, value: String)
    ensures
        final(said)@ == with_option(old(said)@, option, value@),
{
    match option {
        WorktreeOption::Workspace => {
            said.workspace_id = Some(value);
        },
        WorktreeOption::Cwd => {
            said.cwd = Some(value);
        },
        WorktreeOption::Branch => {
            said.branch = Some(value);
        },
        WorktreeOption::Base => {
            said.base = Some(value);
        },
        WorktreeOption::Path => {
            said.path = Some(value);
        },
        WorktreeOption::Label => {
            said.label = Some(value);
        },
        WorktreeOption::Focus => {
            said.focus = true;
        },
        WorktreeOption::NoFocus => {
            said.focus = false;
        },
        WorktreeOption::TrustRepository => {
            said.trust_repository = true;
        },
        WorktreeOption::Force => {
            said.force = true;
        },
        WorktreeOption::Json => {},
    }
}

fn read_options(
    args: &Vec<String>,
    readings: &Vec<Reading>,
    command: WorktreeCommand,
) -> (r: Result<Options, Refusal>)
    requires
        readings@.len() == args@.len(),
    ensures
        match options_of(texts(args@), reading_views(readings@), command, 0, unsaid()) {
            Ok(said) => r matches Ok(options) && options@ == said,
            Err(refusal) => r matches Err(error) && error@ == refusal,
        },
{
    let ghost all = texts(args@);
    let ghost read = reading_views(readings@);
    let mut said = Options {
        workspace_id: None,
        cwd: None,
        branch: None,
        base: None,
        path: None,
        label: None,
        focus: false,
        trust_repository: false,
        force: false,
    };
    let mut i: usize = 0;
    while i < args.len()
        invariant
            i <= args@.len() == readings@.len(),
            args.len() == args@.len(),
            all == texts(args@),
            read == reading_views(readings@),
            options_of(all, read, command, 0, unsaid()) == options_of(
                all,
                read,
                command,
                i as int,
                said@,
            ),
        decreases args@.len() - i,
    {
        let text = args[i].as_str();
        assert(text@ == all[i as int]);
        let option = match find_option(text, command) {
            Some(option) => option,
            None => {
                return Err(Refusal::Unknown(args[i].clone()));
            },
        };
        match value_name(option) {
            None => {
                let none: String = String::new();
                assert(none@ =~= Seq::<char>::empty());
                add_option(&mut said, option, none);
                i = i + 1;
            },
            Some(name) => {
                if args.len() - i < 2 {
                    return Err(Refusal::MissingValue(name));
                }
                assert(readings@[i + 1]@ == read[i + 1]);
                if option == WorktreeOption::Cwd || option == WorktreeOption::Path {
                    match &readings[i + 1].path {
                        Some(path) => {
                            add_option(&mut said, option, path.clone());
                        },
                        None => {
                            return Err(Refusal::Path(i + 1));
                        },
                    }
                } else if option == WorktreeOption::Workspace {
                    add_option(&mut said, option, readings[i + 1].workspace_id.clone());
                } else {
                    assert(args@[i + 1]@ == all[i + 1]);
                    add_option(&mut said, option, args[i + 1].clone());
                }
                i = i + 2;
            },
        }
    }
    Ok(said)
}

/// What the options of a command must say together.
pub open spec fn usage_error(said: OptionsView, command: WorktreeCommand) -> Option<Seq<char>> {
    let both = said.workspace_id is Some && said.cwd is Some;
    match command {
        WorktreeCommand::List => if both {
            Some(LIST_USAGE@)
        } else {
            None
        },
        WorktreeCommand::Create => if both {
            Some(CREATE_USAGE@)
        } else {
            None
        },
        WorktreeCommand::Open => if both || (said.path is Some) == (said.branch is Some) {
            Some(OPEN_USAGE@)
        } else {
            None
        },
        WorktreeCommand::Remove => if said.workspace_id is None {
            Some(REMOVE_USAGE@)
        } else {
            None
        },
        _ => None,
    }
}

/// What the options of a command say, where they form a request.
pub open spec fn request_of(
    args: Seq<Seq<char>>,
    readings: Seq<ReadingView>,
    command: WorktreeCommand,
) -> Result<OptionsView, RefusalView> {
    match options_of(args, readings, command, 0, unsaid()) {
        Ok(said) => match usage_error(said, command) {
            Some(usage) => Err(RefusalView::Usage(usage)),
            None => Ok(said),
        },
        Err(refusal) => Err(refusal),
    }
}

#[derive(Debug, PartialEq, Eq)]
pub struct WorktreeListParams {
    pub workspace_id: Option<String>,
    pub cwd: Option<String>,
    pub trust_repository: bool,
}

#[derive(Debug, PartialEq, Eq)]
pub struct WorktreeCreateParams {
    pub workspace_id: Option<String>,
    pub cwd: Option<String>,
    pub branch: Option<String>,
    pub base: Option<String>,
    pub path: Option<String>,
    pub label: Option<String>,
    pub focus: bool,
    pub trust_repository: bool,
}

#[derive(Debug, PartialEq, Eq)]
pub struct WorktreeOpenParams {
    pub workspace_id: Option<String>,
    pub cwd: Option<String>,
    pub path: Option<String>,
    pub branch: Option<String>,
    pub label: Option<String>,
    pub focus: bool,
    pub trust_repository: bool,
}

#[derive(Debug, PartialEq, Eq)]
pub struct WorktreeRemoveParams {
    pub workspace_id: String,
    pub force: bool,
    pub trust_repository: bool,
}

/// The list of worktrees that arguments ask for.
pub fn worktree_list(args: &Vec<String>, readings: &Vec<Reading>) -> (r: Result<
    WorktreeListParams,
    Refusal,
>)
    requires
        readings@.len() == args@.len(),
    ensures
        match request_of(texts(args@), reading_views(readings@), WorktreeCommand::List) {
            Ok(said) => r matches Ok(params) && text_of(params.workspace_id) == said.workspace_id
                && text_of(params.cwd) == said.cwd && params.trust_repository
                == said.trust_repository,
            Err(refusal) => r matches Err(error) && error@ == refusal,
        },
{
    let said = match read_options(args, readings, WorktreeCommand::List) {
        Ok(said) => said,
        Err(refusal) => {
            return Err(refusal);
        },
    };
    if said.workspace_id.is_some() && said.cwd.is_some() {
        return Err(Refusal::Usage(LIST_USAGE));
    }
    Ok(
        WorktreeListParams {
            workspace_id: said.workspace_id,
            cwd: said.cwd,
            trust_repository: said.trust_repository,
        },
    )
}

/// The new worktree that arguments ask for.
pub fn worktree_create(args: &Vec<String>, readings: &Vec<Reading>) -> (r: Result<
    WorktreeCreateParams,
    Refusal,
>)
    requires
        readings@.len() == args@.len(),
    ensures
        match request_of(texts(args@), reading_views(readings@), WorktreeCommand::Create) {
            Ok(said) => r matches Ok(params) && text_of(params.workspace_id) == said.workspace_id
                && text_of(params.cwd) == said.cwd && text_of(params.branch) == said.branch
                && text_of(params.base) == said.base && text_of(params.path) == said.path
                && text_of(params.label) == said.label && params.focus == said.focus
                && params.trust_repository == said.trust_repository,
            Err(refusal) => r matches Err(error) && error@ == refusal,
        },
{
    let said = match read_options(args, readings, WorktreeCommand::Create) {
        Ok(said) => said,
        Err(refusal) => {
            return Err(refusal);
        },
    };
    if said.workspace_id.is_some() && said.cwd.is_some() {
        return Err(Refusal::Usage(CREATE_USAGE));
    }
    Ok(
        WorktreeCreateParams {
            workspace_id: said.workspace_id,
            cwd: said.cwd,
            branch: said.branch,
            base: said.base,
            path: said.path,
            label: said.label,
            focus: said.focus,
            trust_repository: said.trust_repository,
        },
    )
}

/// The worktree that arguments ask to be opened: by its path, or by its branch.
pub fn worktree_open(args: &Vec<String>, readings: &Vec<Reading>) -> (r: Result<
    WorktreeOpenParams,
    Refusal,
>)
    requires
        readings@.len() == args@.len(),
    ensures
        match request_of(texts(args@), reading_views(readings@), WorktreeCommand::Open) {
            Ok(said) => r matches Ok(params) && text_of(params.workspace_id) == said.workspace_id
                && text_of(params.cwd) == said.cwd && text_of(params.path) == said.path
                && text_of(params.branch) == said.branch && text_of(params.label) == said.label
                && params.focus == said.focus && params.trust_repository == said.trust_repository,
            Err(refusal) => r matches Err(error) && error@ == refusal,
        },
{
    let said = match read_options(args, readings, WorktreeCommand::Open) {
        Ok(said) => said,
        Err(refusal) => {
            return Err(refusal);
        },
    };
    if said.workspace_id.is_some() && said.cwd.is_some() {
        return Err(Refusal::Usage(OPEN_USAGE));
    }
    if said.path.is_some() == said.branch.is_some() {
        return Err(Refusal::Usage(OPEN_USAGE));
    }
    Ok(
        WorktreeOpenParams {
            workspace_id: said.workspace_id,
            cwd: said.cwd,
            path: said.path,
            branch: said.branch,
            label: said.label,
            focus: said.focus,
            trust_repository: said.trust_repository,
        },
    )
}

/// The worktree that arguments ask to be removed.
pub fn worktree_remove(args: &Vec<String>, readings: &Vec<Reading>) -> (r: Result<
    WorktreeRemoveParams,
    Refusal,
>)
    requires
        readings@.len() == args@.len(),
    ensures
        match request_of(texts(args@), reading_views(readings@), WorktreeCommand::Remove) {
            Ok(said) => r matches Ok(params) && said.workspace_id == Some(params.workspace_id@)
                && params.force == said.force && params.trust_repository == said.trust_repository,
            Err(refusal) => r matches Err(error) && error@ == refusal,
        },
{
    let said = match read_options(args, readings, WorktreeCommand::Remove) {
        Ok(said) => said,
        Err(refusal) => {
            return Err(refusal);
        },
    };
    match said.workspace_id {
        Some(workspace_id) => Ok(
            WorktreeRemoveParams {
                workspace_id,
                force: said.force,
                trust_repository: said.trust_repository,
            },
        ),
        None => Err(Refusal::Usage(REMOVE_USAGE)),
    }
}

/// What is asked of the cleanup. Repositories and files are given by the places of their
/// arguments.
#[allow(inconsistent_fields)]
#[derive(Clone, Copy, Debug, PartialEq, Eq, Structural)]
pub enum CleanupRequest {
    Inspect,
    Register { repository: usize },
    Preview { repository: Option<usize> },
    Reconcile { repository: Option<usize> },
    Configure { file: usize, repository: Option<usize> },
    Usage,
}

/// The second argument, if there are two.
pub open spec fn second(args: Seq<Seq<char>>) -> Option<usize> {
    if args.len() == 2 {
        Some(1)
    } else {
        None
    }
}

/// What is asked of the cleanup: to inspect it, where nothing else is said.
pub open spec fn cleanup_request(args: Seq<Seq<char>>) -> CleanupRequest {
    if args.len() == 0 || (args.len() == 1 && args[0] == "inspect"@) {
        CleanupRequest::Inspect
    } else if args[0] == "register"@ && args.len() == 2 {
        CleanupRequest::Register { repository: 1 }
    } else if args[0] == "preview"@ && args.len() <= 2 {
        CleanupRequest::Preview { repository: second(args) }
    } else if args[0] == "run"@ && args.len() <= 2 {
        CleanupRequest::Reconcile { repository: second(args) }
    } else if args[0] == "configure"@ && 2 <= args.len() <= 3 {
        CleanupRequest::Configure {
            file: 1,
            repository: if args.len() == 3 {
                Some(2)
            } else {
                None
            },
        }
    } else {
        CleanupRequest::Usage
    }
}

/// What arguments ask of the cleanup.
pub fn cleanup(args: &Vec<String>) -> (r: CleanupRequest)
    ensures
        r == cleanup_request(texts(args@)),
{
    let count: usize = args.len();
    if count == 0 {
        return CleanupRequest::Inspect;
    }
    let command = args[0].as_str();
    assert(command@ == texts(args@)[0]);
    proof {
        reveal_strlit("inspect");
        reveal_strlit("register");
        reveal_strlit("preview");
        reveal_strlit("run");
        reveal_strlit("configure");
        assert("inspect"@[0] != "preview"@[0]);
    }
    let second: Option<usize> = if count == 2 {
        Some(1)
    } else {
        None
    };
    if same(command, "inspect") && count == 1 {
        CleanupRequest::Inspect
    } else if same(command, "register") && count == 2 {
        CleanupRequest::Register { repository: 1 }
    } else if same(command, "preview") && count <= 2 {
        CleanupRequest::Preview { repository: second }
    } else if same(command, "run") && count <= 2 {
        CleanupRequest::Reconcile { repository: second }
    } else if same(command, "configure") && 2 <= count && count <= 3 {
        let repository: Option<usize> = if count == 3 {
            Some(2)
        } else {
            None
        };
        CleanupRequest::Configure { file: 1, repository }
    } else {
        CleanupRequest::Usage
    }
}

/// What to do after a look at a cleanup that is under way.
#[derive(Clone, Copy, Debug, PartialEq, Eq, Structural)]
pub enum PollStep {
    /// Print the answer.
    Answer,
    /// The server is another one now.
    Restarted,
    /// Print the operation, which failed.
    Failed(usize),
    /// The operation takes too long to wait for it.
    Pending,
    /// Look again later.
    Wait,
}

/// The first of some operations from the `i`-th on that has an id.
pub open spec fn operation_at(operations: Seq<serde_json::Value>, id: u64, i: int) -> Option<int>
    decreases operations.len() - i,
{
    if i >= operations.len() {
        None
    } else if number_at(operations[i], "/id"@) == Some(id) {
        Some(i)
    } else {
        operation_at(operations, id, i + 1)
    }
}

/// The operations that an answer lists.
pub open spec fn operations_of(status: serde_json::Value) -> Seq<serde_json::Value> {
    match json_pointer(status, "/result/snapshot/operations"@) {
        Some(value) => match json_items(value) {
            Some(items) => items,
            None => Seq::empty(),
        },
        None => Seq::empty(),
    }
}

/// Two servers count as one: both or neither say which boot they are of, and they agree.
pub open spec fn same_boot(
    status: serde_json::Value,
    boot: Option<serde_json::Value>,
) -> bool {
    match (json_pointer(status, "/result/snapshot/boot_id"@), boot) {
        (Some(a), Some(b)) => json_equal(a, b),
        (None, None) => true,
        _ => false,
    }
}

/// What to do after an answer on the operations of a cleanup.
pub open spec fn poll_step(
    status: serde_json::Value,
    id: u64,
    boot: Option<serde_json::Value>,
    expired: bool,
) -> PollStep {
    let operations = operations_of(status);
    let state = match operation_at(operations, id, 0) {
        Some(i) => text_at(operations[i], "/state"@),
        None => None,
    };
    if json_pointer(status, "/error"@) is Some {
        PollStep::Answer
    } else if !same_boot(status, boot) {
        PollStep::Restarted
    } else if state == Some("failed"@) {
        PollStep::Failed(operation_at(operations, id, 0)->0 as usize)
    } else if state == Some("completed"@) {
        PollStep::Answer
    } else if expired {
        PollStep::Pending
    } else {
        PollStep::Wait
    }
}

fn find_operation(operations: &Vec<serde_json::Value>, id: u64) -> (r: Option<usize>)
    ensures
        match operation_at(operations@, id, 0) {
            Some(i) => r matches Some(n) && n == i && n < operations@.len(),
            None => r is None,
        },
{
    let mut i: usize = 0;
    while i < operations.len()
        invariant
            i <= operations@.len(),
            operation_at(operations@, id, 0) == operation_at(operations@, id, i as int),
        decreases operations@.len() - i,
    {
        if let Some(number) = read_number(&operations[i], "/id") {
            if number == id {
                return Some(i);
            }
        }
        i = i + 1;
    }
    None
}

/// What to do after an answer on the operations of a cleanup. `boot` is what the server said of
/// itself when it took the operation; `expired` says that the time to wait is over.
pub fn poll_cleanup(
    status: &serde_json::Value,
    id: u64,
    boot: Option<&serde_json::Value>,
    expired: bool,
) -> (r: PollStep)
    ensures
        r == poll_step(
            *status,
            id,
            match boot {
                Some(value) => Some(*value),
                None => None,
            },
            expired,
        ),
{
    if status.pointer("/error").is_some() {
        return PollStep::Answer;
    }
    let agrees: bool = match (status.pointer("/result/snapshot/boot_id"), boot) {
        (Some(a), Some(b)) => same_value(a, b),
        (None, None) => true,
        _ => false,
    };
    if !agrees {
        return PollStep::Restarted;
    }
    if let Some(value) = status.pointer("/result/snapshot/operations") {
        if let Some(operations) = value.as_array() {
            if let Some(i) = find_operation(operations, id) {
                if let Some(state) = read_text(&operations[i], "/state") {
                    if same(state.as_str(), "failed") {
                        return PollStep::Failed(i);
                    }
                    if same(state.as_str(), "completed") {
                        return PollStep::Answer;
                    }
                }
            }
        }
    }
    if expired {
        PollStep::Pending
    } else {
        PollStep::Wait
    }
}

proof fn lemma_pushed_option(
    args: Seq<Seq<char>>,
    readings: Seq<ReadingView>,
    last: Seq<char>,
    read: ReadingView,
    command: WorktreeCommand,
    i: int,
    said: OptionsView,
)
    requires
        0 <= i <= args.len() == readings.len(),
        options_of(args, readings, command, i, said) is Ok,
        option_of(last, command) matches Some(option) && valued(option) is None,
    ensures
        options_of(args.push(last), readings.push(read), command, i, said) == Ok::<
            OptionsView,
            RefusalView,
        >(
            with_option(
                options_of(args, readings, command, i, said)->Ok_0,
                option_of(last, command)->0,
                Seq::empty(),
            ),
        ),
    decreases args.len() - i,
{
    let more = args.push(last);
    let longer = readings.push(read);
    if i == args.len() {
        let next = with_option(said, option_of(last, command)->0, Seq::empty());
        assert(more[i] == last);
        assert(options_of(more, longer, command, i + 1, next) == Ok::<OptionsView, RefusalView>(
            next,
        ));
    } else {
        assert(more[i] == args[i]);
        let option = option_of(args[i], command)->0;
        if valued(option) is None {
            lemma_pushed_option(
                args,
                readings,
                last,
                read,
                command,
                i + 1,
                with_option(said, option, Seq::empty()),
            );
        } else {
            assert(more[i + 1] == args[i + 1]);
            assert(longer[i + 1] == readings[i + 1]);
            let value = if is_path_option(option) {
                readings[i + 1].path->0
            } else {
                plain_value(args, readings, i + 1, option)
            };
            lemma_pushed_option(
                args,
                readings,
                last,
                read,
                command,
                i + 2,
                with_option(said, option, value),
            );
        }
    }
}

/// `--json` behind the arguments of a command that asks for something changes nothing.
pub proof fn json_changes_nothing(
    args: Seq<Seq<char>>,
    readings: Seq<ReadingView>,
    read: ReadingView,
    command: WorktreeCommand,
)
    requires
        args.len() == readings.len(),
        request_of(args, readings, command) is Ok,
    ensures
        request_of(args.push("--json"@), readings.push(read), command) == request_of(
            args,
            readings,
            command,
        ),
{
    lemma_option_names();
    lemma_pushed_option(args, readings, "--json"@, read, command, 0, unsaid());
}

/// The last word on the focus counts: `--no-focus` behind the arguments of a command that has it
/// takes back every `--focus` before.
pub proof fn last_word_on_the_focus_counts(
    args: Seq<Seq<char>>,
    readings: Seq<ReadingView>,
    read: ReadingView,
    command: WorktreeCommand,
)
    requires
        args.len() == readings.len(),
        command == WorktreeCommand::Create || command == WorktreeCommand::Open,
        request_of(args, readings, command) is Ok,
    ensures
        request_of(args.push("--no-focus"@), readings.push(read), command) matches Ok(said)
            && !said.focus,
        request_of(args.push("--focus"@), readings.push(read), command) matches Ok(said)
            && said.focus,
{
    lemma_option_names();
    lemma_pushed_option(args, readings, "--no-focus"@, read, command, 0, unsaid());
    lemma_pushed_option(args, readings, "--focus"@, read, command, 0, unsaid());
}

proof fn lemma_option_names()
    ensures
        forall|command: WorktreeCommand| #[trigger]
            option_of("--json"@, command) == Some(WorktreeOption::Json),
        forall|command: WorktreeCommand|
            command == WorktreeCommand::Create || command == WorktreeCommand::Open ==> (#[trigger]
            option_of("--focus"@, command)) == Some(WorktreeOption::Focus),
        forall|command: WorktreeCommand|
            command == WorktreeCommand::Create || command == WorktreeCommand::Open ==> (#[trigger]
            option_of("--no-focus"@, command)) == Some(WorktreeOption::NoFocus),
{
    reveal_strlit("--workspace");
    reveal_strlit("--cwd");
    reveal_strlit("--branch");
    reveal_strlit("--base");
    reveal_strlit("--path");
    reveal_strlit("--label");
    reveal_strlit("--focus");
    reveal_strlit("--no-focus");
    reveal_strlit("--trust-repository");
    reveal_strlit("--force");
    reveal_strlit("--json");
    assert("--no-focus"@.len() == 10 && "--workspace"@.len() == 11 && "--cwd"@.len() == 5
        && "--branch"@.len() == 8 && "--trust-repository"@.len() == 18);
    assert("--json"@[2] == 'j' && "--base"@[2] == 'b' && "--path"@[2] == 'p');
    assert("--focus"@[2] == 'f' && "--label"@[2] == 'l' && "--force"@[4] == 'r' && "--focus"@[4]
        == 'c');
}

/// A command goes by its own word, and help is asked for in the usual ways.
pub proof fn commands_go_by_their_word(args: Seq<Seq<char>>)
    requires
        args.len() > 0,
    ensures
        args[0] == "cleanup"@ ==> command_of(args) == WorktreeCommand::Cleanup,
        args[0] == "list"@ ==> command_of(args) == WorktreeCommand::List,
        args[0] == "create"@ ==> command_of(args) == WorktreeCommand::Create,
        args[0] == "open"@ ==> command_of(args) == WorktreeCommand::Open,
        args[0] == "remove"@ ==> command_of(args) == WorktreeCommand::Remove,
        args[0] == "help"@ || args[0] == "--help"@ || args[0] == "-h"@ ==> command_of(args)
            == WorktreeCommand::Help,
        args[0] != "cleanup"@ && args[0] != "list"@ && args[0] != "create"@ && args[0] != "open"@
            && args[0] != "remove"@ && args[0] != "help"@ && args[0] != "--help"@ && args[0]
            != "-h"@ ==> command_of(args) == WorktreeCommand::Unknown,
        command_of(Seq::<Seq<char>>::empty()) == WorktreeCommand::Unknown,
{
    reveal_strlit("cleanup");
    reveal_strlit("list");
    reveal_strlit("create");
    reveal_strlit("open");
    reveal_strlit("remove");
    reveal_strlit("help");
    reveal_strlit("--help");
    reveal_strlit("-h");
    assert("cleanup"@.len() == 7 && "list"@.len() == 4 && "create"@.len() == 6 && "open"@.len() == 4
        && "remove"@.len() == 6 && "help"@.len() == 4 && "--help"@.len() == 6 && "-h"@.len() == 2);
    assert("list"@[0] == 'l' && "open"@[0] == 'o' && "help"@[0] == 'h');
    assert("create"@[0] == 'c' && "remove"@[0] == 'r' && "--help"@[0] == '-');
}

/// An option is known by its own word to the commands that take it: a workspace, trust and
/// plain answers to all, a directory to all but removal, placing to creation and opening, a
/// base to creation alone and force to removal alone.
pub proof fn options_are_known_to_their_commands()
    ensures
        option_of("--workspace"@, WorktreeCommand::List) == Some(WorktreeOption::Workspace),
        option_of("--workspace"@, WorktreeCommand::Remove) == Some(WorktreeOption::Workspace),
        option_of("--cwd"@, WorktreeCommand::List) == Some(WorktreeOption::Cwd),
        option_of("--cwd"@, WorktreeCommand::Create) == Some(WorktreeOption::Cwd),
        option_of("--cwd"@, WorktreeCommand::Open) == Some(WorktreeOption::Cwd),
        option_of("--cwd"@, WorktreeCommand::Remove) is None,
        option_of("--branch"@, WorktreeCommand::Create) == Some(WorktreeOption::Branch),
        option_of("--branch"@, WorktreeCommand::Open) == Some(WorktreeOption::Branch),
        option_of("--branch"@, WorktreeCommand::List) is None,
        option_of("--branch"@, WorktreeCommand::Remove) is None,
        option_of("--base"@, WorktreeCommand::Create) == Some(WorktreeOption::Base),
        option_of("--base"@, WorktreeCommand::Open) is None,
        option_of("--base"@, WorktreeCommand::List) is None,
        option_of("--path"@, WorktreeCommand::Create) == Some(WorktreeOption::Path),
        option_of("--path"@, WorktreeCommand::Open) == Some(WorktreeOption::Path),
        option_of("--path"@, WorktreeCommand::Remove) is None,
        option_of("--label"@, WorktreeCommand::Create) == Some(WorktreeOption::Label),
        option_of("--label"@, WorktreeCommand::Open) == Some(WorktreeOption::Label),
        option_of("--focus"@, WorktreeCommand::Create) == Some(WorktreeOption::Focus),
        option_of("--focus"@, WorktreeCommand::Open) == Some(WorktreeOption::Focus),
        option_of("--focus"@, WorktreeCommand::Remove) is None,
        option_of("--no-focus"@, WorktreeCommand::Create) == Some(WorktreeOption::NoFocus),
        option_of("--no-focus"@, WorktreeCommand::Open) == Some(WorktreeOption::NoFocus),
        option_of("--trust-repository"@, WorktreeCommand::List) == Some(
            WorktreeOption::TrustRepository,
        ),
        option_of("--trust-repository"@, WorktreeCommand::Remove) == Some(
            WorktreeOption::TrustRepository,
        ),
        option_of("--force"@, WorktreeCommand::Remove) == Some(WorktreeOption::Force),
        option_of("--force"@, WorktreeCommand::Create) is None,
        option_of("--force"@, WorktreeCommand::List) is None,
        option_of("--json"@, WorktreeCommand::List) == Some(WorktreeOption::Json),
        option_of("--json"@, WorktreeCommand::Remove) == Some(WorktreeOption::Json),
{
    reveal_strlit("--workspace");
    reveal_strlit("--cwd");
    reveal_strlit("--branch");
    reveal_strlit("--base");
    reveal_strlit("--path");
    reveal_strlit("--label");
    reveal_strlit("--focus");
    reveal_strlit("--no-focus");
    reveal_strlit("--trust-repository");
    reveal_strlit("--force");
    reveal_strlit("--json");
    assert("--workspace"@.len() == 11 && "--cwd"@.len() == 5 && "--branch"@.len() == 8
        && "--base"@.len() == 6 && "--path"@.len() == 6 && "--label"@.len() == 7 && "--focus"@.len()
        == 7 && "--no-focus"@.len() == 10 && "--trust-repository"@.len() == 18 && "--force"@.len()
        == 7 && "--json"@.len() == 6);
    assert("--base"@[2] == 'b' && "--path"@[2] == 'p' && "--json"@[2] == 'j');
    assert("--label"@[2] == 'l' && "--focus"@[4] == 'c' && "--force"@[4] == 'r' && "--focus"@[2]
        == 'f' && "--force"@[2] == 'f');
}

/// An option says what it stands for and nothing else; the last word on focus counts.
pub proof fn options_say_one_thing(said: OptionsView, value: Seq<char>)
    ensures
        with_option(said, WorktreeOption::Workspace, value) == (OptionsView {
            workspace_id: Some(value),
            ..said
        }),
        with_option(said, WorktreeOption::Cwd, value) == (OptionsView { cwd: Some(value), ..said }),
        with_option(said, WorktreeOption::Branch, value) == (OptionsView {
            branch: Some(value),
            ..said
        }),
        with_option(said, WorktreeOption::Base, value) == (OptionsView {
            base: Some(value),
            ..said
        }),
        with_option(said, WorktreeOption::Path, value) == (OptionsView {
            path: Some(value),
            ..said
        }),
        with_option(said, WorktreeOption::Label, value) == (OptionsView {
            label: Some(value),
            ..said
        }),
        with_option(with_option(said, WorktreeOption::NoFocus, value), WorktreeOption::Focus, value)
            == with_option(said, WorktreeOption::Focus, value),
        with_option(said, WorktreeOption::Focus, value).focus,
        !with_option(said, WorktreeOption::NoFocus, value).focus,
        with_option(said, WorktreeOption::TrustRepository, value) == (OptionsView {
            trust_repository: true,
            ..said
        }),
        with_option(said, WorktreeOption::Force, value) == (OptionsView { force: true, ..said }),
        with_option(said, WorktreeOption::Json, value) == said,
{
}

/// Where nothing is said, nothing is named, focused, trusted or forced.
pub proof fn nothing_is_assumed()
    ensures
        unsaid().workspace_id is None && unsaid().cwd is None && unsaid().branch is None,
        unsaid().base is None && unsaid().path is None && unsaid().label is None,
        !unsaid().focus && !unsaid().trust_repository && !unsaid().force,
{
}

/// Arguments are read one after the other: a plain option by itself, one that wants a value
/// with the argument after it, which is a path where the option wants a path. An argument
/// that is no option, a value that is missing and a path that cannot be made are told.
pub proof fn arguments_are_read_one_after_the_other(
    args: Seq<Seq<char>>,
    readings: Seq<ReadingView>,
    command: WorktreeCommand,
    i: int,
    said: OptionsView,
)
    requires
        0 <= i < args.len(),
    ensures
        option_of(args[i], command) is None ==> options_of(args, readings, command, i, said)
            == Err::<OptionsView, RefusalView>(RefusalView::Unknown(args[i])),
        (option_of(args[i], command) matches Some(option) && (option == WorktreeOption::Focus
            || option == WorktreeOption::NoFocus || option == WorktreeOption::TrustRepository
            || option == WorktreeOption::Force || option == WorktreeOption::Json)) ==> options_of(
            args,
            readings,
            command,
            i,
            said,
        ) == options_of(
            args,
            readings,
            command,
            i + 1,
            with_option(said, option_of(args[i], command)->0, Seq::empty()),
        ),
        (option_of(args[i], command) matches Some(option) && (option == WorktreeOption::Branch
            || option == WorktreeOption::Base || option == WorktreeOption::Label) && i + 1
            < args.len()) ==> options_of(args, readings, command, i, said) == options_of(
            args,
            readings,
            command,
            i + 2,
            with_option(said, option_of(args[i], command)->0, args[i + 1]),
        ),
        option_of(args[i], command) == Some(WorktreeOption::Workspace) && i + 1 < args.len()
            ==> options_of(args, readings, command, i, said) == options_of(
            args,
            readings,
            command,
            i + 2,
            OptionsView { workspace_id: Some(readings[i + 1].workspace_id), ..said },
        ),
        (option_of(args[i], command) matches Some(option) && (option == WorktreeOption::Cwd
            || option == WorktreeOption::Path) && i + 1 < args.len()) ==> (
        match readings[i + 1].path {
            Some(path) => options_of(args, readings, command, i, said) == options_of(
                args,
                readings,
                command,
                i + 2,
                with_option(said, option_of(args[i], command)->0, path),
            ),
            None => options_of(args, readings, command, i, said) == Err::<OptionsView, RefusalView>(
                RefusalView::Path(i + 1),
            ),
        }),
        (option_of(args[i], command) matches Some(option) && (option == WorktreeOption::Workspace
            || option == WorktreeOption::Cwd || option == WorktreeOption::Branch || option
            == WorktreeOption::Base || option == WorktreeOption::Path || option
            == WorktreeOption::Label) && i + 1 == args.len()) ==> options_of(
            args,
            readings,
            command,
            i,
            said,
        ) == Err::<OptionsView, RefusalView>(RefusalView::MissingValue(args[i])),
        options_of(args, readings, command, args.len() as int, said) == Ok::<
            OptionsView,
            RefusalView,
        >(said),
{
}

/// A request names its workspace in one way: by its id or by a directory, not by both; a
/// worktree to open by its path or by its branch, and by one of them; and one to remove by
/// the id of its workspace.
pub proof fn requests_name_what_they_want(
    args: Seq<Seq<char>>,
    readings: Seq<ReadingView>,
    command: WorktreeCommand,
)
    requires
        request_of(args, readings, command) is Ok,
    ensures
        command == WorktreeCommand::List || command == WorktreeCommand::Create || command
            == WorktreeCommand::Open ==> !(request_of(args, readings, command)->Ok_0.workspace_id
            is Some && request_of(args, readings, command)->Ok_0.cwd is Some),
        command == WorktreeCommand::Open ==> (request_of(args, readings, command)->Ok_0.path is Some
            <==> request_of(args, readings, command)->Ok_0.branch is None),
        command == WorktreeCommand::Remove ==> request_of(
            args,
            readings,
            command,
        )->Ok_0.workspace_id is Some,
        options_of(args, readings, command, 0, unsaid()) == request_of(args, readings, command),
{
}

/// Options that name what is wanted are taken, and for the others the usage is told.
pub proof fn usage_is_told(said: OptionsView)
    ensures
        said.workspace_id is Some && said.cwd is Some ==> usage_error(said, WorktreeCommand::List)
            == Some(LIST_USAGE@) && usage_error(said, WorktreeCommand::Create) == Some(
            CREATE_USAGE@,
        ) && usage_error(said, WorktreeCommand::Open) == Some(OPEN_USAGE@),
        said.workspace_id is None || said.cwd is None ==> usage_error(said, WorktreeCommand::List)
            is None && usage_error(said, WorktreeCommand::Create) is None,
        (said.workspace_id is None || said.cwd is None) && said.path is Some && said.branch is None
            ==> usage_error(said, WorktreeCommand::Open) is None,
        (said.workspace_id is None || said.cwd is None) && said.path is None && said.branch is Some
            ==> usage_error(said, WorktreeCommand::Open) is None,
        said.path is None && said.branch is None ==> usage_error(said, WorktreeCommand::Open)
            == Some(OPEN_USAGE@),
        said.path is Some && said.branch is Some ==> usage_error(said, WorktreeCommand::Open)
            == Some(OPEN_USAGE@),
        said.workspace_id is Some ==> usage_error(said, WorktreeCommand::Remove) is None,
        said.workspace_id is None ==> usage_error(said, WorktreeCommand::Remove) == Some(
            REMOVE_USAGE@,
        ),
{
}

/// A refusal is told with what it is about.
pub proof fn refusals_are_told(text: Seq<char>)
    ensures
        RefusalView::MissingValue(text).told() == "missing value for "@ + text,
        RefusalView::Unknown(text).told() == "unknown option: "@ + text,
        RefusalView::Usage(text).told() == text,
{
}

/// A cleanup is asked for by its word, with the repository after it where one is named, and
/// nothing more.
pub proof fn cleanups_are_asked_for_by_their_word(
    word: Seq<char>,
    first: Seq<char>,
    next: Seq<char>,
    third: Seq<char>,
)
    ensures
        cleanup_request(Seq::<Seq<char>>::empty()) == CleanupRequest::Inspect,
        cleanup_request(seq!["inspect"@]) == CleanupRequest::Inspect,
        cleanup_request(seq!["register"@, first]) == (CleanupRequest::Register { repository: 1 }),
        cleanup_request(seq!["register"@]) == CleanupRequest::Usage,
        cleanup_request(seq!["preview"@]) == (CleanupRequest::Preview { repository: None }),
        cleanup_request(seq!["preview"@, first]) == (CleanupRequest::Preview {
            repository: Some(1),
        }),
        cleanup_request(seq!["run"@]) == (CleanupRequest::Reconcile { repository: None }),
        cleanup_request(seq!["run"@, first]) == (CleanupRequest::Reconcile { repository: Some(1) }),
        cleanup_request(seq!["configure"@, first]) == (CleanupRequest::Configure {
            file: 1,
            repository: None,
        }),
        cleanup_request(seq!["configure"@, first, next]) == (CleanupRequest::Configure {
            file: 1,
            repository: Some(2),
        }),
        cleanup_request(seq!["configure"@]) == CleanupRequest::Usage,
        cleanup_request(seq!["inspect"@, first]) == CleanupRequest::Usage,
        cleanup_request(seq!["preview"@, first, next]) == CleanupRequest::Usage,
        cleanup_request(seq!["run"@, first, next]) == CleanupRequest::Usage,
        cleanup_request(seq!["register"@, first, next]) == CleanupRequest::Usage,
        cleanup_request(seq!["configure"@, first, next, third]) == CleanupRequest::Usage,
        word != "inspect"@ && word != "register"@ && word != "preview"@ && word != "run"@ && word
            != "configure"@ ==> cleanup_request(seq![word]) == CleanupRequest::Usage
            && cleanup_request(seq![word, first]) == CleanupRequest::Usage,
{
    reveal_strlit("inspect");
    reveal_strlit("register");
    reveal_strlit("preview");
    reveal_strlit("run");
    reveal_strlit("configure");
    assert("inspect"@.len() == 7 && "register"@.len() == 8 && "preview"@.len() == 7 && "run"@.len()
        == 3 && "configure"@.len() == 9);
    assert("inspect"@[0] == 'i' && "preview"@[0] == 'p');
}

/// An operation is followed by its number: an error and the end of it are answered, a failure
/// is told, a server that was started again is noticed first, and otherwise one waits until
/// the time is over.
pub proof fn operations_are_followed_by_number(
    status: serde_json::Value,
    id: u64,
    boot: Option<serde_json::Value>,
    expired: bool,
    k: int,
)
    ensures
        json_pointer(status, "/error"@) is Some ==> poll_step(status, id, boot, expired)
            == PollStep::Answer,
        json_pointer(status, "/error"@) is None && (json_pointer(
            status,
            "/result/snapshot/boot_id"@,
        ) is Some <==> boot is None) ==> poll_step(status, id, boot, expired)
            == PollStep::Restarted,
        (json_pointer(status, "/error"@) is None && (json_pointer(
            status,
            "/result/snapshot/boot_id"@,
        ) matches Some(now) && boot matches Some(then) && !json_equal(now, then))) ==> poll_step(
            status,
            id,
            boot,
            expired,
        ) == PollStep::Restarted,
        json_pointer(status, "/error"@) is None && same_boot(status, boot) && 0 <= k
            < operations_of(status).len() && number_at(operations_of(status)[k], "/id"@) == Some(id)
            && (forall|j: int|
            0 <= j < k ==> number_at(#[trigger] operations_of(status)[j], "/id"@) != Some(id)) ==> {
            let state = text_at(operations_of(status)[k], "/state"@);
            let step = poll_step(status, id, boot, expired);
            &&& state == Some("failed"@) ==> step == PollStep::Failed(k as usize)
            &&& state == Some("completed"@) ==> step == PollStep::Answer
            &&& state != Some("failed"@) && state != Some("completed"@) && expired ==> step
                == PollStep::Pending
            &&& state != Some("failed"@) && state != Some("completed"@) && !expired ==> step
                == PollStep::Wait
        },
        json_pointer(status, "/error"@) is None && same_boot(status, boot) && (forall|j: int|
            0 <= j < operations_of(status).len() ==> number_at(
                #[trigger] operations_of(status)[j],
                "/id"@,
            ) != Some(id)) ==> poll_step(status, id, boot, expired) == (if expired {
            PollStep::Pending
        } else {
            PollStep::Wait
        }),
{
    reveal_strlit("failed");
    reveal_strlit("completed");
    assert("failed"@.len() == 6 && "completed"@.len() == 9);
    let operations = operations_of(status);
    if 0 <= k < operations.len() && number_at(operations[k], "/id"@) == Some(id) && (forall|j: int|
        0 <= j < k ==> number_at(#[trigger] operations[j], "/id"@) != Some(id)) {
        lemma_operation_at(operations, id, 0, k);
    }
    if forall|j: int|
        0 <= j < operations.len() ==> number_at(#[trigger] operations[j], "/id"@) != Some(id) {
        lemma_no_operation(operations, id, 0);
    }
}

proof fn lemma_operation_at(operations: Seq<serde_json::Value>, id: u64, i: int, k: int)
    requires
        0 <= i <= k < operations.len(),
        number_at(operations[k], "/id"@) == Some(id),
        forall|j: int| i <= j < k ==> number_at(#[trigger] operations[j], "/id"@) != Some(id),
    ensures
        operation_at(operations, id, i) == Some(k),
    decreases operations.len() - i,
{
    if i < k {
        assert(number_at(operations[i], "/id"@) != Some(id));
        lemma_operation_at(operations, id, i + 1, k);
    }
}

proof fn lemma_no_operation(operations: Seq<serde_json::Value>, id: u64, i: int)
    requires
        0 <= i,
        forall|j: int|
            i <= j < operations.len() ==> number_at(#[trigger] operations[j], "/id"@) != Some(id),
    ensures
        operation_at(operations, id, i) is None,
    decreases operations.len() - i,
{
    if i < operations.len() {
        assert(number_at(operations[i], "/id"@) != Some(id));
        lemma_no_operation(operations, id, i + 1);
    }
}

} // verus!
