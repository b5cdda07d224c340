//! The job lifecycle: how a validated job is prepared for its host, and the
//! order of the steps of each operation. Each operation is a step function:
//! given the progress so far and the outcome of the last action, it names the
//! next action or the result. The caller performs the actions.
use crate::config::{
    first_of_kind, kind_of, upserted, validated, Config, ConfigKind, Configuration,
};
use crate::descriptor::descriptor_text;
use crate::env::{spec_meta_yaml, spec_plist_path, get_plist_path, Env};
use crate::error::Error;
use crate::paths::{join_path, spec_join_path};
use crate::tasks::{exist, has_yaml_extension, inventory_labels, is_loaded, lines_of, listed};
use crate::text::{contains, ends_with, is_prefix, join_text, occurs_in, starts_with, text_eq};
use vstd::prelude::*;

verus! {

/// The token that stands for the job's task directory at the start of a path.
pub open spec fn root_alias() -> Seq<char> {
    "~root~/"@
}

/// A path with a leading root alias replaced by the task directory.
pub open spec fn alias_replaced(p: Seq<char>, task_folder: Seq<char>) -> Seq<char> {
    if is_prefix(root_alias(), p) {
        spec_join_path(task_folder, p.subrange(root_alias().len() as int, p.len() as int))
    } else {
        p
    }
}

/// `new` is `old` with the root alias replaced in each argument and in the
/// working and root directories.
pub open spec fn option_alias_replaced(old: Config, new: Config, t: Seq<char>) -> bool {
    match old {
        Config::ProgramArguments(a) => new is ProgramArguments && new->ProgramArguments_0@.len()
            == a@.len() && forall|i: int|
            0 <= i < a@.len() ==> (#[trigger] new->ProgramArguments_0@[i])@ == alias_replaced(a@[i]@, t),
        Config::WorkingDirectory(p) => new is WorkingDirectory && new->WorkingDirectory_0@
            == alias_replaced(p@, t),
        Config::RootDirectory(p) => new is RootDirectory && new->RootDirectory_0@ == alias_replaced(p@, t),
        _ => new == old,
    }
}

pub open spec fn options_alias_replaced(old: Seq<Config>, new: Seq<Config>, t: Seq<char>) -> bool {
    old.len() == new.len() && forall|i: int|
        0 <= i < old.len() ==> option_alias_replaced(#[trigger] old[i], new[i], t)
}

/// `new` is `old`, with a working directory of the root alias appended when
/// `old` has none.
pub open spec fn with_working_directory(old: Seq<Config>, new: Seq<Config>) -> bool {
    if first_of_kind(old, ConfigKind::WorkingDirectory) is Some {
        new == old
    } else {
        &&& new.len() == old.len() + 1
        &&& new.take(old.len() as int) == old
        &&& new.last() is WorkingDirectory
        &&& new.last()->WorkingDirectory_0@ == root_alias()
    }
}

/// Replaces a leading root alias of `path` with the task directory.
pub fn replace_root_alias(path: &mut String, task_folder: &str)
    ensures
        final(path)@ == alias_replaced(old(path)@, task_folder@),
{
    if starts_with(path.as_str(), "~root~/") {
        let n = path.as_str().unicode_len();
        let k = "~root~/".unicode_len();
        let replaced = join_path(task_folder, path.as_str().substring_char(k, n));
        *path = replaced;
    }
}

fn replace_arguments_alias(args: Vec<String>, task_folder: &str) -> (r: Vec<String>)
    ensures
        r@.len() == args@.len(),
        forall|i: int| 0 <= i < args@.len() ==> (#[trigger] r@[i])@ == alias_replaced(args@[i]@, task_folder@),
{
    let ghost a = args@;
    let mut rest = args;
    let mut out: Vec<String> = Vec::new();
    let ghost mut taken: int = 0;
    while rest.len() > 0
        invariant
            0 <= taken <= a.len(),
            rest@ == a.subrange(taken, a.len() as int),
            out@.len() == taken,
            forall|i: int| 0 <= i < taken ==> (#[trigger] out@[i])@ == alias_replaced(a[i]@, task_folder@),
        decreases rest@.len(),
    {
        let mut arg = rest.remove(0);
        assert(arg == a[taken]);
        replace_root_alias(&mut arg, task_folder);
        out.push(arg);
        proof {
            taken = taken + 1;
            assert(rest@ == a.subrange(taken, a.len() as int));
        }
    }
    out
}

/// Replaces the root alias in the arguments and in the working and root
/// directories of the job.
pub fn replace_task_root_alias(config: Configuration, task_folder: &str) -> (r: Configuration)
    ensures
        r.label == config.label,
        r.program == config.program,
        options_alias_replaced(config.configuration@, r.configuration@, task_folder@),
{
    let ghost s = config.configuration@;
    let mut rest = config.configuration;
    let mut out: Vec<Config> = Vec::new();
    let ghost mut taken: int = 0;
    while rest.len() > 0
        invariant
            0 <= taken <= s.len(),
            rest@ == s.subrange(taken, s.len() as int),
            out@.len() == taken,
            forall|i: int| 0 <= i < taken ==> option_alias_replaced(#[trigger] s[i], out@[i], task_folder@),
        decreases rest@.len(),
    {
        let c = rest.remove(0);
        assert(c == s[taken]);
        let replaced = match c {
            Config::ProgramArguments(args) => Config::ProgramArguments(replace_arguments_alias(args, task_folder)),
            Config::WorkingDirectory(p) => {
                let mut p = p;
                replace_root_alias(&mut p, task_folder);
                Config::WorkingDirectory(p)
            },
            Config::RootDirectory(p) => {
                let mut p = p;
                replace_root_alias(&mut p, task_folder);
                Config::RootDirectory(p)
            },
            other => other,
        };
        out.push(replaced);
        proof {
            assert(option_alias_replaced(s[taken], out@[taken], task_folder@));
            taken = taken + 1;
            assert(rest@ == s.subrange(taken, s.len() as int));
        }
    }
    Configuration { label: config.label, program: config.program, configuration: out }
}

/// Gives the job a working directory of the root alias when it has none.
pub fn set_working_directory_as_root_alias(config: Configuration) -> (r: Configuration)
    ensures
        r.label == config.label,
        r.program == config.program,
        with_working_directory(config.configuration@, r.configuration@),
{
    let n = config.configuration.len();
    let mut i: usize = 0;
    while i < n
        invariant
            n == config.configuration@.len(),
            i <= n,
            forall|j: int| 0 <= j < i ==> kind_of(#[trigger] config.configuration@[j]) != ConfigKind::WorkingDirectory,
        decreases n - i,
    {
        if config.configuration[i].kind() == ConfigKind::WorkingDirectory {
            proof {
                crate::config::lemma_first_of_kind(config.configuration@, ConfigKind::WorkingDirectory);
            }
            return config;
        }
        i = i + 1;
    }
    proof {
        crate::config::lemma_first_of_kind(config.configuration@, ConfigKind::WorkingDirectory);
    }
    let ghost s = config.configuration@;
    let r = config.add_config(Config::WorkingDirectory("~root~/".to_owned()));
    assert(r.configuration@.take(s.len() as int) =~= s);
    r
}

impl Configuration {
    /// The user the job runs as, if it names one.
    pub fn get_user_name(&self) -> (r: Option<String>)
        ensures
            r is Some ==> exists|i: int|
                0 <= i < self.configuration@.len() && #[trigger] self.configuration@[i] == Config::UserName(r->Some_0),
            r is None ==> forall|i: int| 0 <= i < self.configuration@.len() ==> !(#[trigger] self.configuration@[i] is UserName),
    {
        let n = self.configuration.len();
        let mut i: usize = 0;
        while i < n
            invariant
                n == self.configuration@.len(),
                i <= n,
                forall|j: int| 0 <= j < i ==> !(#[trigger] self.configuration@[j] is UserName),
            decreases n - i,
        {
            match &self.configuration[i] {
                Config::UserName(u) => {
                    let r = u.clone();
                    assert(self.configuration@[i as int] == Config::UserName(r));
                    return Some(r);
                },
                _ => {},
            }
            i = i + 1;
        }
        None
    }

    /// The group the job runs as, if it names one.
    pub fn get_group_name(&self) -> (r: Option<String>)
        ensures
            r is Some ==> exists|i: int|
                0 <= i < self.configuration@.len() && #[trigger] self.configuration@[i] == Config::GroupName(r->Some_0),
            r is None ==> forall|i: int| 0 <= i < self.configuration@.len() ==> !(#[trigger] self.configuration@[i] is GroupName),
    {
        let n = self.configuration.len();
        let mut i: usize = 0;
        while i < n
            invariant
                n == self.configuration@.len(),
                i <= n,
                forall|j: int| 0 <= j < i ==> !(#[trigger] self.configuration@[j] is GroupName),
            decreases n - i,
        {
            match &self.configuration[i] {
                Config::GroupName(g) => {
                    let r = g.clone();
                    assert(self.configuration@[i as int] == Config::GroupName(r));
                    return Some(r);
                },
                _ => {},
            }
            i = i + 1;
        }
        None
    }
}

/// A validated job made ready for its host, with the places its files go.
#[derive(Debug, Clone)]
pub struct PreparedTask {
    pub config: Configuration,
    pub task_dir: String,
    pub out_dir: String,
    pub trash_out: String,
    pub plist_path: String,
    pub plist_text: String,
    pub meta_path: String,
    pub user: Option<String>,
    pub group: Option<String>,
}

/// `new` is `old` with its standard output and standard error redirected into
/// `out_dir`, each replacing an earlier redirection in place.
pub open spec fn redirected(old: Seq<Config>, new: Seq<Config>, out_dir: Seq<char>) -> bool {
    exists|o: Config, e: Config|
        #![trigger upserted(upserted(old, o), e)]
        o is StandardOutPath && o->StandardOutPath_0@ == spec_join_path(out_dir, "stdout.log"@)
            && e is StandardErrorPath && e->StandardErrorPath_0@ == spec_join_path(out_dir, "stderr.log"@)
            && new == upserted(upserted(old, o), e)
}

/// What preparing the job `c` in the environment `env` makes of it.
pub open spec fn prepared_from(t: PreparedTask, c: Configuration, env: Env) -> bool {
    &&& t.config.label == c.label
    &&& t.config.program == c.program
    &&& t.task_dir@ == spec_join_path(env.task_dir@, c.label@)
    &&& t.out_dir@ == spec_join_path(env.out_dir@, c.label@)
    &&& t.trash_out@ == spec_join_path(spec_join_path(env.trash_dir@, c.label@), "out"@)
    &&& t.plist_path@ == spec_plist_path(c.label@)
    &&& t.meta_path@ == spec_meta_yaml(env, c.label@)
    &&& t.plist_text@ == descriptor_text(t.config@)
    &&& exists|w: Seq<Config>, m: Seq<Config>|
        #![trigger with_working_directory(c.configuration@, w), options_alias_replaced(w, m, t.task_dir@)]
        with_working_directory(c.configuration@, w) && options_alias_replaced(w, m, t.task_dir@)
            && redirected(m, t.config.configuration@, t.out_dir@)
}

/// Prepares a validated job: a working directory of the root alias when it
/// names none, the root alias replaced by the task directory, and the standard
/// output and error redirected into the output directory; with its descriptor.
pub fn prepare_task(env: &Env, config: Configuration) -> (r: PreparedTask)
    ensures
        prepared_from(r, config, *env),
{
    let label = config.label.clone();
    let ghost c = config;
    let with_dir = set_working_directory_as_root_alias(config);
    let ghost w = with_dir.configuration@;
    let task_dir = env.get_task_folder_name(label.as_str());
    let replaced = replace_task_root_alias(with_dir, task_dir.as_str());
    let ghost m = replaced.configuration@;
    let out_dir = env.get_output_folder_name(label.as_str());
    let stdout_file = join_path(out_dir.as_str(), "stdout.log");
    let stderr_file = join_path(out_dir.as_str(), "stderr.log");
    let o = Config::StandardOutPath(stdout_file);
    let e = Config::StandardErrorPath(stderr_file);
    let ghost go = o;
    let ghost ge = e;
    let done = replaced.add_config(o).add_config(e);
    assert(done.configuration@ == upserted(upserted(m, go), ge));
    let plist_text = done.to_plist();
    let plist_path = get_plist_path(label.as_str());
    let meta_path = env.get_meta_yaml(label.as_str());
    let trash = env.get_trash_folder_name(label.as_str());
    let trash_out = join_path(trash.as_str(), "out");
    let user = done.get_user_name();
    let group = done.get_group_name();
    let r = PreparedTask {
        config: done,
        task_dir,
        out_dir,
        trash_out,
        plist_path,
        plist_text,
        meta_path,
        user,
        group,
    };
    assert(with_working_directory(c.configuration@, w) && options_alias_replaced(w, m, r.task_dir@));
    r
}

/// An argument that starts with the root alias is, once the job is prepared,
/// the task directory joined with the rest of the argument, at the same place.
pub proof fn lemma_argument_alias_rewritten(t: PreparedTask, c: Configuration, env: Env, k: int, i: int)
    requires
        prepared_from(t, c, env),
        0 <= k < c.configuration@.len(),
        c.configuration@[k] is ProgramArguments,
        0 <= i < c.configuration@[k]->ProgramArguments_0@.len(),
        is_prefix(root_alias(), c.configuration@[k]->ProgramArguments_0@[i]@),
    ensures
        ({
            let a = c.configuration@[k]->ProgramArguments_0@[i]@;
            &&& t.config.configuration@[k] is ProgramArguments
            &&& t.config.configuration@[k]->ProgramArguments_0@.len() == c.configuration@[k]->ProgramArguments_0@.len()
            &&& t.config.configuration@[k]->ProgramArguments_0@[i]@ == spec_join_path(
                spec_join_path(env.task_dir@, c.label@),
                a.subrange(root_alias().len() as int, a.len() as int),
            )
        }),
{
    let s = c.configuration@;
    let (w, m) = choose|w: Seq<Config>, m: Seq<Config>|
        #![trigger with_working_directory(s, w), options_alias_replaced(w, m, t.task_dir@)]
        with_working_directory(s, w) && options_alias_replaced(w, m, t.task_dir@)
            && redirected(m, t.config.configuration@, t.out_dir@);
    if first_of_kind(s, ConfigKind::WorkingDirectory) is None {
        assert(w[k] == w.take(s.len() as int)[k]);
    }
    assert(w[k] == s[k]);
    assert(option_alias_replaced(w[k], m[k], t.task_dir@));
    let (o, e) = choose|o: Config, e: Config|
        #![trigger upserted(upserted(m, o), e)]
        o is StandardOutPath && o->StandardOutPath_0@ == spec_join_path(t.out_dir@, "stdout.log"@)
            && e is StandardErrorPath && e->StandardErrorPath_0@ == spec_join_path(t.out_dir@, "stderr.log"@)
            && t.config.configuration@ == upserted(upserted(m, o), e);
    crate::config::lemma_first_of_kind(m, kind_of(o));
    let m1 = upserted(m, o);
    crate::config::lemma_first_of_kind(m1, kind_of(e));
    assert(m1[k] == m[k]);
    assert(upserted(m1, e)[k] == m1[k]);
}

/// The scratch directory that an uploaded archive is unpacked into.
pub open spec fn scratch_dir() -> Seq<char> {
    "/tmp/tasker.task.com/temp_unzip/"@
}

/// An action of the host that an operation asks its caller to perform.
#[derive(Debug, Clone, PartialEq)]
pub enum Action {
    /// List the jobs of the job-control tool and the file names of the meta folder.
    ListJobs,
    /// Remove a directory tree, if it exists.
    RemoveTree(String),
    /// Unpack the archive (first) into the directory (second).
    Unpack(String, String),
    /// Read a text file.
    ReadText(String),
    /// Parse declarative text into a job.
    ParseDeclarative(String),
    /// Move a directory tree by renaming its files.
    MoveTree(String, String),
    /// Copy a file.
    CopyFile(String, String),
    /// Remove a file.
    RemoveFile(String),
    /// List the entries of a directory, each with whether it is a directory.
    ReadDir(String),
    /// Rename a file (first) to a new path (second).
    Rename(String, String),
    /// Write text (second) to a file (first).
    WriteFile(String, String),
    /// Create a directory and its parents.
    CreateDir(String),
    /// Change the owner of a tree to a user and a group.
    Chown(String, Option<String>, Option<String>),
    /// Load a job descriptor into the job-control tool.
    Load(String),
    /// Unload a job descriptor from the job-control tool.
    Unload(String),
}

/// What came of an action.
#[derive(Debug, Clone, PartialEq)]
pub enum Outcome {
    Done,
    Failed(Error),
    /// The output of the job-control listing, and each name of the meta folder
    /// with whether it is a file.
    Listing(String, Vec<(String, bool)>),
    Text(String),
    Parsed(Configuration),
    /// The names of the entries of a directory, each with whether it is a directory.
    Entries(Vec<(String, bool)>),
}

/// The next action, or the result of the operation (a text for the operations
/// that return one, else empty).
#[derive(Debug, PartialEq)]
pub enum Step {
    Perform(Action),
    Finish(Result<String, Error>),
}

/// How far an operation has come: the number of the action whose outcome comes
/// next, and what earlier outcomes taught.
#[derive(Debug, Clone)]
pub struct Progress {
    pub stage: u32,
    pub loaded: bool,
    pub load_after: bool,
    pub create: bool,
    pub text: String,
    pub task: Option<PreparedTask>,
}

impl Progress {
    /// The progress of an operation that has not started.
    pub fn new() -> (r: Progress)
        ensures
            r.stage == 0,
            r.task is None,
            !r.loaded,
    {
        Progress {
            stage: 0,
            loaded: false,
            load_after: false,
            create: false,
            text: String::new(),
            task: None,
        }
    }
}

pub open spec fn performs(r: Step, a: Action) -> bool {
    r == Step::Perform(a)
}

pub open spec fn fails_with(r: Step, e: Error) -> bool {
    r == Step::Finish(Err::<String, Error>(e))
}

pub open spec fn finishes_ok(r: Step, text: Seq<char>) -> bool {
    r is Finish && r->Finish_0 is Ok && r->Finish_0->Ok_0@ == text
}

pub open spec fn fails(r: Step) -> bool {
    r is Finish && r->Finish_0 is Err
}

/// The stages of installing a prepared job whose failure ends the operation.
pub open spec fn fatal_install_stage(stage: u32) -> bool {
    stage == 21 || stage == 22 || stage == 23 || stage == 24 || stage == 25 || stage == 27 || stage == 29
}

fn is_fatal_install_stage(stage: u32) -> (r: bool)
    ensures
        r == fatal_install_stage(stage),
{
    stage == 21 || stage == 22 || stage == 23 || stage == 24 || stage == 25 || stage == 27 || stage == 29
}

/// What installing a prepared job does at each stage, given the outcome of the
/// last action.
pub open spec fn install_step(prior: Progress, outcome: Outcome, r: Step, next: u32) -> bool {
    let t = prior.task->Some_0;
    let st = prior.stage;
    &&& fatal_install_stage(st) && outcome is Failed ==> fails_with(r, outcome->Failed_0)
    &&& st == 20 && prior.create ==> r is Perform && r->Perform_0 is MoveTree
        && r->Perform_0->MoveTree_0@ == scratch_dir() && r->Perform_0->MoveTree_1 == t.task_dir
    &&& st == 20 && !prior.create ==> performs(r, Action::CreateDir(t.out_dir))
    &&& st == 21 && !(outcome is Failed) ==> performs(r, Action::Chown(t.task_dir, t.user, t.group))
    &&& st == 22 && !(outcome is Failed) ==> performs(r, Action::CreateDir(t.out_dir))
    &&& st == 23 && !(outcome is Failed) ==> performs(r, Action::Chown(t.out_dir, t.user, t.group))
    &&& st == 24 && !(outcome is Failed) ==> performs(r, Action::WriteFile(t.meta_path, prior.text))
    &&& st == 25 && !(outcome is Failed) ==> performs(r, Action::RemoveFile(t.plist_path))
    &&& st == 26 ==> performs(r, Action::WriteFile(t.plist_path, t.plist_text))
    &&& st == 27 && !(outcome is Failed) && prior.load_after ==> performs(r, Action::ListJobs)
    &&& st == 27 && !(outcome is Failed) && !prior.load_after ==> finishes_ok(r, Seq::empty())
    &&& st == 28 && outcome is Listing ==> performs(
        r,
        if listed(outcome->Listing_0@, t.config.label@) {
            Action::Unload(t.plist_path)
        } else {
            Action::Load(t.plist_path)
        },
    )
    &&& st == 28 && !(outcome is Listing) ==> fails(r)
    &&& st == 29 && !(outcome is Failed) ==> performs(r, Action::Load(t.plist_path))
    &&& st == 30 && outcome is Failed ==> fails_with(r, outcome->Failed_0)
    &&& st == 30 && !(outcome is Failed) ==> finishes_ok(r, Seq::empty())
    &&& r is Perform && r->Perform_0 is Load ==> st == 28 || st == 29
    &&& r is Perform ==> next == (if st == 20 {
        if prior.create {
            21u32
        } else {
            23u32
        }
    } else if st == 28 {
        if r->Perform_0 is Unload {
            29u32
        } else {
            30u32
        }
    } else {
        (st + 1) as u32
    })
}

/// Installs a prepared job: clears its old output (stage 20, failure ignored),
/// moves the unpacked files into the task directory and hands them to the
/// job's user (21, 22; only when creating), creates and hands over the output
/// directory (23, 24), writes the declarative text to the meta folder (25),
/// replaces the descriptor (26, where a failed removal is ignored; 27), and
/// then, when the job is to be loaded, unloads it if the listing shows it
/// loaded (28, 29) and loads it (30).
fn install(env: &Env, p: &mut Progress, outcome: Outcome) -> (r: Step)
    requires
        20 <= old(p).stage <= 30,
        old(p).task is Some,
    ensures
        final(p).task == old(p).task,
        final(p).create == old(p).create,
        final(p).load_after == old(p).load_after,
        final(p).text == old(p).text,
        r is Perform ==> old(p).stage < final(p).stage <= 30,
        install_step(*old(p), outcome, r, final(p).stage),
{
    let stage = p.stage;
    if is_fatal_install_stage(stage) {
        match outcome {
            Outcome::Failed(e) => return Step::Finish(Err(e)),
            _ => {},
        }
    }
    let t = match &p.task {
        Some(t) => t,
        None => return Step::Finish(Err(Error::TaskDoesNotExist(String::new()))),
    };
    if stage == 20 {
        if p.create {
            let a = Action::MoveTree("/tmp/tasker.task.com/temp_unzip/".to_owned(), t.task_dir.clone());
            p.stage = 21;
            Step::Perform(a)
        } else {
            let a = Action::CreateDir(t.out_dir.clone());
            p.stage = 23;
            Step::Perform(a)
        }
    } else if stage == 21 {
        let a = Action::Chown(t.task_dir.clone(), t.user.clone(), t.group.clone());
        p.stage = 22;
        Step::Perform(a)
    } else if stage == 22 {
        let a = Action::CreateDir(t.out_dir.clone());
        p.stage = 23;
        Step::Perform(a)
    } else if stage == 23 {
        let a = Action::Chown(t.out_dir.clone(), t.user.clone(), t.group.clone());
        p.stage = 24;
        Step::Perform(a)
    } else if stage == 24 {
        let a = Action::WriteFile(t.meta_path.clone(), p.text.clone());
        p.stage = 25;
        Step::Perform(a)
    } else if stage == 25 {
        let a = Action::RemoveFile(t.plist_path.clone());
        p.stage = 26;
        Step::Perform(a)
    } else if stage == 26 {
        let a = Action::WriteFile(t.plist_path.clone(), t.plist_text.clone());
        p.stage = 27;
        Step::Perform(a)
    } else if stage == 27 {
        if p.load_after {
            p.stage = 28;
            Step::Perform(Action::ListJobs)
        } else {
            Step::Finish(Ok(String::new()))
        }
    } else if stage == 28 {
        match outcome {
            Outcome::Listing(live, _) => {
                if is_loaded(live.as_str(), t.config.label.as_str(), env.out_dir.as_str()) {
                    let a = Action::Unload(t.plist_path.clone());
                    p.stage = 29;
                    Step::Perform(a)
                } else {
                    let a = Action::Load(t.plist_path.clone());
                    p.stage = 30;
                    Step::Perform(a)
                }
            },
            _ => Step::Finish(Err(Error::LaunchctlListError("failed to list jobs".to_owned()))),
        }
    } else if stage == 29 {
        let a = Action::Load(t.plist_path.clone());
        p.stage = 30;
        Step::Perform(a)
    } else {
        match outcome {
            Outcome::Failed(e) => Step::Finish(Err(e)),
            _ => Step::Finish(Ok(String::new())),
        }
    }
}

/// The job that a parsed job gives once validated and prepared.
pub open spec fn prepared_job(t: PreparedTask, raw: Configuration, env: Env) -> bool {
    exists|c: Configuration| c@ == validated(raw@) && #[trigger] prepared_from(t, c, env)
}

/// Validates a parsed job and prepares it; on success the progress holds it
/// and the next action clears its old output.
fn start_install(env: &Env, p: &mut Progress, raw: Configuration, create: bool, load_after: bool) -> (r: Step)
    ensures
        final(p).text == old(p).text,
        r is Perform ==> final(p).stage == 20 && final(p).task is Some && final(p).create == create
            && final(p).load_after == load_after && prepared_job(final(p).task->Some_0, raw, *env) && performs(
            r,
            Action::MoveTree(final(p).task->Some_0.out_dir, final(p).task->Some_0.trash_out),
        ),
        !(r is Perform) ==> fails(r),
        !crate::text::label_matches(raw.label@) ==> fails(r),
{
    match raw.validate() {
        Err(e) => Step::Finish(Err(e)),
        Ok(c) => {
            let t = prepare_task(env, c);
            let a = Action::MoveTree(t.out_dir.clone(), t.trash_out.clone());
            p.task = Some(t);
            p.create = create;
            p.load_after = load_after;
            p.stage = 20;
            Step::Perform(a)
        },
    }
}

/// The names of the declarative files among the entries of a directory: the
/// entries that are not directories and have the extension `yaml`.
pub open spec fn declarative_names(entries: Seq<(String, bool)>) -> Seq<Seq<char>>
    decreases entries.len(),
{
    if entries.len() == 0 {
        Seq::empty()
    } else if !entries.last().1 && has_yaml_extension(entries.last().0@) {
        declarative_names(entries.drop_last()).push(entries.last().0@)
    } else {
        declarative_names(entries.drop_last())
    }
}

/// The path of the one declarative file among the entries of `dir`; none, or
/// more than one, is an error.
pub fn find_yaml_file(dir: &str, entries: &Vec<(String, bool)>) -> (r: Result<String, Error>)
    ensures
        r is Ok <==> declarative_names(entries@).len() == 1,
        r is Ok ==> r->Ok_0@ == spec_join_path(dir@, declarative_names(entries@)[0]),
        r is Err ==> r->Err_0 is YamlNotFound,
{
    let mut found: Option<String> = None;
    let mut count: usize = 0;
    let n = entries.len();
    let mut i: usize = 0;
    assert(entries@.subrange(0, 0) =~= Seq::<(String, bool)>::empty());
    while i < n
        invariant
            n == entries@.len(),
            i <= n,
            count == declarative_names(entries@.subrange(0, i as int)).len() || count == 2,
            count <= 2,
            count == 2 ==> declarative_names(entries@.subrange(0, i as int)).len() >= 2,
            count == 1 ==> found is Some && found->Some_0@ == spec_join_path(dir@, declarative_names(entries@.subrange(0, i as int))[0]),
            count < 2 ==> count == declarative_names(entries@.subrange(0, i as int)).len(),
        decreases n - i,
    {
        let ghost pre = entries@.subrange(0, i + 1);
        assert(pre.drop_last() =~= entries@.subrange(0, i as int));
        assert(pre.last() == entries@[i as int]);
        let name = entries[i].0.as_str();
        proof {
            reveal_strlit(".yaml");
        }
        if !entries[i].1 && name.unicode_len() > 5 && ends_with(name, ".yaml") {
            if count == 0 {
                found = Some(join_path(dir, name));
                count = 1;
            } else {
                count = 2;
            }
        }
        i = i + 1;
    }
    assert(entries@.subrange(0, n as int) =~= entries@);
    if count == 1 {
        match found {
            Some(path) => Ok(path),
            None => Err(Error::YamlNotFound("yaml not found".to_owned())),
        }
    } else if count == 0 {
        Err(Error::YamlNotFound("yaml not found".to_owned()))
    } else {
        Err(Error::YamlNotFound("more than one yaml file in the archive".to_owned()))
    }
}

/// Creates a job from an uploaded archive: clears the scratch directory (0),
/// unpacks the archive into it (1), lists it (2) to find its one declarative
/// file, reads it (3) and parses it (4); the parsed job (5) is validated and prepared, then
/// installed and loaded. Every failure ends the operation, but for those of
/// clearing the old output and removing the old descriptor.
pub fn create_task(env: &Env, task_zip: &str, p: &mut Progress, outcome: Outcome) -> (r: Step)
    requires
        old(p).stage <= 5 || (20 <= old(p).stage <= 30 && old(p).task is Some && old(p).create),
    ensures
        r is Perform ==> (final(p).stage <= 5 || (20 <= final(p).stage <= 30 && final(p).task is Some && final(p).create)),
        old(p).stage != 4 ==> final(p).text == old(p).text,
        old(p).stage >= 20 ==> final(p).task == old(p).task,
        old(p).stage == 0 ==> r is Perform && r->Perform_0 is RemoveTree && r->Perform_0->RemoveTree_0@ == scratch_dir()
            && final(p).stage == 1,
        1 <= old(p).stage <= 5 && outcome is Failed ==> fails_with(r, outcome->Failed_0),
        old(p).stage == 1 && !(outcome is Failed) ==> r is Perform && r->Perform_0 is Unpack
            && r->Perform_0->Unpack_0@ == task_zip@ && r->Perform_0->Unpack_1@ == scratch_dir() && final(p).stage == 2,
        old(p).stage == 2 && !(outcome is Failed) ==> r is Perform && r->Perform_0 is ReadDir
            && r->Perform_0->ReadDir_0@ == scratch_dir() && final(p).stage == 3,
        old(p).stage == 3 && outcome is Entries && declarative_names(outcome->Entries_0@).len() == 1 ==> r is Perform
            && r->Perform_0 is ReadText && r->Perform_0->ReadText_0@ == spec_join_path(
            scratch_dir(),
            declarative_names(outcome->Entries_0@)[0],
        ) && final(p).stage == 4,
        old(p).stage == 3 && !(outcome is Failed) && !(outcome is Entries && declarative_names(outcome->Entries_0@).len() == 1)
            ==> fails(r) && r->Finish_0->Err_0 is YamlNotFound,
        old(p).stage == 4 && outcome is Text ==> performs(r, Action::ParseDeclarative(outcome->Text_0))
            && final(p).text == outcome->Text_0 && final(p).stage == 5,
        old(p).stage == 4 && !(outcome is Text) ==> fails(r),
        old(p).stage == 5 && outcome is Parsed && r is Perform ==> prepared_job(final(p).task->Some_0, outcome->Parsed_0, *env)
            && final(p).stage == 20 && final(p).load_after && performs(
            r,
            Action::MoveTree(final(p).task->Some_0.out_dir, final(p).task->Some_0.trash_out),
        ),
        old(p).stage == 5 && outcome is Parsed && !crate::text::label_matches(outcome->Parsed_0.label@) ==> fails(r),
        1 <= old(p).stage <= 5 && !(r is Perform) ==> fails(r),
        old(p).stage >= 20 ==> install_step(*old(p), outcome, r, final(p).stage),
        r is Perform && r->Perform_0 is Load ==> old(p).stage == 28 || old(p).stage == 29,
{
    let stage = p.stage;
    if stage >= 20 {
        return install(env, p, outcome);
    }
    if stage == 0 {
        p.stage = 1;
        return Step::Perform(Action::RemoveTree("/tmp/tasker.task.com/temp_unzip/".to_owned()));
    }
    match outcome {
        Outcome::Failed(e) => return Step::Finish(Err(e)),
        Outcome::Entries(entries) => {
            if stage == 3 {
                return match find_yaml_file("/tmp/tasker.task.com/temp_unzip/", &entries) {
                    Ok(path) => {
                        p.stage = 4;
                        Step::Perform(Action::ReadText(path))
                    },
                    Err(e) => Step::Finish(Err(e)),
                };
            }
        },
        Outcome::Text(text) => {
            if stage == 4 {
                p.text = text.clone();
                p.stage = 5;
                return Step::Perform(Action::ParseDeclarative(text));
            }
        },
        Outcome::Parsed(raw) => {
            if stage == 5 {
                return start_install(env, p, raw, true, true);
            }
        },
        _ => {},
    }
    if stage == 1 {
        p.stage = 2;
        Step::Perform(Action::Unpack(task_zip.to_owned(), "/tmp/tasker.task.com/temp_unzip/".to_owned()))
    } else if stage == 2 {
        p.stage = 3;
        Step::Perform(Action::ReadDir("/tmp/tasker.task.com/temp_unzip/".to_owned()))
    } else if stage == 3 {
        Step::Finish(Err(Error::YamlNotFound("yaml not found".to_owned())))
    } else {
        Step::Finish(Err(Error::YamlError("error reading yaml as utf8 text".to_owned())))
    }
}

/// The progress states that an update goes through.
pub open spec fn update_ready(p: Progress) -> bool {
    ||| p.stage <= 1
    ||| (2 <= p.stage <= 3 && p.task is Some)
    ||| (20 <= p.stage <= 30 && p.task is Some && !p.create)
}

/// Replaces the declarative text of an existing job: parses it (0); the job
/// must carry the label `this_label` (1) and be known (2); a loaded job is
/// unloaded (3) and reloaded at the end, an unloaded one stays unloaded.
pub fn update_yaml(env: &Env, yaml_content: &str, this_label: &str, p: &mut Progress, outcome: Outcome) -> (r: Step)
    requires
        update_ready(*old(p)),
    ensures
        r is Perform ==> update_ready(*final(p)),
        old(p).stage != 0 ==> final(p).text == old(p).text,
        old(p).stage >= 2 ==> final(p).task == old(p).task,
        old(p).stage == 0 ==> r is Perform && r->Perform_0 is ParseDeclarative
            && r->Perform_0->ParseDeclarative_0@ == yaml_content@ && final(p).text@ == yaml_content@ && final(p).stage == 1,
        1 <= old(p).stage <= 3 && outcome is Failed ==> fails_with(r, outcome->Failed_0),
        old(p).stage == 1 && outcome is Parsed && r is Perform ==> prepared_job(final(p).task->Some_0, outcome->Parsed_0, *env)
            && final(p).task->Some_0.config.label@ == this_label@ && performs(r, Action::ListJobs) && final(p).stage == 2,
        old(p).stage == 1 && outcome is Parsed && crate::config::namespaced(outcome->Parsed_0.label@) != this_label@ ==> fails(r),
        old(p).stage == 1 && !(r is Perform) ==> fails(r),
        old(p).stage == 2 && outcome is Listing ==> ({
            let t = old(p).task->Some_0;
            let label = t.config.label@;
            let inv = inventory_labels(outcome->Listing_1@, label);
            let live = listed(outcome->Listing_0@, label);
            &&& inv is None ==> fails(r) && r->Finish_0->Err_0 is FailedToReadMetaFolder
            &&& inv is Some && !live && !inv->Some_0.contains(label) ==> fails(r) && r->Finish_0->Err_0 is TaskDoesNotExist
            &&& inv is Some && live ==> performs(r, Action::Unload(t.plist_path)) && final(p).stage == 3
                && final(p).loaded && final(p).load_after
            &&& inv is Some && !live && inv->Some_0.contains(label) ==> performs(r, Action::MoveTree(t.out_dir, t.trash_out))
                && final(p).stage == 20 && !final(p).create && !final(p).load_after
        }),
        old(p).stage == 2 && !(outcome is Listing) ==> fails(r),
        old(p).stage == 3 && !(outcome is Failed) ==> performs(
            r,
            Action::MoveTree(old(p).task->Some_0.out_dir, old(p).task->Some_0.trash_out),
        ) && final(p).stage == 20 && !final(p).create && final(p).load_after == old(p).load_after,
        old(p).stage >= 20 ==> install_step(*old(p), outcome, r, final(p).stage),
        r is Perform && r->Perform_0 is Load ==> old(p).stage == 28 || old(p).stage == 29,
{
    let stage = p.stage;
    if stage >= 20 {
        return install(env, p, outcome);
    }
    if stage == 0 {
        p.text = yaml_content.to_owned();
        p.stage = 1;
        return Step::Perform(Action::ParseDeclarative(yaml_content.to_owned()));
    }
    if stage == 1 {
        match outcome {
            Outcome::Parsed(raw) => {
                match raw.validate() {
                    Err(e) => return Step::Finish(Err(e)),
                    Ok(c) => {
                        if !text_eq(c.label.as_str(), this_label) {
                            let mut m = join_text("label `", c.label.as_str());
                            m.append("` must be `");
                            m.append(this_label);
                            m.append("`");
                            return Step::Finish(Err(Error::WrongLabelInYaml(m)));
                        }
                        let ghost gc = c;
                        let t = prepare_task(env, c);
                        p.task = Some(t);
                        p.stage = 2;
                        return Step::Perform(Action::ListJobs);
                    },
                }
            },
            Outcome::Failed(e) => return Step::Finish(Err(e)),
            _ => return Step::Finish(Err(Error::YamlError("declarative text was not parsed".to_owned()))),
        }
    }
    let t = match &p.task {
        Some(t) => t,
        None => return Step::Finish(Err(Error::TaskDoesNotExist(String::new()))),
    };
    if stage == 2 {
        match outcome {
            Outcome::Listing(live, files) => {
                let label = t.config.label.as_str();
                match exist(live.as_str(), &files, label, env.out_dir.as_str()) {
                    Err(e) => Step::Finish(Err(e)),
                    Ok(false) => {
                        let mut m = join_text("task with label `", label);
                        m.append("` does not exist");
                        Step::Finish(Err(Error::TaskDoesNotExist(m)))
                    },
                    Ok(true) => {
                        let loaded = is_loaded(live.as_str(), label, env.out_dir.as_str());
                        p.loaded = loaded;
                        p.load_after = loaded;
                        p.create = false;
                        if loaded {
                            let a = Action::Unload(t.plist_path.clone());
                            p.stage = 3;
                            Step::Perform(a)
                        } else {
                            let a = Action::MoveTree(t.out_dir.clone(), t.trash_out.clone());
                            p.stage = 20;
                            Step::Perform(a)
                        }
                    },
                }
            },
            Outcome::Failed(e) => Step::Finish(Err(e)),
            _ => Step::Finish(Err(Error::LaunchctlListError("failed to list jobs".to_owned()))),
        }
    } else {
        match outcome {
            Outcome::Failed(e) => Step::Finish(Err(e)),
            _ => {
                let a = Action::MoveTree(t.out_dir.clone(), t.trash_out.clone());
                p.create = false;
                p.stage = 20;
                Step::Perform(a)
            },
        }
    }
}

/// The progress states that a load goes through.
pub open spec fn load_ready(p: Progress) -> bool {
    ||| p.stage <= 3
    ||| (20 <= p.stage <= 30 && p.task is Some && !p.create)
}

/// Loads a known, unloaded job from its canonical declarative text: the job
/// must not be loaded and must be known (1); its text is read (2), parsed (3),
/// validated and prepared, then installed and loaded.
pub fn load_task(env: &Env, task_label: &str, p: &mut Progress, outcome: Outcome) -> (r: Step)
    requires
        load_ready(*old(p)),
    ensures
        r is Perform ==> load_ready(*final(p)),
        old(p).stage != 2 ==> final(p).text == old(p).text,
        old(p).stage >= 20 ==> final(p).task == old(p).task,
        old(p).stage == 0 ==> performs(r, Action::ListJobs) && final(p).stage == 1,
        1 <= old(p).stage <= 3 && outcome is Failed ==> fails_with(r, outcome->Failed_0),
        old(p).stage == 1 && outcome is Listing ==> ({
            let inv = inventory_labels(outcome->Listing_1@, task_label@);
            let live = listed(outcome->Listing_0@, task_label@);
            &&& live ==> fails(r) && r->Finish_0->Err_0 is FailedToLoadTask
            &&& !live && inv is None ==> fails(r) && r->Finish_0->Err_0 is FailedToReadMetaFolder
            &&& !live && inv is Some && !inv->Some_0.contains(task_label@) ==> fails(r) && r->Finish_0->Err_0 is TaskDoesNotExist
            &&& !live && inv is Some && inv->Some_0.contains(task_label@) ==> r is Perform && r->Perform_0 is ReadText
                && r->Perform_0->ReadText_0@ == spec_meta_yaml(*env, task_label@) && final(p).stage == 2
        }),
        old(p).stage == 1 && !(outcome is Listing) ==> fails(r),
        old(p).stage == 2 && outcome is Text ==> performs(r, Action::ParseDeclarative(outcome->Text_0))
            && final(p).text == outcome->Text_0 && final(p).stage == 3,
        old(p).stage == 2 && !(outcome is Text) ==> fails(r),
        old(p).stage == 3 && outcome is Parsed && r is Perform ==> prepared_job(final(p).task->Some_0, outcome->Parsed_0, *env)
            && final(p).stage == 20 && !final(p).create && final(p).load_after && performs(
            r,
            Action::MoveTree(final(p).task->Some_0.out_dir, final(p).task->Some_0.trash_out),
        ),
        old(p).stage == 3 && !(r is Perform) ==> fails(r),
        old(p).stage >= 20 ==> install_step(*old(p), outcome, r, final(p).stage),
        r is Perform && r->Perform_0 is Load ==> old(p).stage == 28 || old(p).stage == 29,
{
    let stage = p.stage;
    if stage >= 20 {
        return install(env, p, outcome);
    }
    if stage == 0 {
        p.stage = 1;
        return Step::Perform(Action::ListJobs);
    }
    match outcome {
        Outcome::Listing(live, files) => {
            if stage == 1 {
                if is_loaded(live.as_str(), task_label, env.out_dir.as_str()) {
                    return Step::Finish(Err(Error::FailedToLoadTask("task is already loaded".to_owned())));
                }
                return match exist(live.as_str(), &files, task_label, env.out_dir.as_str()) {
                    Err(e) => Step::Finish(Err(e)),
                    Ok(false) => Step::Finish(Err(Error::TaskDoesNotExist("no such task to load".to_owned()))),
                    Ok(true) => {
                        p.stage = 2;
                        Step::Perform(Action::ReadText(env.get_meta_yaml(task_label)))
                    },
                };
            }
        },
        Outcome::Text(text) => {
            if stage == 2 {
                p.text = text.clone();
                p.stage = 3;
                return Step::Perform(Action::ParseDeclarative(text));
            }
        },
        Outcome::Parsed(raw) => {
            if stage == 3 {
                return start_install(env, p, raw, false, true);
            }
        },
        Outcome::Failed(e) => return Step::Finish(Err(e)),
        _ => {},
    }
    if stage == 1 {
        Step::Finish(Err(Error::LaunchctlListError("failed to list jobs".to_owned())))
    } else if stage == 2 {
        Step::Finish(Err(Error::NonUtfError("cannot find or read yaml file".to_owned())))
    } else {
        Step::Finish(Err(Error::YamlError("declarative text was not parsed".to_owned())))
    }
}

/// Unloads a job: lists the jobs (0), always asks the job-control tool to
/// unload the descriptor (1) and always removes the descriptor (2). It fails
/// exactly when the listing did not show the job loaded; a failure of the
/// unload verb or of the removal is not reported, since both are attempted
/// whatever came before.
pub fn unload_task(env: &Env, task_label: &str, p: &mut Progress, outcome: Outcome) -> (r: Step)
    requires
        old(p).stage <= 3,
    ensures
        r is Perform ==> final(p).stage == old(p).stage + 1,
        old(p).stage == 0 ==> performs(r, Action::ListJobs),
        old(p).stage == 1 && outcome is Listing ==> r is Perform && r->Perform_0 is Unload
            && r->Perform_0->Unload_0@ == spec_plist_path(task_label@) && final(p).loaded == listed(
            outcome->Listing_0@,
            task_label@,
        ),
        old(p).stage == 1 && outcome is Failed ==> fails_with(r, outcome->Failed_0),
        old(p).stage == 1 && !(outcome is Listing) ==> fails(r),
        old(p).stage == 2 ==> r is Perform && r->Perform_0 is RemoveFile && r->Perform_0->RemoveFile_0@
            == spec_plist_path(task_label@) && final(p).loaded == old(p).loaded,
        old(p).stage == 3 && !old(p).loaded ==> fails(r) && r->Finish_0->Err_0 is FailedToUnloadTask,
        old(p).stage == 3 && old(p).loaded ==> finishes_ok(r, Seq::empty()),
{
    let stage = p.stage;
    if stage == 0 {
        p.stage = 1;
        Step::Perform(Action::ListJobs)
    } else if stage == 1 {
        match outcome {
            Outcome::Listing(live, _) => {
                p.loaded = is_loaded(live.as_str(), task_label, env.out_dir.as_str());
                p.stage = 2;
                Step::Perform(Action::Unload(get_plist_path(task_label)))
            },
            Outcome::Failed(e) => Step::Finish(Err(e)),
            _ => Step::Finish(Err(Error::LaunchctlListError("failed to list jobs".to_owned()))),
        }
    } else if stage == 2 {
        p.stage = 3;
        Step::Perform(Action::RemoveFile(get_plist_path(task_label)))
    } else if !p.loaded {
        Step::Finish(Err(Error::FailedToUnloadTask("task is already unloaded or does not exist".to_owned())))
    } else {
        Step::Finish(Ok(String::new()))
    }
}

/// The action of each stage of deleting the job `label`.
pub open spec fn delete_action(env: Env, label: Seq<char>, stage: u32, a: Action) -> bool {
    let trash = spec_join_path(env.trash_dir@, label);
    if stage == 0 {
        a is Unload && a->Unload_0@ == spec_plist_path(label)
    } else if stage == 1 {
        a is RemoveFile && a->RemoveFile_0@ == spec_plist_path(label)
    } else if stage == 2 {
        a is MoveTree && a->MoveTree_0@ == spec_join_path(env.task_dir@, label) && a->MoveTree_1@ == trash
    } else if stage == 3 {
        a is CopyFile && a->CopyFile_0@ == spec_meta_yaml(env, label) && a->CopyFile_1@ == spec_join_path(
            trash,
            label + ".yaml"@,
        )
    } else if stage == 4 {
        a is RemoveFile && a->RemoveFile_0@ == spec_meta_yaml(env, label)
    } else {
        a is MoveTree && a->MoveTree_0@ == spec_join_path(env.out_dir@, label) && a->MoveTree_1@
            == spec_join_path(trash, "out"@)
    }
}

/// Deletes a job by moving its files to the trash: unloads it (0), removes its
/// descriptor (1), moves its task directory to the trash (2), copies its
/// declarative text there (3) and removes it from the meta folder (4), and
/// moves its output directory to the trash (5). Every step is attempted
/// whatever came of the others, and the deletion succeeds.
pub fn delete_task(env: &Env, task_label: &str, p: &mut Progress, outcome: Outcome) -> (r: Step)
    ensures
        old(p).stage < 6 ==> final(p).stage == old(p).stage + 1,
        old(p).stage < 6 ==> r is Perform && delete_action(*env, task_label@, old(p).stage, r->Perform_0),
        old(p).stage >= 6 ==> finishes_ok(r, Seq::empty()),
{
    let stage = p.stage;
    if stage >= 6 {
        return Step::Finish(Ok(String::new()));
    }
    let trash = env.get_trash_folder_name(task_label);
    let a = if stage == 0 {
        Action::Unload(get_plist_path(task_label))
    } else if stage == 1 {
        Action::RemoveFile(get_plist_path(task_label))
    } else if stage == 2 {
        Action::MoveTree(env.get_task_folder_name(task_label), trash)
    } else if stage == 3 {
        let file = join_text(task_label, ".yaml");
        Action::CopyFile(env.get_meta_yaml(task_label), join_path(trash.as_str(), file.as_str()))
    } else if stage == 4 {
        Action::RemoveFile(env.get_meta_yaml(task_label))
    } else {
        Action::MoveTree(env.get_output_folder_name(task_label), join_path(trash.as_str(), "out"))
    };
    p.stage = stage + 1;
    Step::Perform(a)
}

/// The canonical declarative text of a known job: lists the jobs (0) to check
/// that the job is known, then reads its text (1).
pub fn view_yaml(env: &Env, label: &str, p: &mut Progress, outcome: Outcome) -> (r: Step)
    ensures
        r is Perform ==> final(p).stage == old(p).stage + 1,
        old(p).stage == 0 ==> performs(r, Action::ListJobs),
        old(p).stage == 1 && outcome is Listing ==> ({
            let inv = inventory_labels(outcome->Listing_1@, label@);
            let known = listed(outcome->Listing_0@, label@) || (inv is Some && inv->Some_0.contains(label@));
            &&& inv is None ==> fails(r) && r->Finish_0->Err_0 is FailedToReadMetaFolder
            &&& inv is Some && !known ==> fails(r) && r->Finish_0->Err_0 is TaskDoesNotExist
            &&& inv is Some && known ==> r is Perform && r->Perform_0 is ReadText
                && r->Perform_0->ReadText_0@ == spec_meta_yaml(*env, label@)
        }),
        old(p).stage == 1 && !(outcome is Listing) ==> fails(r),
        old(p).stage >= 2 && outcome is Text ==> finishes_ok(r, outcome->Text_0@),
        old(p).stage >= 2 && !(outcome is Text) ==> fails(r) && r->Finish_0->Err_0 is NonUtfError,
{
    let stage = p.stage;
    if stage == 0 {
        p.stage = 1;
        return Step::Perform(Action::ListJobs);
    }
    if stage == 1 {
        return match outcome {
            Outcome::Listing(live, files) => match exist(live.as_str(), &files, label, env.out_dir.as_str()) {
                Err(e) => Step::Finish(Err(e)),
                Ok(false) => Step::Finish(Err(Error::TaskDoesNotExist("attempting to view yaml of non-existent tasks".to_owned()))),
                Ok(true) => {
                    p.stage = 2;
                    Step::Perform(Action::ReadText(env.get_meta_yaml(label)))
                },
            },
            Outcome::Failed(e) => Step::Finish(Err(e)),
            _ => Step::Finish(Err(Error::LaunchctlListError("failed to list jobs".to_owned()))),
        };
    }
    match outcome {
        Outcome::Text(t) => Step::Finish(Ok(t)),
        _ => Step::Finish(Err(Error::NonUtfError("cannot find or read yaml file".to_owned()))),
    }
}

/// The lines of `ls` that hold `pattern`.
pub open spec fn matching_lines(ls: Seq<Seq<char>>, pattern: Seq<char>) -> Seq<Seq<char>>
    decreases ls.len(),
{
    if ls.len() == 0 {
        ls
    } else if occurs_in(pattern, ls.last()) {
        matching_lines(ls.drop_last(), pattern).push(ls.last())
    } else {
        matching_lines(ls.drop_last(), pattern)
    }
}

/// The last `n` elements of `s`, or all of them when there are fewer.
pub open spec fn last_n(s: Seq<Seq<char>>, n: nat) -> Seq<Seq<char>> {
    if s.len() > n {
        s.subrange(s.len() - n, s.len() as int)
    } else {
        s
    }
}

/// Lines joined by line breaks.
pub open spec fn joined_lines(s: Seq<Seq<char>>) -> Seq<char>
    decreases s.len(),
{
    if s.len() == 0 {
        Seq::empty()
    } else if s.len() == 1 {
        s[0]
    } else {
        joined_lines(s.drop_last()) + "\n"@ + s.last()
    }
}

/// The last `n` lines of `text` that hold `pattern`, joined by line breaks.
pub fn read_last_n_lines(text: &str, n: usize, pattern: &str) -> (r: String)
    ensures
        r@ == joined_lines(last_n(matching_lines(lines_of(text@), pattern@), n as nat)),
{
    let lines = crate::tasks::text_lines(text);
    let ghost ls = lines_of(text@);
    let mut kept: Vec<String> = Vec::new();
    let len = lines.len();
    let mut i: usize = 0;
    assert(ls.subrange(0, 0) =~= Seq::<Seq<char>>::empty());
    while i < len
        invariant
            lines.deep_view() == ls,
            len == ls.len(),
            i <= len,
            kept.deep_view() == matching_lines(ls.subrange(0, i as int), pattern@),
        decreases len - i,
    {
        let ghost pre = ls.subrange(0, i + 1);
        assert(pre.drop_last() =~= ls.subrange(0, i as int));
        assert(lines[i as int]@ == ls[i as int]);
        if contains(lines[i].as_str(), pattern) {
            kept.push(lines[i].clone());
            assert(kept.deep_view() =~= matching_lines(pre, pattern@));
        }
        i = i + 1;
    }
    assert(ls.subrange(0, len as int) =~= ls);
    let ghost m = kept.deep_view();
    let k = kept.len();
    let start: usize = if k > n { k - n } else { 0 };
    let ghost tail = last_n(m, n as nat);
    assert(tail =~= m.subrange(start as int, k as int));
    let mut out = String::new();
    let mut j: usize = start;
    assert(m.subrange(start as int, start as int) =~= Seq::<Seq<char>>::empty());
    while j < k
        invariant
            kept.deep_view() == m,
            k == m.len(),
            start <= j <= k,
            out@ == joined_lines(m.subrange(start as int, j as int)),
        decreases k - j,
    {
        let ghost pre = m.subrange(start as int, j + 1);
        assert(pre.drop_last() =~= m.subrange(start as int, j as int));
        assert(kept[j as int]@ == m[j as int]);
        if j > start {
            out.append("\n");
        }
        out.append(kept[j].as_str());
        assert(out@ =~= joined_lines(pre));
        j = j + 1;
    }
    out
}

fn view_output(env: &Env, label: &str, file: &str, limit: usize, pattern: &str, p: &mut Progress, outcome: Outcome) -> (r: Step)
    ensures
        r is Perform ==> final(p).stage == old(p).stage + 1,
        old(p).stage == 0 ==> r is Perform && r->Perform_0 is ReadText && r->Perform_0->ReadText_0@ == spec_join_path(
            spec_join_path(env.out_dir@, label@),
            file@,
        ),
        old(p).stage >= 1 && outcome is Text ==> finishes_ok(
            r,
            joined_lines(last_n(matching_lines(lines_of(outcome->Text_0@), pattern@), limit as nat)),
        ),
        old(p).stage >= 1 && !(outcome is Text) ==> fails(r) && r->Finish_0->Err_0 is NonUtfError,
{
    if p.stage == 0 {
        p.stage = 1;
        let dir = env.get_output_folder_name(label);
        return Step::Perform(Action::ReadText(join_path(dir.as_str(), file)));
    }
    match outcome {
        Outcome::Text(t) => Step::Finish(Ok(read_last_n_lines(t.as_str(), limit, pattern))),
        _ => {
            let mut m = join_text("task `", label);
            m.append("` has not been created or its output has not been created");
            Step::Finish(Err(Error::NonUtfError(m)))
        },
    }
}

/// The last `limit` lines of the job's standard output that hold `pattern`:
/// reads the file (0), then answers (1).
pub fn view_std_out(env: &Env, label: &str, limit: usize, pattern: &str, p: &mut Progress, outcome: Outcome) -> (r: Step)
    ensures
        r is Perform ==> final(p).stage == old(p).stage + 1,
        old(p).stage == 0 ==> r is Perform && r->Perform_0 is ReadText && r->Perform_0->ReadText_0@ == spec_join_path(
            spec_join_path(env.out_dir@, label@),
            "stdout.log"@,
        ),
        old(p).stage >= 1 && outcome is Text ==> finishes_ok(
            r,
            joined_lines(last_n(matching_lines(lines_of(outcome->Text_0@), pattern@), limit as nat)),
        ),
        old(p).stage >= 1 && !(outcome is Text) ==> fails(r) && r->Finish_0->Err_0 is NonUtfError,
{
    view_output(env, label, "stdout.log", limit, pattern, p, outcome)
}

/// The last `limit` lines of the job's standard error that hold `pattern`:
/// reads the file (0), then answers (1).
pub fn view_std_err(env: &Env, label: &str, limit: usize, pattern: &str, p: &mut Progress, outcome: Outcome) -> (r: Step)
    ensures
        r is Perform ==> final(p).stage == old(p).stage + 1,
        old(p).stage == 0 ==> r is Perform && r->Perform_0 is ReadText && r->Perform_0->ReadText_0@ == spec_join_path(
            spec_join_path(env.out_dir@, label@),
            "stderr.log"@,
        ),
        old(p).stage >= 1 && outcome is Text ==> finishes_ok(
            r,
            joined_lines(last_n(matching_lines(lines_of(outcome->Text_0@), pattern@), limit as nat)),
        ),
        old(p).stage >= 1 && !(outcome is Text) ==> fails(r) && r->Finish_0->Err_0 is NonUtfError,
{
    view_output(env, label, "stderr.log", limit, pattern, p, outcome)
}

} // verus!
