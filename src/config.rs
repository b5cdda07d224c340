use crate::error::{message, Error};
use crate::text::{
    decimal_text, int_text, is_prefix, join_text, label_matches, regex_is_match, seq_lt,
    starts_with, text_less,
};
use vstd::prelude::*;

verus! {

/// A launchd job: its namespaced label, the absolute path of its program, and
/// its options, at most one of each kind, in the order they were added.
#[derive(Debug, Clone, PartialEq)]
pub struct Configuration {
    pub label: String,
    pub program: String,
    pub configuration: Vec<Config>,
}

/// One option of a job. Maps are held as lists of pairs whose keys are
/// strictly ascending.
#[derive(Debug, Clone, PartialEq)]
pub enum Config {
    ProgramArguments(Vec<String>),
    EnvironmentVariables(Vec<(String, String)>),
    KeepAlive(AliveCondition),
    RunAtLoad(bool),
    WorkingDirectory(String),
    UserName(String),
    GroupName(String),
    RootDirectory(String),
    ExitTimeOut(i64),
    StartInterval(i64),
    StartCalendarInterval(Vec<CalendarInterval>),
    StandardInPath(String),
    StandardOutPath(String),
    StandardErrorPath(String),
    SoftResourceLimit(ResourceLimit),
    HardResourceLimits(ResourceLimit),
}

/// The kind of an option: the key under which a job holds at most one option.
#[derive(Debug, Clone, Copy, PartialEq, Eq, Structural)]
pub enum ConfigKind {
    ProgramArguments,
    EnvironmentVariables,
    KeepAlive,
    RunAtLoad,
    WorkingDirectory,
    UserName,
    GroupName,
    RootDirectory,
    ExitTimeOut,
    StartInterval,
    StartCalendarInterval,
    StandardInPath,
    StandardOutPath,
    StandardErrorPath,
    SoftResourceLimit,
    HardResourceLimits,
}

/// When launchd keeps the job alive.
#[derive(Debug, Clone, PartialEq)]
pub struct AliveCondition {
    pub successful_exit: Option<bool>,
    pub other_job_enabled: Option<Vec<(String, bool)>>,
    pub crashed: Option<bool>,
}

/// A calendar trigger; each field that is present must match.
#[derive(Debug, Clone, Copy, PartialEq, Eq, Structural)]
pub struct CalendarInterval {
    pub minute: Option<i64>,
    pub hour: Option<i64>,
    pub day: Option<i64>,
    pub weekday: Option<i64>,
    pub month: Option<i64>,
}

/// Resource limits of the job's process.
#[derive(Debug, Clone, Copy, PartialEq, Eq, Structural)]
pub struct ResourceLimit {
    pub cpu: Option<i64>,
    pub file_size: Option<i64>,
    pub number_of_files: Option<i64>,
    pub number_of_processes: Option<i64>,
    pub resident_set_size: Option<i64>,
    pub stack: Option<i64>,
}

pub open spec fn kind_of(c: Config) -> ConfigKind {
    match c {
        Config::ProgramArguments(_) => ConfigKind::ProgramArguments,
        Config::EnvironmentVariables(_) => ConfigKind::EnvironmentVariables,
        Config::KeepAlive(_) => ConfigKind::KeepAlive,
        Config::RunAtLoad(_) => ConfigKind::RunAtLoad,
        Config::WorkingDirectory(_) => ConfigKind::WorkingDirectory,
        Config::UserName(_) => ConfigKind::UserName,
        Config::GroupName(_) => ConfigKind::GroupName,
        Config::RootDirectory(_) => ConfigKind::RootDirectory,
        Config::ExitTimeOut(_) => ConfigKind::ExitTimeOut,
        Config::StartInterval(_) => ConfigKind::StartInterval,
        Config::StartCalendarInterval(_) => ConfigKind::StartCalendarInterval,
        Config::StandardInPath(_) => ConfigKind::StandardInPath,
        Config::StandardOutPath(_) => ConfigKind::StandardOutPath,
        Config::StandardErrorPath(_) => ConfigKind::StandardErrorPath,
        Config::SoftResourceLimit(_) => ConfigKind::SoftResourceLimit,
        Config::HardResourceLimits(_) => ConfigKind::HardResourceLimits,
    }
}

/// The kind whose name is `name`, the name under which the option is written.
pub open spec fn kind_named(name: Seq<char>) -> Option<ConfigKind> {
    if name == "ProgramArguments"@ {
        Some(ConfigKind::ProgramArguments)
    } else if name == "EnvironmentVariables"@ {
        Some(ConfigKind::EnvironmentVariables)
    } else if name == "KeepAlive"@ {
        Some(ConfigKind::KeepAlive)
    } else if name == "RunAtLoad"@ {
        Some(ConfigKind::RunAtLoad)
    } else if name == "WorkingDirectory"@ {
        Some(ConfigKind::WorkingDirectory)
    } else if name == "UserName"@ {
        Some(ConfigKind::UserName)
    } else if name == "GroupName"@ {
        Some(ConfigKind::GroupName)
    } else if name == "RootDirectory"@ {
        Some(ConfigKind::RootDirectory)
    } else if name == "ExitTimeOut"@ {
        Some(ConfigKind::ExitTimeOut)
    } else if name == "StartInterval"@ {
        Some(ConfigKind::StartInterval)
    } else if name == "StartCalendarInterval"@ {
        Some(ConfigKind::StartCalendarInterval)
    } else if name == "StandardInPath"@ {
        Some(ConfigKind::StandardInPath)
    } else if name == "StandardOutPath"@ {
        Some(ConfigKind::StandardOutPath)
    } else if name == "StandardErrorPath"@ {
        Some(ConfigKind::StandardErrorPath)
    } else if name == "SoftResourceLimit"@ {
        Some(ConfigKind::SoftResourceLimit)
    } else if name == "HardResourceLimits"@ {
        Some(ConfigKind::HardResourceLimits)
    } else {
        None
    }
}

/// The name under which an option of kind `k` is written.
pub open spec fn kind_name(k: ConfigKind) -> Seq<char> {
    match k {
        ConfigKind::ProgramArguments => "ProgramArguments"@,
        ConfigKind::EnvironmentVariables => "EnvironmentVariables"@,
        ConfigKind::KeepAlive => "KeepAlive"@,
        ConfigKind::RunAtLoad => "RunAtLoad"@,
        ConfigKind::WorkingDirectory => "WorkingDirectory"@,
        ConfigKind::UserName => "UserName"@,
        ConfigKind::GroupName => "GroupName"@,
        ConfigKind::RootDirectory => "RootDirectory"@,
        ConfigKind::ExitTimeOut => "ExitTimeOut"@,
        ConfigKind::StartInterval => "StartInterval"@,
        ConfigKind::StartCalendarInterval => "StartCalendarInterval"@,
        ConfigKind::StandardInPath => "StandardInPath"@,
        ConfigKind::StandardOutPath => "StandardOutPath"@,
        ConfigKind::StandardErrorPath => "StandardErrorPath"@,
        ConfigKind::SoftResourceLimit => "SoftResourceLimit"@,
        ConfigKind::HardResourceLimits => "HardResourceLimits"@,
    }
}

/// The index of the first option of kind `k`, if any.
pub open spec fn first_of_kind(s: Seq<Config>, k: ConfigKind) -> Option<int>
    decreases s.len(),
{
    if s.len() == 0 {
        None
    } else if kind_of(s.last()) == k && first_of_kind(s.drop_last(), k) is None {
        Some(s.len() - 1)
    } else {
        first_of_kind(s.drop_last(), k)
    }
}

/// The options after adding `c`: it replaces the first option of its kind, in
/// place, or else it is appended.
pub open spec fn upserted(s: Seq<Config>, c: Config) -> Seq<Config> {
    match first_of_kind(s, kind_of(c)) {
        Some(i) => s.update(i, c),
        None => s.push(c),
    }
}

/// The options without those of kind `k`, the others in their order.
pub open spec fn without_kind(s: Seq<Config>, k: ConfigKind) -> Seq<Config> {
    s.filter(not_of_kind(k))
}

/// Whether an option is of another kind than `k`.
pub open spec fn not_of_kind(k: ConfigKind) -> spec_fn(Config) -> bool {
    |c: Config| kind_of(c) != k
}

/// No two options share a kind.
pub open spec fn kinds_unique(s: Seq<Config>) -> bool {
    forall|i: int, j: int|
        0 <= i < s.len() && 0 <= j < s.len() && i != j ==> kind_of(s[i]) != kind_of(s[j])
}

pub proof fn lemma_first_of_kind(s: Seq<Config>, k: ConfigKind)
    ensures
        match first_of_kind(s, k) {
            Some(i) => 0 <= i < s.len() && kind_of(s[i]) == k && forall|j: int|
                0 <= j < i ==> kind_of(#[trigger] s[j]) != k,
            None => forall|j: int| 0 <= j < s.len() ==> kind_of(#[trigger] s[j]) != k,
        },
    decreases s.len(),
{
    if s.len() > 0 {
        let t = s.drop_last();
        lemma_first_of_kind(t, k);
        assert forall|j: int| 0 <= j < s.len() - 1 implies s[j] == #[trigger] t[j] by {}
        match first_of_kind(t, k) {
            Some(i) => {
                assert forall|j: int| 0 <= j < i implies kind_of(#[trigger] s[j]) != k by {
                    assert(s[j] == t[j]);
                }
            },
            None => {
                assert forall|j: int| 0 <= j < s.len() - 1 implies kind_of(#[trigger] s[j]) != k by {
                    assert(s[j] == t[j]);
                }
            },
        }
    }
}

impl Config {
    /// The kind of this option.
    pub fn kind(&self) -> (k: ConfigKind)
        ensures
            k == kind_of(*self),
    {
        match self {
            Config::ProgramArguments(_) => ConfigKind::ProgramArguments,
            Config::EnvironmentVariables(_) => ConfigKind::EnvironmentVariables,
            Config::KeepAlive(_) => ConfigKind::KeepAlive,
            Config::RunAtLoad(_) => ConfigKind::RunAtLoad,
            Config::WorkingDirectory(_) => ConfigKind::WorkingDirectory,
            Config::UserName(_) => ConfigKind::UserName,
            Config::GroupName(_) => ConfigKind::GroupName,
            Config::RootDirectory(_) => ConfigKind::RootDirectory,
            Config::ExitTimeOut(_) => ConfigKind::ExitTimeOut,
            Config::StartInterval(_) => ConfigKind::StartInterval,
            Config::StartCalendarInterval(_) => ConfigKind::StartCalendarInterval,
            Config::StandardInPath(_) => ConfigKind::StandardInPath,
            Config::StandardOutPath(_) => ConfigKind::StandardOutPath,
            Config::StandardErrorPath(_) => ConfigKind::StandardErrorPath,
            Config::SoftResourceLimit(_) => ConfigKind::SoftResourceLimit,
            Config::HardResourceLimits(_) => ConfigKind::HardResourceLimits,
        }
    }
}

impl ConfigKind {
    /// The name under which an option of this kind is written.
    pub fn name(&self) -> (r: &'static str)
        ensures
            r@ == kind_name(*self),
    {
        match self {
            ConfigKind::ProgramArguments => "ProgramArguments",
            ConfigKind::EnvironmentVariables => "EnvironmentVariables",
            ConfigKind::KeepAlive => "KeepAlive",
            ConfigKind::RunAtLoad => "RunAtLoad",
            ConfigKind::WorkingDirectory => "WorkingDirectory",
            ConfigKind::UserName => "UserName",
            ConfigKind::GroupName => "GroupName",
            ConfigKind::RootDirectory => "RootDirectory",
            ConfigKind::ExitTimeOut => "ExitTimeOut",
            ConfigKind::StartInterval => "StartInterval",
            ConfigKind::StartCalendarInterval => "StartCalendarInterval",
            ConfigKind::StandardInPath => "StandardInPath",
            ConfigKind::StandardOutPath => "StandardOutPath",
            ConfigKind::StandardErrorPath => "StandardErrorPath",
            ConfigKind::SoftResourceLimit => "SoftResourceLimit",
            ConfigKind::HardResourceLimits => "HardResourceLimits",
        }
    }

    /// The kind written as `name`, if there is one.
    pub fn from_name(name: &str) -> (r: Option<ConfigKind>)
        ensures
            r == kind_named(name@),
    {
        if crate::text::text_eq(name, "ProgramArguments") {
            Some(ConfigKind::ProgramArguments)
        } else if crate::text::text_eq(name, "EnvironmentVariables") {
            Some(ConfigKind::EnvironmentVariables)
        } else if crate::text::text_eq(name, "KeepAlive") {
            Some(ConfigKind::KeepAlive)
        } else if crate::text::text_eq(name, "RunAtLoad") {
            Some(ConfigKind::RunAtLoad)
        } else if crate::text::text_eq(name, "WorkingDirectory") {
            Some(ConfigKind::WorkingDirectory)
        } else if crate::text::text_eq(name, "UserName") {
            Some(ConfigKind::UserName)
        } else if crate::text::text_eq(name, "GroupName") {
            Some(ConfigKind::GroupName)
        } else if crate::text::text_eq(name, "RootDirectory") {
            Some(ConfigKind::RootDirectory)
        } else if crate::text::text_eq(name, "ExitTimeOut") {
            Some(ConfigKind::ExitTimeOut)
        } else if crate::text::text_eq(name, "StartInterval") {
            Some(ConfigKind::StartInterval)
        } else if crate::text::text_eq(name, "StartCalendarInterval") {
            Some(ConfigKind::StartCalendarInterval)
        } else if crate::text::text_eq(name, "StandardInPath") {
            Some(ConfigKind::StandardInPath)
        } else if crate::text::text_eq(name, "StandardOutPath") {
            Some(ConfigKind::StandardOutPath)
        } else if crate::text::text_eq(name, "StandardErrorPath") {
            Some(ConfigKind::StandardErrorPath)
        } else if crate::text::text_eq(name, "SoftResourceLimit") {
            Some(ConfigKind::SoftResourceLimit)
        } else if crate::text::text_eq(name, "HardResourceLimits") {
            Some(ConfigKind::HardResourceLimits)
        } else {
            None
        }
    }
}

impl Configuration {
    /// A job with the given label and program and no options.
    pub fn new(label: &str, program: &str) -> (r: Configuration)
        ensures
            r.label@ == label@,
            r.program@ == program@,
            r.configuration@.len() == 0,
    {
        Configuration {
            label: label.to_owned(),
            program: program.to_owned(),
            configuration: Vec::new(),
        }
    }

    /// Adds `config`, or replaces in place the option of its kind. Checks nothing.
    pub fn add_config(self, config: Config) -> (r: Configuration)
        ensures
            r.label == self.label,
            r.program == self.program,
            r.configuration@ == upserted(self.configuration@, config),
    {
        let mut this = self;
        let k = config.kind();
        let n = this.configuration.len();
        let mut i: usize = 0;
        proof {
            lemma_first_of_kind(this.configuration@, k);
        }
        while i < n
            invariant
                this.label == self.label,
                this.program == self.program,
                this.configuration@ == self.configuration@,
                n == this.configuration@.len(),
                i <= n,
                k == kind_of(config),
                forall|j: int| 0 <= j < i ==> kind_of(#[trigger] this.configuration@[j]) != k,
                match first_of_kind(this.configuration@, k) {
                    Some(f) => 0 <= f < n && kind_of(this.configuration@[f]) == k && forall|j: int|
                        0 <= j < f ==> kind_of(#[trigger] this.configuration@[j]) != k,
                    None => forall|j: int|
                        0 <= j < n ==> kind_of(#[trigger] this.configuration@[j]) != k,
                },
            decreases n - i,
        {
            if this.configuration[i].kind() == k {
                proof {
                    match first_of_kind(this.configuration@, k) {
                        Some(f) => {
                            if f < i as int {
                            } else if f > i as int {
                                assert(kind_of(this.configuration@[i as int]) != k);
                            }
                        },
                        None => {},
                    }
                }
                this.configuration.set(i, config);
                return this;
            }
            i = i + 1;
        }
        this.configuration.push(config);
        this
    }

    /// Removes every option whose kind is written `config_name`; the others keep
    /// their order. A name of no kind removes nothing.
    pub fn remove_config(self, config_name: &str) -> (r: Configuration)
        ensures
            r.label == self.label,
            r.program == self.program,
            r.configuration@ == match kind_named(config_name@) {
                Some(k) => without_kind(self.configuration@, k),
                None => self.configuration@,
            },
    {
        match ConfigKind::from_name(config_name) {
            None => self,
            Some(k) => {
                let mut this = self;
                let ghost s = this.configuration@;
                let mut rest = this.configuration;
                let mut kept: Vec<Config> = Vec::new();
                let ghost mut taken: int = 0;
                while rest.len() > 0
                    invariant
                        0 <= taken <= s.len(),
                        rest@ == s.subrange(taken, s.len() as int),
                        kept@ == without_kind(s.subrange(0, taken), k),
                    decreases rest@.len(),
                {
                    let c = rest.remove(0);
                    proof {
                        let pre = s.subrange(0, taken + 1);
                        assert(pre.drop_last() == s.subrange(0, taken));
                        assert(pre.last() == c);
                        reveal(Seq::filter);
                        taken = taken + 1;
                        assert(rest@ == s.subrange(taken, s.len() as int));
                    }
                    if c.kind() != k {
                        kept.push(c);
                    }
                }
                assert(s.subrange(0, taken) == s);
                this.configuration = kept;
                this
            },
        }
    }
}

/// What a job holds, as plain values.
pub struct JobView {
    pub label: Seq<char>,
    pub program: Seq<char>,
    pub options: Seq<Config>,
}

impl View for Configuration {
    type V = JobView;

    open spec fn view(&self) -> JobView {
        JobView { label: self.label@, program: self.program@, options: self.configuration@ }
    }
}

/// The namespace that every job label is put under.
pub open spec fn label_prefix() -> Seq<char> {
    "com.tasker.tasks."@
}

/// A label put under the namespace.
pub open spec fn namespaced(l: Seq<char>) -> Seq<char> {
    label_prefix() + l
}

/// A label as it is written in the declarative text: without the namespace.
pub open spec fn spec_declared_label(l: Seq<char>) -> Seq<char> {
    if is_prefix(label_prefix(), l) {
        l.subrange(label_prefix().len() as int, l.len() as int)
    } else {
        l
    }
}

/// A path is absolute when it starts at the root.
pub open spec fn is_absolute(p: Seq<char>) -> bool {
    is_prefix("/"@, p)
}

/// An optional value lies in `[lo, hi]`, or is absent.
pub open spec fn in_range(v: Option<i64>, lo: int, hi: int) -> bool {
    match v {
        Some(x) => lo <= x && x <= hi,
        None => true,
    }
}

pub open spec fn calendar_in_range(c: CalendarInterval) -> bool {
    &&& in_range(c.minute, 0, 59)
    &&& in_range(c.hour, 0, 23)
    &&& in_range(c.day, 1, 31)
    &&& in_range(c.weekday, 0, 7)
    &&& in_range(c.month, 1, 12)
}

pub open spec fn limit_in_range(l: ResourceLimit) -> bool {
    &&& in_range(l.file_size, 0, i64::MAX as int)
    &&& in_range(l.number_of_files, 0, i64::MAX as int)
    &&& in_range(l.number_of_processes, 0, 500)
    &&& in_range(l.resident_set_size, 0, i64::MAX as int)
    &&& in_range(l.stack, 0, 67104768)
}

/// The keys of a map held as pairs are strictly ascending, hence unique.
pub open spec fn keys_ascending<V>(m: Seq<(String, V)>) -> bool {
    forall|i: int| 0 <= i < m.len() - 1 ==> seq_lt(#[trigger] m[i].0@, m[i + 1].0@)
}

/// Whether the option names a directory or a file that must exist.
pub open spec fn names_path(c: Config) -> bool {
    ||| c is WorkingDirectory
    ||| c is RootDirectory
    ||| c is StandardInPath
    ||| c is StandardOutPath
    ||| c is StandardErrorPath
}

/// Whether an option is valid, given whether the path it names exists (a
/// directory for the two directory options, a file for the three others).
pub open spec fn option_ok(c: Config, path_exists: bool) -> bool {
    if names_path(c) {
        path_exists
    } else {
        match c {
            Config::EnvironmentVariables(m) => keys_ascending(m@),
            Config::KeepAlive(a) => match a.other_job_enabled {
                Some(m) => keys_ascending(m@),
                None => true,
            },
            Config::ExitTimeOut(t) => t >= 0,
            Config::StartInterval(t) => t >= 0,
            Config::StartCalendarInterval(v) => forall|i: int|
                0 <= i < v@.len() ==> calendar_in_range(#[trigger] v@[i]),
            Config::SoftResourceLimit(l) => limit_in_range(l),
            Config::HardResourceLimits(l) => limit_in_range(l),
            _ => true,
        }
    }
}

/// The error that an invalid option is reported with.
pub open spec fn option_error_fits(c: Config, e: Error) -> bool {
    if names_path(c) {
        e is ConfigPathError
    } else {
        match c {
            Config::EnvironmentVariables(_) => e is YamlError,
            Config::KeepAlive(_) => e is YamlError,
            _ => e is ConfigRangeError,
        }
    }
}

/// The message an invalid option is reported with.
pub open spec fn option_fault(c: Config) -> Seq<char> {
    match c {
        Config::EnvironmentVariables(_) => "keys of `EnvironmentVariables` must be unique and sorted"@,
        Config::KeepAlive(_) => "keys of `OtherJobEnabled` must be unique and sorted"@,
        Config::ExitTimeOut(t) => range_text("ExitTimeOut"@, t as int, 0, i64::MAX as int),
        Config::StartInterval(t) => range_text("StartInterval"@, t as int, 0, i64::MAX as int),
        Config::StartCalendarInterval(v) => calendar_fault(
            v@[choose|i: int| #[trigger] first_bad_calendar(v@, i)],
        )->Some_0,
        Config::SoftResourceLimit(l) => limit_fault(l)->Some_0,
        Config::HardResourceLimits(l) => limit_fault(l)->Some_0,
        Config::WorkingDirectory(p) => path_text(p@, "directory"@),
        Config::RootDirectory(p) => path_text(p@, "directory"@),
        Config::StandardInPath(p) => path_text(p@, "file"@),
        Config::StandardOutPath(p) => path_text(p@, "file"@),
        Config::StandardErrorPath(p) => path_text(p@, "file"@),
        _ => Seq::empty(),
    }
}

/// The message of a label that is not dot-separated runs of `[A-Za-z0-9_]`.
pub open spec fn label_fault(label: Seq<char>) -> Seq<char> {
    "`"@ + label + "` is not a valid label"@
}

/// The message of a program path that is not absolute.
pub open spec fn relative_program_fault(program: Seq<char>) -> Seq<char> {
    "program path `"@ + program + "` is not an absolute path"@
}

/// The message of a program that is not a file.
pub open spec fn missing_program_fault(program: Seq<char>) -> Seq<char> {
    "program `"@ + program + "` is not found or not permitted to access"@
}

/// The first `n` options are valid.
pub open spec fn options_ok_upto(s: Seq<Config>, paths_exist: Seq<bool>, n: int) -> bool {
    forall|j: int| 0 <= j < n ==> option_ok(#[trigger] s[j], paths_exist[j])
}

/// Whether validation accepts a job, given whether its program is a file and
/// whether the path of each option exists.
pub open spec fn accepted(v: JobView, program_is_file: bool, paths_exist: Seq<bool>) -> bool {
    &&& label_matches(v.label)
    &&& is_absolute(v.program)
    &&& program_is_file
    &&& paths_exist.len() == v.options.len()
    &&& options_ok_upto(v.options, paths_exist, v.options.len() as int)
}

/// The options after adding each of `s` in turn.
pub open spec fn upsert_all(s: Seq<Config>) -> Seq<Config>
    decreases s.len(),
{
    if s.len() == 0 {
        s
    } else {
        upserted(upsert_all(s.drop_last()), s.last())
    }
}

/// The job that validation makes of an accepted job.
pub open spec fn validated(v: JobView) -> JobView {
    JobView { label: namespaced(v.label), program: v.program, options: upsert_all(v.options) }
}

/// The job as the declarative text writes it.
pub open spec fn declarative(v: JobView) -> JobView {
    JobView { label: spec_declared_label(v.label), program: v.program, options: v.options }
}

/// Relies on std::path::Path::is_dir; the answer depends on the disk.
#[verifier::external_body]
fn path_is_dir(p: &str) -> bool {
    std::path::Path::new(p).is_dir()
}

/// Relies on std::path::Path::is_file; the answer depends on the disk.
#[verifier::external_body]
fn path_is_file(p: &str) -> bool {
    std::path::Path::new(p).is_file()
}

/// The message of a range error: "`name` with value `v` is out of range (lo, hi)".
/// The message of a value out of its range.
pub open spec fn range_text(name: Seq<char>, v: int, lo: int, hi: int) -> Seq<char> {
    "`"@ + name + "` with value `"@ + decimal_text(v) + "` is out of range ("@ + decimal_text(lo) + ", "@
        + decimal_text(hi) + ")"@
}

/// The message of the first field out of range, if any.
pub open spec fn range_fault(name: Seq<char>, v: Option<i64>, lo: int, hi: int) -> Option<Seq<char>> {
    if in_range(v, lo, hi) {
        None
    } else {
        Some(range_text(name, v->Some_0 as int, lo, hi))
    }
}

/// The first of two faults.
pub open spec fn first_fault(a: Option<Seq<char>>, b: Option<Seq<char>>) -> Option<Seq<char>> {
    if a is Some {
        a
    } else {
        b
    }
}

/// The message for the first field of a calendar interval out of range, in
/// the order minute, hour, day, weekday, month.
pub open spec fn calendar_fault(c: CalendarInterval) -> Option<Seq<char>> {
    first_fault(
        range_fault("minute"@, c.minute, 0, 59),
        first_fault(
            range_fault("hour"@, c.hour, 0, 23),
            first_fault(
                range_fault("day"@, c.day, 1, 31),
                first_fault(range_fault("weekday"@, c.weekday, 0, 7), range_fault("month"@, c.month, 1, 12)),
            ),
        ),
    )
}

/// The message for the first field of a resource limit out of range, in the
/// order file size, number of files, number of processes, resident set size,
/// stack.
pub open spec fn limit_fault(l: ResourceLimit) -> Option<Seq<char>> {
    first_fault(
        range_fault("file_size"@, l.file_size, 0, i64::MAX as int),
        first_fault(
            range_fault("number_of_files"@, l.number_of_files, 0, i64::MAX as int),
            first_fault(
                range_fault("number_of_processes"@, l.number_of_processes, 0, 500),
                first_fault(
                    range_fault("resident_set_size"@, l.resident_set_size, 0, i64::MAX as int),
                    range_fault("stack"@, l.stack, 0, 67104768),
                ),
            ),
        ),
    )
}

fn range_message(name: &str, v: i64, lo: i64, hi: i64) -> (r: String)
    ensures
        r@ == range_text(name@, v as int, lo as int, hi as int),
{
    let mut m = join_text("`", name);
    m.append("` with value `");
    m.append(int_text(v).as_str());
    m.append("` is out of range (");
    m.append(int_text(lo).as_str());
    m.append(", ");
    m.append(int_text(hi).as_str());
    m.append(")");
    assert(m@ =~= range_text(name@, v as int, lo as int, hi as int));
    m
}

fn check_range(name: &str, v: Option<i64>, lo: i64, hi: i64) -> (r: Result<(), Error>)
    ensures
        r is Ok <==> in_range(v, lo as int, hi as int),
        r is Err ==> r->Err_0 is ConfigRangeError && message(r->Err_0) == range_fault(name@, v, lo as int, hi as int)->Some_0,
{
    match v {
        Some(x) => {
            if x < lo || x > hi {
                Err(Error::ConfigRangeError(range_message(name, x, lo, hi)))
            } else {
                Ok(())
            }
        },
        None => Ok(()),
    }
}

fn keys_are_ascending<V>(m: &Vec<(String, V)>) -> (r: bool)
    ensures
        r == keys_ascending(m@),
{
    let n = m.len();
    if n == 0 {
        return true;
    }
    let mut i: usize = 0;
    while i < n - 1
        invariant
            n == m@.len(),
            n > 0,
            i <= n - 1,
            forall|j: int| 0 <= j < i ==> seq_lt(#[trigger] m@[j].0@, m@[j + 1].0@),
        decreases n - i,
    {
        if !text_less(m[i].0.as_str(), m[i + 1].0.as_str()) {
            return false;
        }
        i = i + 1;
    }
    true
}

impl CalendarInterval {
    /// The interval itself when every field lies in its range (minute 0 to 59,
    /// hour 0 to 23, day 1 to 31, weekday 0 to 7, month 1 to 12); else a range
    /// error naming the first field out of range.
    pub fn check(self) -> (r: Result<CalendarInterval, Error>)
        ensures
            calendar_in_range(self) ==> r == Ok::<CalendarInterval, Error>(self),
            !calendar_in_range(self) ==> r is Err && r->Err_0 is ConfigRangeError && calendar_fault(self) is Some
                && message(r->Err_0) == calendar_fault(self)->Some_0,
    {
        match check_range("minute", self.minute, 0, 59) {
            Err(e) => return Err(e),
            Ok(()) => {},
        }
        match check_range("hour", self.hour, 0, 23) {
            Err(e) => return Err(e),
            Ok(()) => {},
        }
        match check_range("day", self.day, 1, 31) {
            Err(e) => return Err(e),
            Ok(()) => {},
        }
        match check_range("weekday", self.weekday, 0, 7) {
            Err(e) => return Err(e),
            Ok(()) => {},
        }
        match check_range("month", self.month, 1, 12) {
            Err(e) => return Err(e),
            Ok(()) => {},
        }
        Ok(self)
    }
}

impl ResourceLimit {
    /// The limit itself when every field lies in its range (file size, number of
    /// files and resident set size from 0, number of processes 0 to 500, stack 0
    /// to 67104768); else a range error naming the first field out of range.
    pub fn check(self) -> (r: Result<ResourceLimit, Error>)
        ensures
            limit_in_range(self) ==> r == Ok::<ResourceLimit, Error>(self),
            !limit_in_range(self) ==> r is Err && r->Err_0 is ConfigRangeError && limit_fault(self) is Some
                && message(r->Err_0) == limit_fault(self)->Some_0,
    {
        match check_range("file_size", self.file_size, 0, i64::MAX) {
            Err(e) => return Err(e),
            Ok(()) => {},
        }
        match check_range("number_of_files", self.number_of_files, 0, i64::MAX) {
            Err(e) => return Err(e),
            Ok(()) => {},
        }
        match check_range("number_of_processes", self.number_of_processes, 0, 500) {
            Err(e) => return Err(e),
            Ok(()) => {},
        }
        match check_range("resident_set_size", self.resident_set_size, 0, i64::MAX) {
            Err(e) => return Err(e),
            Ok(()) => {},
        }
        match check_range("stack", self.stack, 0, 67104768) {
            Err(e) => return Err(e),
            Ok(()) => {},
        }
        Ok(self)
    }
}

/// Interval `i` is the first out of range.
pub open spec fn first_bad_calendar(v: Seq<CalendarInterval>, i: int) -> bool {
    0 <= i < v.len() && !calendar_in_range(v[i]) && forall|j: int| 0 <= j < i ==> calendar_in_range(#[trigger] v[j])
}

fn check_calendars(v: &Vec<CalendarInterval>) -> (r: Result<(), Error>)
    ensures
        r is Ok <==> forall|i: int| 0 <= i < v@.len() ==> calendar_in_range(#[trigger] v@[i]),
        r is Err ==> r->Err_0 is ConfigRangeError && exists|i: int|
            #![trigger first_bad_calendar(v@, i)]
            first_bad_calendar(v@, i) && message(r->Err_0) == calendar_fault(v@[i])->Some_0,
{
    let n = v.len();
    let mut i: usize = 0;
    while i < n
        invariant
            n == v@.len(),
            i <= n,
            forall|j: int| 0 <= j < i ==> calendar_in_range(#[trigger] v@[j]),
        decreases n - i,
    {
        match v[i].check() {
            Err(e) => {
                assert(!calendar_in_range(v@[i as int]));
                assert(first_bad_calendar(v@, i as int));
                return Err(e);
            },
            Ok(_) => {},
        }
        i = i + 1;
    }
    Ok(())
}

/// The message of a path that is not what the option needs.
pub open spec fn path_text(path: Seq<char>, what: Seq<char>) -> Seq<char> {
    "`"@ + path + "` is not a "@ + what
}

fn path_message(path: &str, what: &str) -> (r: String)
    ensures
        r@ == path_text(path@, what@),
{
    let mut m = join_text("`", path);
    m.append("` is not a ");
    m.append(what);
    assert(m@ =~= path_text(path@, what@));
    m
}

impl Config {
    /// Whether the path that the option names exists on disk: a directory for
    /// the working and root directories, a file for the three redirections.
    /// Options that name no path answer true.
    pub fn path_exists(&self) -> (r: bool)
        ensures
            !names_path(*self) ==> r,
    {
        match self {
            Config::WorkingDirectory(p) => path_is_dir(p.as_str()),
            Config::RootDirectory(p) => path_is_dir(p.as_str()),
            Config::StandardInPath(p) => path_is_file(p.as_str()),
            Config::StandardOutPath(p) => path_is_file(p.as_str()),
            Config::StandardErrorPath(p) => path_is_file(p.as_str()),
            _ => true,
        }
    }

    /// The option itself when it is valid, given whether the path it names
    /// exists; else the error of its kind.
    pub fn check_given(self, path_exists: bool) -> (r: Result<Config, Error>)
        ensures
            option_ok(self, path_exists) ==> r == Ok::<Config, Error>(self),
            !option_ok(self, path_exists) ==> r is Err && option_error_fits(self, r->Err_0) && message(r->Err_0)
                == option_fault(self),
    {
        match self {
            Config::EnvironmentVariables(m) => {
                if keys_are_ascending(&m) {
                    Ok(Config::EnvironmentVariables(m))
                } else {
                    Err(Error::YamlError("keys of `EnvironmentVariables` must be unique and sorted".to_owned()))
                }
            },
            Config::KeepAlive(a) => {
                let ok = match &a.other_job_enabled {
                    Some(m) => keys_are_ascending(m),
                    None => true,
                };
                if ok {
                    Ok(Config::KeepAlive(a))
                } else {
                    Err(Error::YamlError("keys of `OtherJobEnabled` must be unique and sorted".to_owned()))
                }
            },
            Config::ExitTimeOut(t) => match check_range("ExitTimeOut", Some(t), 0, i64::MAX) {
                Ok(()) => Ok(Config::ExitTimeOut(t)),
                Err(e) => Err(e),
            },
            Config::StartInterval(t) => match check_range("StartInterval", Some(t), 0, i64::MAX) {
                Ok(()) => Ok(Config::StartInterval(t)),
                Err(e) => Err(e),
            },
            Config::StartCalendarInterval(v) => match check_calendars(&v) {
                Ok(()) => Ok(Config::StartCalendarInterval(v)),
                Err(e) => {
                    proof {
                        let i = choose|i: int| #[trigger] first_bad_calendar(v@, i) && message(e) == calendar_fault(v@[i])->Some_0;
                        let k = choose|k: int| #[trigger] first_bad_calendar(v@, k);
                        if i < k {
                            assert(calendar_in_range(v@[i]));
                        } else if k < i {
                            assert(calendar_in_range(v@[k]));
                        }
                    }
                    Err(e)
                },
            },
            Config::SoftResourceLimit(l) => match l.check() {
                Ok(l) => Ok(Config::SoftResourceLimit(l)),
                Err(e) => Err(e),
            },
            Config::HardResourceLimits(l) => match l.check() {
                Ok(l) => Ok(Config::HardResourceLimits(l)),
                Err(e) => Err(e),
            },
            Config::WorkingDirectory(p) => {
                if path_exists {
                    Ok(Config::WorkingDirectory(p))
                } else {
                    Err(Error::ConfigPathError(path_message(p.as_str(), "directory")))
                }
            },
            Config::RootDirectory(p) => {
                if path_exists {
                    Ok(Config::RootDirectory(p))
                } else {
                    Err(Error::ConfigPathError(path_message(p.as_str(), "directory")))
                }
            },
            Config::StandardInPath(p) => {
                if path_exists {
                    Ok(Config::StandardInPath(p))
                } else {
                    Err(Error::ConfigPathError(path_message(p.as_str(), "file")))
                }
            },
            Config::StandardOutPath(p) => {
                if path_exists {
                    Ok(Config::StandardOutPath(p))
                } else {
                    Err(Error::ConfigPathError(path_message(p.as_str(), "file")))
                }
            },
            Config::StandardErrorPath(p) => {
                if path_exists {
                    Ok(Config::StandardErrorPath(p))
                } else {
                    Err(Error::ConfigPathError(path_message(p.as_str(), "file")))
                }
            },
            other => Ok(other),
        }
    }

    /// Validates the option, asking the disk about the path it names.
    pub fn check(self) -> (r: Result<Config, Error>)
        ensures
            r is Ok ==> r == Ok::<Config, Error>(self) && option_ok(self, true),
            !option_ok(self, true) ==> r is Err && option_error_fits(self, r->Err_0),
            !names_path(self) ==> (r is Ok <==> option_ok(self, true)),
    {
        let e = self.path_exists();
        self.check_given(e)
    }
}

/// The namespace of job labels, as the listing of the job-control tool shows it.
pub const TASKER_TASK_NAME: &'static str = "com.tasker.tasks";

/// A label as the declarative text writes it: without the namespace prefix.
pub fn declared_label(label: &str) -> (r: String)
    ensures
        r@ == spec_declared_label(label@),
{
    let prefix = "com.tasker.tasks.";
    if starts_with(label, prefix) {
        let n = label.unicode_len();
        let k = prefix.unicode_len();
        label.substring_char(k, n).to_owned()
    } else {
        label.to_owned()
    }
}

impl Configuration {
    /// The job itself when its label is dot-separated runs of `[A-Za-z0-9_]`;
    /// else a label error.
    fn check_label(self) -> (r: Result<Configuration, Error>)
        ensures
            label_matches(self.label@) ==> r == Ok::<Configuration, Error>(self),
            !label_matches(self.label@) ==> r is Err && r->Err_0 is ConfigLabelError && message(r->Err_0)
                == label_fault(self.label@),
    {
        if regex_is_match("^[A-Za-z0-9_]+(\\.[A-Za-z0-9_]+)*$", self.label.as_str()) {
            Ok(self)
        } else {
            let mut m = join_text("`", self.label.as_str());
            m.append("` is not a valid label");
            assert(m@ =~= label_fault(self.label@));
            Err(Error::ConfigLabelError(m))
        }
    }

    /// The job itself when its program path is absolute and, as `program_is_file`
    /// tells, a file; else a program error.
    fn check_program_given(self, program_is_file: bool) -> (r: Result<Configuration, Error>)
        ensures
            is_absolute(self.program@) && program_is_file ==> r == Ok::<Configuration, Error>(self),
            !(is_absolute(self.program@) && program_is_file) ==> r is Err
                && r->Err_0 is ConfigProgramError,
            !is_absolute(self.program@) ==> r is Err && message(r->Err_0) == relative_program_fault(self.program@),
            is_absolute(self.program@) && !program_is_file ==> r is Err && message(r->Err_0) == missing_program_fault(
                self.program@,
            ),
    {
        if !starts_with(self.program.as_str(), "/") {
            let mut m = join_text("program path `", self.program.as_str());
            m.append("` is not an absolute path");
            assert(m@ =~= relative_program_fault(self.program@));
            return Err(Error::ConfigProgramError(m));
        }
        if !program_is_file {
            let mut m = join_text("program `", self.program.as_str());
            m.append("` is not found or not permitted to access");
            assert(m@ =~= missing_program_fault(self.program@));
            return Err(Error::ConfigProgramError(m));
        }
        Ok(self)
    }

    /// Puts the label under the namespace.
    fn append_domain(self) -> (r: Configuration)
        ensures
            r@ == (JobView { label: namespaced(self.label@), ..self@ }),
    {
        let label = join_text("com.tasker.tasks.", self.label.as_str());
        Configuration { label, program: self.program, configuration: self.configuration }
    }

    /// Validates the job, given whether its program is a file and whether the
    /// path named by each option exists. The first violation is reported: of the
    /// label, then of the program, then of the options in order. An accepted job
    /// gets its label namespaced and its options added one by one, so that the
    /// last of each kind wins at the place of the first.
    pub fn validate_given(self, program_is_file: bool, paths_exist: &Vec<bool>) -> (r: Result<Configuration, Error>)
        requires
            paths_exist@.len() == self.configuration@.len(),
        ensures
            accepted(self@, program_is_file, paths_exist@) ==> r is Ok && r->Ok_0@ == validated(self@),
            !label_matches(self.label@) ==> r is Err && r->Err_0 is ConfigLabelError && message(r->Err_0)
                == label_fault(self.label@),
            label_matches(self.label@) && !(is_absolute(self.program@) && program_is_file) ==> r is Err
                && r->Err_0 is ConfigProgramError,
            label_matches(self.label@) && !is_absolute(self.program@) ==> message(r->Err_0) == relative_program_fault(
                self.program@,
            ),
            label_matches(self.label@) && is_absolute(self.program@) && !program_is_file ==> message(r->Err_0)
                == missing_program_fault(self.program@),
            forall|i: int|
                #![trigger options_ok_upto(self.configuration@, paths_exist@, i)]
                0 <= i < self.configuration@.len() && label_matches(self.label@) && is_absolute(self.program@)
                    && program_is_file && options_ok_upto(self.configuration@, paths_exist@, i)
                    && !option_ok(self.configuration@[i], paths_exist@[i]) ==> r is Err
                    && option_error_fits(self.configuration@[i], r->Err_0) && message(r->Err_0) == option_fault(
                    self.configuration@[i],
                ),
    {
        let ghost s = self.configuration@;
        let ghost ex = paths_exist@;
        let checked = match self.check_label() {
            Ok(c) => c,
            Err(e) => return Err(e),
        };
        let checked = match checked.check_program_given(program_is_file) {
            Ok(c) => c,
            Err(e) => return Err(e),
        };
        let named = checked.append_domain();
        let mut rest = named.configuration;
        let mut result = Configuration { label: named.label, program: named.program, configuration: Vec::new() };
        let n = rest.len();
        let mut i: usize = 0;
        assert(s.subrange(0, 0).len() == 0);
        while i < n
            invariant
                s == self.configuration@,
                label_matches(self.label@),
                is_absolute(self.program@),
                program_is_file,
                n == s.len(),
                ex.len() == n,
                paths_exist@ == ex,
                i <= n,
                rest@ == s.subrange(i as int, n as int),
                result.label@ == namespaced(self.label@),
                result.program@ == self.program@,
                result.configuration@ == upsert_all(s.subrange(0, i as int)),
                options_ok_upto(s, ex, i as int),
            decreases n - i,
        {
            let c = rest.remove(0);
            assert(c == s[i as int]);
            match c.check_given(paths_exist[i]) {
                Ok(c) => {
                    proof {
                        let pre = s.subrange(0, i + 1);
                        assert(pre.drop_last() == s.subrange(0, i as int));
                        assert(pre.last() == c);
                    }
                    result = result.add_config(c);
                    proof {
                        assert forall|j: int| 0 <= j < i + 1 implies option_ok(#[trigger] s[j], ex[j]) by {
                            if j < i {
                                assert(options_ok_upto(s, ex, i as int));
                            }
                        }
                    }
                    i = i + 1;
                    assert(rest@ == s.subrange(i as int, n as int));
                },
                Err(e) => {
                    proof {
                        assert(!option_ok(s[i as int], ex[i as int]));
                        assert(!options_ok_upto(s, ex, n as int));
                        assert forall|k: int|
                            #![trigger options_ok_upto(s, ex, k)]
                            0 <= k < n && options_ok_upto(s, ex, k) && !option_ok(s[k], ex[k]) implies k == i by {
                            if k < i {
                                assert(option_ok(s[k], ex[k]));
                            } else if k > i {
                                assert(option_ok(s[i as int], ex[i as int]));
                            }
                        }
                    }
                    return Err(e);
                },
            }
        }
        assert(s.subrange(0, n as int) == s);
        Ok(result)
    }

    /// Validates the job, asking the disk whether the program is a file and
    /// whether the path named by each option exists.
    pub fn validate(self) -> (r: Result<Configuration, Error>)
        ensures
            !label_matches(self.label@) ==> r is Err && r->Err_0 is ConfigLabelError && message(r->Err_0)
                == label_fault(self.label@),
            label_matches(self.label@) && !is_absolute(self.program@) ==> r is Err
                && r->Err_0 is ConfigProgramError && message(r->Err_0) == relative_program_fault(self.program@),
            r is Ok ==> exists|pf: bool, ex: Seq<bool>| #[trigger] accepted(self@, pf, ex) && r->Ok_0@ == validated(self@),
    {
        let program_is_file = path_is_file(self.program.as_str());
        let mut paths_exist: Vec<bool> = Vec::new();
        let n = self.configuration.len();
        let mut i: usize = 0;
        while i < n
            invariant
                n == self.configuration@.len(),
                i <= n,
                paths_exist@.len() == i,
            decreases n - i,
        {
            let e = self.configuration[i].path_exists();
            paths_exist.push(e);
            i = i + 1;
        }
        let ghost ex = paths_exist@;
        let r = self.validate_given(program_is_file, &paths_exist);
        proof {
            if r is Ok {
                if !accepted(self@, program_is_file, ex) {
                    if label_matches(self.label@) && is_absolute(self.program@) && program_is_file {
                        let k = choose|k: int| 0 <= k < n && !option_ok(self.configuration@[k], ex[k]);
                        lemma_first_bad_option(self.configuration@, ex, k);
                    }
                }
                assert(accepted(self@, program_is_file, ex));
            }
        }
        r
    }

    /// The job as the declarative text writes it: its label without the namespace.
    pub fn to_declarative(self) -> (r: Configuration)
        ensures
            r@ == declarative(self@),
    {
        let label = declared_label(self.label.as_str());
        Configuration { label, program: self.program, configuration: self.configuration }
    }
}

/// Where some option is invalid, there is a first one.
proof fn lemma_first_bad_option(s: Seq<Config>, ex: Seq<bool>, k: int)
    requires
        0 <= k < s.len(),
        !option_ok(s[k], ex[k]),
    ensures
        exists|i: int|
            #![trigger options_ok_upto(s, ex, i)]
            0 <= i <= k && options_ok_upto(s, ex, i) && !option_ok(s[i], ex[i]),
    decreases k,
{
    if options_ok_upto(s, ex, k) {
        assert(options_ok_upto(s, ex, k));
    } else {
        let j = choose|j: int| 0 <= j < k && !option_ok(#[trigger] s[j], ex[j]);
        lemma_first_bad_option(s, ex, j);
    }
}

proof fn lemma_upserted(s: Seq<Config>, c: Config)
    ensures
        kinds_unique(s) ==> kinds_unique(upserted(s, c)),
        forall|i: int|
            0 <= i < upserted(s, c).len() ==> #[trigger] upserted(s, c)[i] == c || s.contains(
                upserted(s, c)[i],
            ),
{
    lemma_first_of_kind(s, kind_of(c));
    let r = upserted(s, c);
    assert forall|i: int| 0 <= i < r.len() implies #[trigger] r[i] == c || s.contains(r[i]) by {
        if r[i] != c {
            assert(s[i] == r[i]);
        }
    }
}

proof fn lemma_upsert_all(s: Seq<Config>)
    ensures
        kinds_unique(upsert_all(s)),
        forall|i: int|
            0 <= i < upsert_all(s).len() ==> s.contains(#[trigger] upsert_all(s)[i]),
    decreases s.len(),
{
    if s.len() > 0 {
        let t = s.drop_last();
        lemma_upsert_all(t);
        lemma_upserted(upsert_all(t), s.last());
        let r = upsert_all(s);
        assert forall|i: int| 0 <= i < r.len() implies s.contains(#[trigger] r[i]) by {
            if r[i] == s.last() {
                assert(s[s.len() - 1] == r[i]);
            } else {
                let j = choose|j: int| 0 <= j < upsert_all(t).len() && upsert_all(t)[j] == r[i];
                let k = choose|k: int| 0 <= k < t.len() && t[k] == upsert_all(t)[j];
                assert(s[k] == r[i]);
            }
        }
    }
}

proof fn lemma_upsert_all_of_unique(u: Seq<Config>)
    requires
        kinds_unique(u),
    ensures
        upsert_all(u) == u,
    decreases u.len(),
{
    if u.len() > 0 {
        let t = u.drop_last();
        assert(kinds_unique(t)) by {
            assert forall|i: int, j: int|
                0 <= i < t.len() && 0 <= j < t.len() && i != j implies kind_of(t[i]) != kind_of(t[j]) by {
                assert(t[i] == u[i] && t[j] == u[j]);
            }
        }
        lemma_upsert_all_of_unique(t);
        lemma_first_of_kind(t, kind_of(u.last()));
        if first_of_kind(t, kind_of(u.last())) is Some {
            let i = first_of_kind(t, kind_of(u.last()))->Some_0;
            assert(u[i] == t[i]);
            assert(kind_of(u[i]) != kind_of(u[u.len() - 1]));
        }
        assert(t.push(u.last()) == u);
    }
}

/// Adding two options of one kind leaves exactly one option of that kind: the
/// later one, at the place where the first one was put.
pub proof fn lemma_upsert_same_kind_twice(s: Seq<Config>, a: Config, b: Config)
    requires
        kinds_unique(s),
        kind_of(a) == kind_of(b),
    ensures
        ({
            let once = upserted(s, a);
            let twice = upserted(once, b);
            let p = match first_of_kind(s, kind_of(a)) {
                Some(i) => i,
                None => s.len() as int,
            };
            &&& 0 <= p < once.len()
            &&& once[p] == a
            &&& twice.len() == once.len()
            &&& twice[p] == b
            &&& forall|j: int| 0 <= j < twice.len() && j != p ==> kind_of(#[trigger] twice[j]) != kind_of(b)
            &&& forall|j: int| 0 <= j < twice.len() && j != p ==> #[trigger] twice[j] == once[j]
            &&& kinds_unique(twice)
        }),
{
    let once = upserted(s, a);
    lemma_first_of_kind(s, kind_of(a));
    lemma_upserted(s, a);
    lemma_first_of_kind(once, kind_of(b));
    lemma_upserted(once, b);
    let p = match first_of_kind(s, kind_of(a)) {
        Some(i) => i,
        None => s.len() as int,
    };
    assert(once[p] == a);
    match first_of_kind(once, kind_of(b)) {
        Some(q) => {
            if q != p {
                assert(kind_of(once[q]) == kind_of(once[p]));
            }
        },
        None => {
            assert(kind_of(once[p]) == kind_of(b));
        },
    }
}

proof fn lemma_filter_from(s: Seq<Config>, pred: spec_fn(Config) -> bool, i: int)
    requires
        0 <= i < s.filter(pred).len(),
    ensures
        s.contains(s.filter(pred)[i]),
    decreases s.len(),
{
    reveal(Seq::filter);
    let t = s.drop_last();
    if pred(s.last()) && i == t.filter(pred).len() {
        assert(s[s.len() - 1] == s.filter(pred)[i]);
    } else {
        assert(s.filter(pred)[i] == t.filter(pred)[i]);
        lemma_filter_from(t, pred, i);
        let j = choose|j: int| 0 <= j < t.len() && t[j] == t.filter(pred)[i];
        assert(s[j] == t[j]);
    }
}

/// Removing a kind leaves no option of that kind, keeps every other option,
/// in the order they had, and adds nothing.
pub proof fn lemma_remove_kind(s: Seq<Config>, k: ConfigKind)
    ensures
        ({
            let r = without_kind(s, k);
            &&& forall|i: int| 0 <= i < r.len() ==> kind_of(#[trigger] r[i]) != k
            &&& forall|i: int| 0 <= i < r.len() ==> s.contains(#[trigger] r[i])
            &&& forall|i: int|
                0 <= i < s.len() && kind_of(#[trigger] s[i]) != k ==> without_kind(s.take(i), k).len() < r.len()
                    && r[without_kind(s.take(i), k).len() as int] == s[i]
        }),
{
    let pred = not_of_kind(k);
    let r = without_kind(s, k);
    assert forall|i: int| 0 <= i < r.len() implies kind_of(#[trigger] r[i]) != k && s.contains(r[i]) by {
        s.lemma_filter_pred(pred, i);
        lemma_filter_from(s, pred, i);
    }
    assert forall|i: int| 0 <= i < s.len() && kind_of(#[trigger] s[i]) != k implies without_kind(
        s.take(i),
        k,
    ).len() < r.len() && r[without_kind(s.take(i), k).len() as int] == s[i] by {
        let head = s.take(i);
        let tail = s.skip(i);
        assert(s == head + tail);
        Seq::filter_distributes_over_add(head, tail, pred);
        let one = seq![s[i]];
        let after = s.skip(i + 1);
        assert(tail == one + after);
        Seq::filter_distributes_over_add(one, after, pred);
        reveal(Seq::filter);
        assert(one.drop_last() =~= Seq::<Config>::empty());
        assert(one.filter(pred) == Seq::<Config>::empty().push(s[i]));
        assert(r == head.filter(pred) + (one.filter(pred) + after.filter(pred)));
    }
}

/// Reading back the declarative form of a validated job gives the same job,
/// provided its program is still a file and the paths its options name still
/// exist.
pub proof fn lemma_declarative_round_trip(v: JobView, program_is_file: bool, paths_exist: Seq<bool>)
    requires
        accepted(v, program_is_file, paths_exist),
    ensures
        ({
            let c = validated(v);
            let d = declarative(c);
            &&& accepted(d, true, Seq::new(d.options.len(), |i: int| true))
            &&& validated(d) == c
        }),
{
    let c = validated(v);
    let d = declarative(c);
    let l = v.label;
    assert(namespaced(l).subrange(0, label_prefix().len() as int) == label_prefix());
    assert(namespaced(l).subrange(label_prefix().len() as int, namespaced(l).len() as int) == l);
    assert(d.label == l);
    lemma_upsert_all(v.options);
    let trues = Seq::new(d.options.len(), |i: int| true);
    assert forall|j: int| 0 <= j < d.options.len() implies option_ok(#[trigger] d.options[j], trues[j]) by {
        let k = choose|k: int| 0 <= k < v.options.len() && v.options[k] == d.options[j];
        assert(option_ok(v.options[k], paths_exist[k]));
    }
    lemma_upsert_all_of_unique(c.options);
}

} // verus!
