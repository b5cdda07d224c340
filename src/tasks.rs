//! The jobs as the job-control tool lists them, and as the inventory of
//! declarative files records them.
use crate::error::Error;
use crate::paths::join_path;
use crate::text::{
    contains, ends_with, lemma_seq_lt_order, occurs_in, regex_capture, seq_lt, text_eq, text_less,
    yaml_stem,
};
use vstd::prelude::*;

verus! {

/// The state of a job.
#[derive(Debug, Clone, Copy, PartialEq, Eq, Structural)]
pub enum Status {
    RUNNING,
    LOADED,
    UNLOADED,
    NORMAL,
    ERROR,
}

/// One job of a listing. Two records are equal, and ordered, by their labels.
#[derive(Debug, Clone)]
pub struct TaskInfo {
    pub pid: Option<i32>,
    pub last_exit_status: Option<i32>,
    pub label: String,
    pub status: Status,
}

impl PartialEq for TaskInfo {
    fn eq(&self, other: &TaskInfo) -> (r: bool)
        ensures
            r == (self.label@ == other.label@),
    {
        text_eq(self.label.as_str(), other.label.as_str())
    }
}

impl vstd::std_specs::cmp::PartialEqSpecImpl for TaskInfo {
    open spec fn obeys_eq_spec() -> bool {
        true
    }

    open spec fn eq_spec(&self, other: &TaskInfo) -> bool {
        self.label@ == other.label@
    }
}

impl PartialOrd for TaskInfo {
    fn partial_cmp(&self, other: &TaskInfo) -> (r: Option<core::cmp::Ordering>)
        ensures
            r == label_order(self.label@, other.label@),
    {
        if text_less(self.label.as_str(), other.label.as_str()) {
            Some(core::cmp::Ordering::Less)
        } else if text_eq(self.label.as_str(), other.label.as_str()) {
            Some(core::cmp::Ordering::Equal)
        } else {
            Some(core::cmp::Ordering::Greater)
        }
    }
}

impl vstd::std_specs::cmp::PartialOrdSpecImpl for TaskInfo {
    open spec fn obeys_partial_cmp_spec() -> bool {
        true
    }

    open spec fn partial_cmp_spec(&self, other: &TaskInfo) -> Option<core::cmp::Ordering> {
        label_order(self.label@, other.label@)
    }
}

/// The order of two labels.
pub open spec fn label_order(a: Seq<char>, b: Seq<char>) -> Option<core::cmp::Ordering> {
    if seq_lt(a, b) {
        Some(core::cmp::Ordering::Less)
    } else if a == b {
        Some(core::cmp::Ordering::Equal)
    } else {
        Some(core::cmp::Ordering::Greater)
    }
}

/// The lines of a text, as `str::lines` cuts them.
pub uninterp spec fn lines_of(s: Seq<char>) -> Seq<Seq<char>>;

/// The whitespace-separated fields of a text, as `str::split_whitespace` cuts them.
pub uninterp spec fn fields_of(s: Seq<char>) -> Seq<Seq<char>>;

/// Relies on str::lines: the lines of the text, in order; the result depends
/// on the text alone.
#[verifier::external_body]
pub(crate) fn text_lines(s: &str) -> (r: Vec<String>)
    ensures
        r.deep_view() == lines_of(s@),
{
    s.lines().map(|l| l.to_owned()).collect()
}

/// Relies on str::split_whitespace: the fields of the text, in order; the
/// result depends on the text alone.
#[verifier::external_body]
fn text_fields(s: &str) -> (r: Vec<String>)
    ensures
        r.deep_view() == fields_of(s@),
{
    s.split_whitespace().map(|f| f.to_owned()).collect()
}

pub open spec fn is_digit(c: char) -> bool {
    '0' <= c && c <= '9'
}

/// The number written by a non-empty run of decimal digits.
pub open spec fn digits_value(s: Seq<char>) -> int
    decreases s.len(),
{
    if s.len() == 0 {
        0
    } else {
        digits_value(s.drop_last()) * 10 + (s.last() as int - '0' as int)
    }
}

pub open spec fn all_digits(s: Seq<char>) -> bool {
    s.len() > 0 && forall|i: int| 0 <= i < s.len() ==> is_digit(#[trigger] s[i])
}

/// The integer that a text writes: digits after an optional sign.
pub open spec fn signed_value(s: Seq<char>) -> Option<int> {
    if s.len() > 0 && s[0] == '-' && all_digits(s.drop_first()) {
        Some(-digits_value(s.drop_first()))
    } else if s.len() > 0 && s[0] == '+' && all_digits(s.drop_first()) {
        Some(digits_value(s.drop_first()))
    } else if all_digits(s) {
        Some(digits_value(s))
    } else {
        None
    }
}

/// The `i32` that a text writes, if it writes one in range.
pub open spec fn parsed_i32(s: Seq<char>) -> Option<i32> {
    match signed_value(s) {
        Some(v) => if i32::MIN <= v && v <= i32::MAX {
            Some(v as i32)
        } else {
            None
        },
        None => None,
    }
}

/// Relies on `str::parse::<i32>`: an optional sign and decimal digits, in range.
#[verifier::external_body]
fn parse_i32(s: &str) -> (r: Option<i32>)
    ensures
        r == parsed_i32(s@),
{
    s.parse::<i32>().ok()
}

/// Relies on std::path::Path::exists; the answer depends on the disk.
#[verifier::external_body]
fn path_exists(p: &str) -> bool {
    std::path::Path::new(p).exists()
}

/// The status of a listed job: running with a process, failed when its last
/// exit status is not zero, loaded when it has written no output yet, else
/// normal.
pub open spec fn status_of(pid: Option<i32>, last_exit_status: Option<i32>, has_output: bool) -> Status {
    if pid is Some {
        Status::RUNNING
    } else if last_exit_status != Some(0i32) {
        Status::ERROR
    } else if !has_output {
        Status::LOADED
    } else {
        Status::NORMAL
    }
}

/// The record of one listing line, given its fields: a process id, a last exit
/// status and a label; a missing process id counts as none, a missing status
/// as zero, a missing label as empty.
pub open spec fn record_ok(t: TaskInfo, fields: Seq<Seq<char>>, has_output: bool) -> bool {
    &&& t.pid == (if fields.len() > 0 { parsed_i32(fields[0]) } else { None })
    &&& t.last_exit_status == (if fields.len() > 1 { parsed_i32(fields[1]) } else { Some(0i32) })
    &&& t.label@ == (if fields.len() > 2 { fields[2] } else { Seq::empty() })
    &&& t.status == status_of(t.pid, t.last_exit_status, has_output)
}

impl TaskInfo {
    /// The status that a listed job is in.
    pub fn status_from(pid: Option<i32>, last_exit_status: Option<i32>, has_output: bool) -> (r: Status)
        ensures
            r == status_of(pid, last_exit_status, has_output),
    {
        if pid.is_some() {
            Status::RUNNING
        } else {
            match last_exit_status {
                Some(0i32) => {
                    if !has_output {
                        Status::LOADED
                    } else {
                        Status::NORMAL
                    }
                },
                _ => Status::ERROR,
            }
        }
    }

    /// The record of a listing line cut into fields, given whether the job has
    /// written output.
    pub fn from_fields(fields: &Vec<String>, has_output: bool) -> (r: TaskInfo)
        ensures
            record_ok(r, fields.deep_view(), has_output),
    {
        let pid = if fields.len() > 0 {
            parse_i32(fields[0].as_str())
        } else {
            None
        };
        let last_exit_status = if fields.len() > 1 {
            parse_i32(fields[1].as_str())
        } else {
            Some(0i32)
        };
        let label = if fields.len() > 2 {
            fields[2].as_str().to_owned()
        } else {
            String::new()
        };
        let status = TaskInfo::status_from(pid, last_exit_status, has_output);
        TaskInfo { pid, last_exit_status, label, status }
    }

    /// The record of a listing line; whether the job has written output is
    /// asked of the disk, in the job's directory under `out_dir`.
    pub fn from_line(line: &str, out_dir: &str) -> (r: TaskInfo)
        ensures
            record_ok(r, fields_of(line@), true) || record_ok(r, fields_of(line@), false),
    {
        let fields = text_fields(line);
        let label = if fields.len() > 2 {
            fields[2].as_str()
        } else {
            ""
        };
        let dir = join_path(out_dir, label);
        let file = join_path(dir.as_str(), "stdout.log");
        let has_output = path_exists(file.as_str());
        TaskInfo::from_fields(&fields, has_output)
    }

    /// The record of a job that the inventory holds and the listing does not.
    pub fn from_just_label(label: &str) -> (r: TaskInfo)
        ensures
            r.pid is None,
            r.last_exit_status is None,
            r.label@ == label@,
            r.status == Status::UNLOADED,
    {
        TaskInfo { pid: None, last_exit_status: None, label: label.to_owned(), status: Status::UNLOADED }
    }
}

/// The records are in strictly ascending order of label, so no label repeats.
pub open spec fn sorted_labels(s: Seq<TaskInfo>) -> bool {
    forall|i: int, j: int| 0 <= i < j < s.len() ==> seq_lt(#[trigger] s[i].label@, #[trigger] s[j].label@)
}

/// Records ordered by label carry no label twice.
pub proof fn lemma_sorted_no_duplicates(s: Seq<TaskInfo>)
    requires
        sorted_labels(s),
    ensures
        forall|i: int, j: int| 0 <= i < s.len() && 0 <= j < s.len() && i != j ==> s[i].label@ != s[j].label@,
{
    assert forall|i: int, j: int| 0 <= i < s.len() && 0 <= j < s.len() && i != j implies s[i].label@ != s[j].label@ by {
        lemma_seq_lt_order(s[i].label@, s[i].label@, s[i].label@);
        lemma_seq_lt_order(s[j].label@, s[j].label@, s[j].label@);
        if i < j {
            assert(seq_lt(s[i].label@, s[j].label@));
        } else {
            assert(seq_lt(s[j].label@, s[i].label@));
        }
    }
}

/// Some record has label `l`.
pub open spec fn has_label(s: Seq<TaskInfo>, l: Seq<char>) -> bool {
    exists|i: int| 0 <= i < s.len() && #[trigger] s[i].label@ == l
}

/// Adds a record to a set of records ordered by label. A record whose label is
/// already there is not added: the record that was there first stays.
#[verifier::spinoff_prover]
pub fn insert_task(set: &mut Vec<TaskInfo>, t: TaskInfo)
    requires
        sorted_labels(old(set)@),
    ensures
        sorted_labels(final(set)@),
        has_label(old(set)@, t.label@) ==> final(set)@ == old(set)@,
        !has_label(old(set)@, t.label@) ==> exists|p: int|
            0 <= p <= old(set)@.len() && final(set)@ == old(set)@.insert(p, t),
{
    let ghost s = set@;
    let n = set.len();
    let mut i: usize = 0;
    while i < n && text_less(set[i].label.as_str(), t.label.as_str())
        invariant
            set@ == s,
            n == s.len(),
            i <= n,
            forall|j: int| 0 <= j < i ==> seq_lt(#[trigger] s[j].label@, t.label@),
        decreases n - i,
    {
        i = i + 1;
    }
    if i < n && text_eq(set[i].label.as_str(), t.label.as_str()) {
        assert(s[i as int].label@ == t.label@);
        return;
    }
    proof {
        if i < n {
            lemma_seq_lt_order(s[i as int].label@, t.label@, t.label@);
            assert(seq_lt(t.label@, s[i as int].label@));
        }
        assert forall|j: int| 0 <= j < n implies #[trigger] s[j].label@ != t.label@ by {
            lemma_seq_lt_order(t.label@, t.label@, t.label@);
            if j > i {
                lemma_seq_lt_order(t.label@, s[i as int].label@, s[j].label@);
            }
        }
    }
    set.insert(i, t);
    proof {
        let r = set@;
        assert forall|a: int, b: int| 0 <= a < b < r.len() implies seq_lt(#[trigger] r[a].label@, #[trigger] r[b].label@) by {
            if b < i {
                assert(r[a] == s[a] && r[b] == s[b]);
            } else if a < i && b == i {
                assert(r[a] == s[a] && r[b] == t);
            } else if a < i && b > i {
                assert(r[a] == s[a] && r[b] == s[b - 1]);
                lemma_seq_lt_order(r[a].label@, t.label@, r[b].label@);
                if b - 1 > i {
                    lemma_seq_lt_order(t.label@, s[i as int].label@, s[b - 1].label@);
                }
            } else if a == i {
                assert(r[a] == t && r[b] == s[b - 1]);
                if b - 1 > i {
                    lemma_seq_lt_order(t.label@, s[i as int].label@, s[b - 1].label@);
                }
            } else {
                assert(r[a] == s[a - 1] && r[b] == s[b - 1]);
            }
        }
    }
}

/// The label field of a listing line.
pub open spec fn line_label(line: Seq<char>) -> Seq<char> {
    if fields_of(line).len() > 2 {
        fields_of(line)[2]
    } else {
        Seq::empty()
    }
}

/// The record is the record of the first line after the header that carries
/// its label.
pub open spec fn from_some_line(t: TaskInfo, ls: Seq<Seq<char>>) -> bool {
    exists|j: int|
        1 <= j < ls.len() && (record_ok(t, fields_of(ls[j]), true) || record_ok(t, fields_of(ls[j]), false))
            && forall|j2: int| 1 <= j2 < j ==> #[trigger] line_label(ls[j2]) != t.label@
}

/// A listed label is kept when it holds the filter and the namespace.
pub open spec fn label_kept(label: Seq<char>, pattern: Seq<char>) -> bool {
    occurs_in(pattern, label) && occurs_in("com.tasker.tasks"@, label)
}

/// What the filtered listing holds: records of lines after the header whose
/// label is kept, ordered by label, and a record for each such label.
pub open spec fn filtered(r: Seq<TaskInfo>, output: Seq<char>, pattern: Seq<char>) -> bool {
    &&& sorted_labels(r)
    &&& forall|k: int|
        0 <= k < r.len() ==> label_kept(#[trigger] r[k].label@, pattern) && from_some_line(r[k], lines_of(output))
    &&& forall|i: int|
        1 <= i < lines_of(output).len() && label_kept(#[trigger] line_label(lines_of(output)[i]), pattern)
            ==> has_label(r, line_label(lines_of(output)[i]))
}

impl TaskInfo {
    /// The jobs of the listing `output` whose label holds `pattern` and the
    /// namespace, one per label, ordered by label. The first line is a header;
    /// of two lines with one label the first is kept.
    #[verifier::spinoff_prover]
    pub fn from_str_filter(output: &str, pattern: &str, out_dir: &str) -> (r: Vec<TaskInfo>)
        ensures
            filtered(r@, output@, pattern@),
    {
        let lines = text_lines(output);
        let ghost ls = lines_of(output@);
        let mut set: Vec<TaskInfo> = Vec::new();
        let n = lines.len();
        let mut i: usize = 1;
        proof {
            assert(lines.deep_view().len() == lines@.len());
        }
        while i < n
            invariant
                lines.deep_view() == ls,
                n == ls.len(),
                1 <= i,
                sorted_labels(set@),
                forall|k: int|
                    0 <= k < set@.len() ==> label_kept(#[trigger] set@[k].label@, pattern@) && from_some_line(set@[k], ls),
                forall|j: int|
                    1 <= j < i && j < ls.len() && label_kept(#[trigger] line_label(ls[j]), pattern@) ==> has_label(set@, line_label(ls[j])),
            decreases n - i,
        {
            assert(lines[i as int]@ == ls[i as int]);
            let t = TaskInfo::from_line(lines[i].as_str(), out_dir);
            assert(t.label@ == line_label(ls[i as int]));
            if contains(t.label.as_str(), pattern) && contains(t.label.as_str(), "com.tasker.tasks") {
                let ghost before = set@;
                insert_task(&mut set, t);
                proof {
                    assert forall|j: int|
                        1 <= j < i + 1 && j < ls.len() && label_kept(#[trigger] line_label(ls[j]), pattern@) implies has_label(set@, line_label(ls[j])) by {
                        if j < i {
                            let w = choose|w: int| 0 <= w < before.len() && #[trigger] before[w].label@ == line_label(ls[j]);
                            if has_label(before, t.label@) {
                                assert(set@[w] == before[w]);
                            } else {
                                let p = choose|p: int| 0 <= p <= before.len() && set@ == before.insert(p, t);
                                if w < p {
                                    assert(set@[w] == before[w]);
                                } else {
                                    assert(set@[w + 1] == before[w]);
                                }
                            }
                        } else {
                            if has_label(before, t.label@) {
                            } else {
                                let p = choose|p: int| 0 <= p <= before.len() && set@ == before.insert(p, t);
                                assert(set@[p] == t);
                            }
                        }
                    }
                    assert(record_ok(t, fields_of(ls[i as int]), true) || record_ok(t, fields_of(ls[i as int]), false));
                    assert(!has_label(before, t.label@) ==> from_some_line(t, ls)) by {
                        if !has_label(before, t.label@) {
                            assert forall|j2: int| 1 <= j2 < i implies #[trigger] line_label(ls[j2]) != t.label@ by {
                                if line_label(ls[j2]) == t.label@ {
                                    assert(label_kept(line_label(ls[j2]), pattern@));
                                }
                            }
                        }
                    }
                    assert forall|k: int| 0 <= k < set@.len() implies label_kept(#[trigger] set@[k].label@, pattern@) && from_some_line(set@[k], ls) by {
                        if has_label(before, t.label@) {
                            assert(set@[k] == before[k]);
                        } else {
                            let p = choose|p: int| 0 <= p <= before.len() && set@ == before.insert(p, t);
                            if k < p {
                                assert(set@[k] == before[k]);
                            } else if k == p {
                                assert(set@[k] == t);
                            } else {
                                assert(set@[k] == before[k - 1]);
                            }
                        }
                    }
                }
            }
            i = i + 1;
        }
        set
    }
}

/// The live records, and after them the records of the inventory whose label
/// is not live, ordered by label, one per label.
#[verifier::spinoff_prover]
pub fn list_combined(live: Vec<TaskInfo>, inventory: Vec<TaskInfo>) -> (r: Vec<TaskInfo>)
    requires
        sorted_labels(live@),
    ensures
        sorted_labels(r@),
        forall|k: int| 0 <= k < live@.len() ==> r@.contains(#[trigger] live@[k]),
        forall|k: int| 0 <= k < inventory@.len() ==> has_label(r@, #[trigger] inventory@[k].label@),
        forall|k: int|
            0 <= k < r@.len() ==> live@.contains(#[trigger] r@[k]) || (inventory@.contains(r@[k])
                && !has_label(live@, r@[k].label@)),
{
    let ghost l = live@;
    let ghost inv = inventory@;
    let mut set = live;
    let mut rest = inventory;
    let ghost mut taken: int = 0;
    while rest.len() > 0
        invariant
            0 <= taken <= inv.len(),
            rest@ == inv.subrange(taken, inv.len() as int),
            sorted_labels(set@),
            forall|k: int| 0 <= k < l.len() ==> set@.contains(#[trigger] l[k]),
            forall|k: int| 0 <= k < taken ==> has_label(set@, #[trigger] inv[k].label@),
            forall|k: int|
                0 <= k < set@.len() ==> l.contains(#[trigger] set@[k]) || (inv.contains(set@[k])
                    && !has_label(l, set@[k].label@)),
        decreases rest@.len(),
    {
        let t = rest.remove(0);
        assert(t == inv[taken]);
        let ghost before = set@;
        insert_task(&mut set, t);
        proof {
            if !has_label(before, t.label@) {
                let p = choose|p: int| 0 <= p <= before.len() && set@ == before.insert(p, t);
                assert(set@[p] == t);
                assert forall|k: int| 0 <= k < l.len() implies set@.contains(#[trigger] l[k]) by {
                    let w = choose|w: int| 0 <= w < before.len() && before[w] == l[k];
                    if w < p {
                        assert(set@[w] == before[w]);
                    } else {
                        assert(set@[w + 1] == before[w]);
                    }
                }
                assert forall|k: int| 0 <= k < taken + 1 implies has_label(set@, #[trigger] inv[k].label@) by {
                    if k < taken {
                        let w = choose|w: int| 0 <= w < before.len() && #[trigger] before[w].label@ == inv[k].label@;
                        if w < p {
                            assert(set@[w] == before[w]);
                        } else {
                            assert(set@[w + 1] == before[w]);
                        }
                    }
                }
                assert(!has_label(l, t.label@)) by {
                    if has_label(l, t.label@) {
                        let w = choose|w: int| 0 <= w < l.len() && #[trigger] l[w].label@ == t.label@;
                        let v = choose|v: int| 0 <= v < before.len() && before[v] == l[w];
                        assert(before[v].label@ == t.label@);
                    }
                }
                assert forall|k: int| 0 <= k < set@.len() implies l.contains(#[trigger] set@[k]) || (inv.contains(set@[k])
                    && !has_label(l, set@[k].label@)) by {
                    if k < p {
                        assert(set@[k] == before[k]);
                    } else if k == p {
                        assert(inv[taken] == t);
                    } else {
                        assert(set@[k] == before[k - 1]);
                    }
                }
            }
            taken = taken + 1;
            assert(rest@ == inv.subrange(taken, inv.len() as int));
        }
    }
    set
}

/// Whether a file name has the extension `yaml`, as `Path::extension` sees it.
pub open spec fn has_yaml_extension(name: Seq<char>) -> bool {
    name.len() > 5 && name.subrange(name.len() - 5, name.len() as int) == ".yaml"@
}

/// An inventory entry counts when it is a file with the extension `yaml`
/// whose name holds the filter and the namespace.
pub open spec fn entry_kept(name: Seq<char>, is_file: bool, pattern: Seq<char>) -> bool {
    is_file && has_yaml_extension(name) && occurs_in(pattern, name) && occurs_in("com.tasker.tasks"@, name)
}

/// The labels of the counted entries, in order; `None` when one of them has
/// no label to capture.
pub open spec fn inventory_labels(files: Seq<(String, bool)>, pattern: Seq<char>) -> Option<Seq<Seq<char>>>
    decreases files.len(),
{
    if files.len() == 0 {
        Some(Seq::empty())
    } else {
        match inventory_labels(files.drop_last(), pattern) {
            None => None,
            Some(ls) => if entry_kept(files.last().0@, files.last().1, pattern) {
                match yaml_stem(files.last().0@) {
                    Some(l) => Some(ls.push(l)),
                    None => None,
                }
            } else {
                Some(ls)
            },
        }
    }
}

/// The jobs that the inventory of declarative files records, given each file
/// name of the meta folder and whether it is a file, as records of unloaded
/// jobs in the order of the names.
#[verifier::spinoff_prover]
pub fn meta_yaml_list(files: &Vec<(String, bool)>, pattern: &str) -> (r: Result<Vec<TaskInfo>, Error>)
    ensures
        r is Ok <==> inventory_labels(files@, pattern@) is Some,
        r is Err ==> r->Err_0 is FailedToReadMetaFolder,
        r is Ok ==> ({
            let ls = inventory_labels(files@, pattern@)->Some_0;
            &&& r->Ok_0@.len() == ls.len()
            &&& forall|k: int| 0 <= k < ls.len() ==> (#[trigger] r->Ok_0@[k]).label@ == ls[k]
                && r->Ok_0@[k].status == Status::UNLOADED && r->Ok_0@[k].pid is None
                && r->Ok_0@[k].last_exit_status is None
        }),
{
    let mut tasks: Vec<TaskInfo> = Vec::new();
    let n = files.len();
    let mut i: usize = 0;
    assert(files@.subrange(0, 0) =~= Seq::<(String, bool)>::empty());
    while i < n
        invariant
            n == files@.len(),
            i <= n,
            inventory_labels(files@.subrange(0, i as int), pattern@) is Some,
            ({
                let ls = inventory_labels(files@.subrange(0, i as int), pattern@)->Some_0;
                &&& tasks@.len() == ls.len()
                &&& forall|k: int| 0 <= k < ls.len() ==> (#[trigger] tasks@[k]).label@ == ls[k]
                    && tasks@[k].status == Status::UNLOADED && tasks@[k].pid is None
                    && tasks@[k].last_exit_status is None
            }),
        decreases n - i,
    {
        let name = files[i].0.as_str();
        let is_file = files[i].1;
        assert(name@ == files@[i as int].0@ && is_file == files@[i as int].1);
        let ghost pre = files@.subrange(0, i + 1);
        assert(pre.drop_last() =~= files@.subrange(0, i as int));
        assert(pre.last() == files@[i as int]);
        if is_file && name.unicode_len() > 5 && ends_with(name, ".yaml") && contains(name, pattern)
            && contains(name, "com.tasker.tasks") {
            match regex_capture("^(.+)\\.yaml$", name) {
                Some(stem) => {
                    tasks.push(TaskInfo::from_just_label(stem.as_str()));
                },
                None => {
                    proof {
                        reveal_strlit(".yaml");
                        assert(entry_kept(pre.last().0@, pre.last().1, pattern@));
                        assert(inventory_labels(pre, pattern@) is None);
                        lemma_inventory_none_extends(files@, pattern@, i as int + 1);
                        assert(files@.subrange(0, n as int) =~= files@);
                    }
                    return Err(Error::FailedToReadMetaFolder("fail to capture label in yaml file name".to_owned()));
                },
            }
        }
        i = i + 1;
    }
    assert(files@.subrange(0, n as int) =~= files@);
    Ok(tasks)
}

proof fn lemma_inventory_none_extends(files: Seq<(String, bool)>, pattern: Seq<char>, k: int)
    requires
        0 <= k <= files.len(),
        inventory_labels(files.subrange(0, k), pattern) is None,
    ensures
        inventory_labels(files, pattern) is None,
    decreases files.len() - k,
{
    if k < files.len() {
        let pre = files.subrange(0, k + 1);
        assert(pre.drop_last() =~= files.subrange(0, k));
        lemma_inventory_none_extends(files, pattern, k + 1);
    } else {
        assert(files.subrange(0, k) =~= files);
    }
}

/// The listing shows the job `label`: a line after the header has it as label.
pub open spec fn listed(listing: Seq<char>, label: Seq<char>) -> bool {
    label_kept(label, label) && exists|i: int|
        1 <= i < lines_of(listing).len() && #[trigger] line_label(lines_of(listing)[i]) == label
}

/// Whether the job-control listing shows the job `label` as loaded.
#[verifier::spinoff_prover]
pub fn is_loaded(listing: &str, label: &str, out_dir: &str) -> (r: bool)
    ensures
        r == listed(listing@, label@),
{
    let tasks = TaskInfo::from_str_filter(listing, label, out_dir);
    let n = tasks.len();
    let mut i: usize = 0;
    while i < n
        invariant
            n == tasks@.len(),
            i <= n,
            forall|k: int| 0 <= k < i ==> (#[trigger] tasks@[k]).label@ != label@,
            filtered(tasks@, listing@, label@),
        decreases n - i,
    {
        if text_eq(tasks[i].label.as_str(), label) {
            proof {
                let t = tasks@[i as int];
                assert(label_kept(t.label@, label@));
                let j = choose|j: int|
                    1 <= j < lines_of(listing@).len() && (record_ok(t, fields_of(lines_of(listing@)[j]), true)
                        || record_ok(t, fields_of(lines_of(listing@)[j]), false));
                assert(line_label(lines_of(listing@)[j]) == label@);
            }
            return true;
        }
        i = i + 1;
    }
    proof {
        if listed(listing@, label@) {
            let j = choose|j: int|
                1 <= j < lines_of(listing@).len() && #[trigger] line_label(lines_of(listing@)[j]) == label@;
            assert(label_kept(line_label(lines_of(listing@)[j]), label@));
            let k = choose|k: int| 0 <= k < tasks@.len() && #[trigger] tasks@[k].label@ == label@;
        }
    }
    false
}

/// Whether the job `label` is known: loaded, or recorded in the inventory.
#[verifier::spinoff_prover]
pub fn exist(listing: &str, files: &Vec<(String, bool)>, label: &str, out_dir: &str) -> (r: Result<bool, Error>)
    ensures
        r is Ok <==> inventory_labels(files@, label@) is Some,
        r is Ok ==> (r->Ok_0 <==> listed(listing@, label@) || inventory_labels(files@, label@)->Some_0.contains(label@)),
        r is Err ==> r->Err_0 is FailedToReadMetaFolder,
{
    if is_loaded(listing, label, out_dir) {
        match meta_yaml_list(files, label) {
            Ok(_) => return Ok(true),
            Err(e) => return Err(e),
        }
    }
    match meta_yaml_list(files, label) {
        Err(e) => Err(e),
        Ok(inv) => {
            let ghost ls = inventory_labels(files@, label@)->Some_0;
            let n = inv.len();
            let mut i: usize = 0;
            while i < n
                invariant
                    n == inv@.len(),
                    n == ls.len(),
                    inventory_labels(files@, label@) == Some(ls),
                    !listed(listing@, label@),
                    i <= n,
                    forall|k: int| 0 <= k < ls.len() ==> (#[trigger] inv@[k]).label@ == ls[k],
                    forall|k: int| 0 <= k < i ==> ls[k] != label@,
                decreases n - i,
            {
                if text_eq(inv[i].label.as_str(), label) {
                    assert(ls[i as int] == label@);
                    return Ok(true);
                }
                i = i + 1;
            }
            Ok(false)
        },
    }
}

/// The jobs whose label holds `pattern`: those of the job-control listing, and
/// those that only the inventory records (as unloaded), one per label, ordered
/// by label; a listed job wins over the inventory's record of it.
pub fn list_jobs(listing: &str, files: &Vec<(String, bool)>, pattern: &str, out_dir: &str) -> (r: Result<Vec<TaskInfo>, Error>)
    ensures
        r is Ok <==> inventory_labels(files@, pattern@) is Some,
        r is Ok ==> sorted_labels(r->Ok_0@),
        r is Ok ==> forall|i: int|
            1 <= i < lines_of(listing@).len() && label_kept(#[trigger] line_label(lines_of(listing@)[i]), pattern@)
                ==> has_label(r->Ok_0@, line_label(lines_of(listing@)[i])),
        r is Ok ==> forall|k: int|
            0 <= k < inventory_labels(files@, pattern@)->Some_0.len() ==> has_label(
                r->Ok_0@,
                #[trigger] inventory_labels(files@, pattern@)->Some_0[k],
            ),
        r is Ok ==> forall|k: int|
            0 <= k < r->Ok_0@.len() ==> #[trigger] r->Ok_0@[k].status == Status::UNLOADED || from_some_line(
                r->Ok_0@[k],
                lines_of(listing@),
            ),
{
    let live = TaskInfo::from_str_filter(listing, pattern, out_dir);
    let ghost lv = live@;
    match meta_yaml_list(files, pattern) {
        Err(e) => Err(e),
        Ok(inv) => {
            let ghost iv = inv@;
            let r = list_combined(live, inv);
            proof {
                assert forall|i: int|
                    1 <= i < lines_of(listing@).len() && label_kept(#[trigger] line_label(lines_of(listing@)[i]), pattern@)
                        implies has_label(r@, line_label(lines_of(listing@)[i])) by {
                    let w = choose|w: int| 0 <= w < lv.len() && #[trigger] lv[w].label@ == line_label(lines_of(listing@)[i]);
                    assert(r@.contains(lv[w]));
                }
                assert forall|k: int| 0 <= k < inventory_labels(files@, pattern@)->Some_0.len() implies has_label(
                    r@,
                    #[trigger] inventory_labels(files@, pattern@)->Some_0[k],
                ) by {
                    assert(iv[k].label@ == inventory_labels(files@, pattern@)->Some_0[k]);
                }
                assert forall|k: int| 0 <= k < r@.len() implies #[trigger] r@[k].status == Status::UNLOADED || from_some_line(
                    r@[k],
                    lines_of(listing@),
                ) by {
                    if lv.contains(r@[k]) {
                        let w = choose|w: int| 0 <= w < lv.len() && lv[w] == r@[k];
                        assert(filtered(lv, listing@, pattern@));
                        assert(label_kept(lv[w].label@, pattern@));
                        assert(from_some_line(lv[w], lines_of(listing@)));
                    } else {
                        let w = choose|w: int| 0 <= w < iv.len() && iv[w] == r@[k];
                    }
                }
            }
            Ok(r)
        },
    }
}

} // verus!
