//! The launchd property list of a job, written directly from the typed model.
use crate::config::{
    kind_name, kind_of, AliveCondition, CalendarInterval, Config, Configuration, JobView,
    ResourceLimit,
};
use crate::text::decimal_text;
use crate::text::int_text;
use vstd::prelude::*;

verus! {

pub open spec fn tabs(d: nat) -> Seq<char>
    decreases d,
{
    if d == 0 {
        Seq::empty()
    } else {
        tabs((d - 1) as nat) + "\t"@
    }
}

/// A character as XML text writes it.
pub open spec fn escaped_char(c: char) -> Seq<char> {
    if c == '&' {
        "&amp;"@
    } else if c == '<' {
        "&lt;"@
    } else if c == '>' {
        "&gt;"@
    } else {
        seq![c]
    }
}

/// Text as XML writes it.
pub open spec fn escaped(s: Seq<char>) -> Seq<char>
    decreases s.len(),
{
    if s.len() == 0 {
        Seq::empty()
    } else {
        escaped(s.drop_last()) + escaped_char(s.last())
    }
}

pub open spec fn key_line(d: nat, k: Seq<char>) -> Seq<char> {
    tabs(d) + "<key>"@ + escaped(k) + "</key>\n"@
}

pub open spec fn string_line(d: nat, v: Seq<char>) -> Seq<char> {
    tabs(d) + "<string>"@ + escaped(v) + "</string>\n"@
}

pub open spec fn bool_line(d: nat, b: bool) -> Seq<char> {
    tabs(d) + if b {
        "<true />\n"@
    } else {
        "<false />\n"@
    }
}

pub open spec fn integer_line(d: nat, n: int) -> Seq<char> {
    tabs(d) + "<integer>"@ + decimal_text(n) + "</integer>\n"@
}

pub open spec fn tag_line(d: nat, tag: Seq<char>) -> Seq<char> {
    tabs(d) + tag
}

pub open spec fn int_entry(d: nat, name: Seq<char>, v: Option<i64>) -> Seq<char> {
    match v {
        Some(n) => key_line(d, name) + integer_line(d, n as int),
        None => Seq::empty(),
    }
}

pub open spec fn bool_entry(d: nat, name: Seq<char>, v: Option<bool>) -> Seq<char> {
    match v {
        Some(b) => key_line(d, name) + bool_line(d, b),
        None => Seq::empty(),
    }
}

pub open spec fn calendar_body(d: nat, c: CalendarInterval) -> Seq<char> {
    int_entry(d, "Minute"@, c.minute) + int_entry(d, "Hour"@, c.hour) + int_entry(d, "Day"@, c.day)
        + int_entry(d, "Weekday"@, c.weekday) + int_entry(d, "Month"@, c.month)
}

pub open spec fn calendars(d: nat, v: Seq<CalendarInterval>) -> Seq<char>
    decreases v.len(),
{
    if v.len() == 0 {
        Seq::empty()
    } else {
        calendars(d, v.drop_last()) + tag_line(d, "<dict>\n"@) + calendar_body(d + 1, v.last())
            + tag_line(d, "</dict>\n"@)
    }
}

pub open spec fn limit_body(d: nat, l: ResourceLimit) -> Seq<char> {
    int_entry(d, "CPU"@, l.cpu) + int_entry(d, "FileSize"@, l.file_size) + int_entry(
        d,
        "NumberOfFiles"@,
        l.number_of_files,
    ) + int_entry(d, "NumberOfProcesses"@, l.number_of_processes) + int_entry(
        d,
        "ResidentSetSize"@,
        l.resident_set_size,
    ) + int_entry(d, "Stack"@, l.stack)
}

pub open spec fn string_items(d: nat, v: Seq<String>) -> Seq<char>
    decreases v.len(),
{
    if v.len() == 0 {
        Seq::empty()
    } else {
        string_items(d, v.drop_last()) + string_line(d, v.last()@)
    }
}

pub open spec fn string_pairs(d: nat, m: Seq<(String, String)>) -> Seq<char>
    decreases m.len(),
{
    if m.len() == 0 {
        Seq::empty()
    } else {
        string_pairs(d, m.drop_last()) + key_line(d, m.last().0@) + string_line(d, m.last().1@)
    }
}

pub open spec fn bool_pairs(d: nat, m: Seq<(String, bool)>) -> Seq<char>
    decreases m.len(),
{
    if m.len() == 0 {
        Seq::empty()
    } else {
        bool_pairs(d, m.drop_last()) + key_line(d, m.last().0@) + bool_line(d, m.last().1)
    }
}

pub open spec fn alive_body(d: nat, a: AliveCondition) -> Seq<char> {
    bool_entry(d, "SuccessfulExit"@, a.successful_exit) + match a.other_job_enabled {
        Some(m) => key_line(d, "OtherJobEnabled"@) + tag_line(d, "<dict>\n"@) + bool_pairs(d + 1, m@)
            + tag_line(d, "</dict>\n"@),
        None => Seq::empty(),
    } + bool_entry(d, "Crashed"@, a.crashed)
}

/// The value of an option, as elements at depth `d`.
pub open spec fn option_value(d: nat, c: Config) -> Seq<char> {
    match c {
        Config::ProgramArguments(v) => tag_line(d, "<array>\n"@) + string_items(d + 1, v@) + tag_line(
            d,
            "</array>\n"@,
        ),
        Config::EnvironmentVariables(m) => tag_line(d, "<dict>\n"@) + string_pairs(d + 1, m@)
            + tag_line(d, "</dict>\n"@),
        Config::KeepAlive(a) => tag_line(d, "<dict>\n"@) + alive_body(d + 1, a) + tag_line(
            d,
            "</dict>\n"@,
        ),
        Config::RunAtLoad(b) => bool_line(d, b),
        Config::WorkingDirectory(s) => string_line(d, s@),
        Config::UserName(s) => string_line(d, s@),
        Config::GroupName(s) => string_line(d, s@),
        Config::RootDirectory(s) => string_line(d, s@),
        Config::ExitTimeOut(n) => integer_line(d, n as int),
        Config::StartInterval(n) => integer_line(d, n as int),
        Config::StartCalendarInterval(v) => tag_line(d, "<array>\n"@) + calendars(d + 1, v@)
            + tag_line(d, "</array>\n"@),
        Config::StandardInPath(s) => string_line(d, s@),
        Config::StandardOutPath(s) => string_line(d, s@),
        Config::StandardErrorPath(s) => string_line(d, s@),
        Config::SoftResourceLimit(l) => tag_line(d, "<dict>\n"@) + limit_body(d + 1, l) + tag_line(
            d,
            "</dict>\n"@,
        ),
        Config::HardResourceLimits(l) => tag_line(d, "<dict>\n"@) + limit_body(d + 1, l) + tag_line(
            d,
            "</dict>\n"@,
        ),
    }
}

/// The options as entries of the top-level dictionary, each under its kind's name.
pub open spec fn option_entries(s: Seq<Config>) -> Seq<char>
    decreases s.len(),
{
    if s.len() == 0 {
        Seq::empty()
    } else {
        option_entries(s.drop_last()) + key_line(1, kind_name(kind_of(s.last()))) + option_value(
            1,
            s.last(),
        )
    }
}

pub open spec fn plist_header() -> Seq<char> {
    "<?xml version=\"1.0\" encoding=\"UTF-8\"?>\n<!DOCTYPE plist PUBLIC \"-//Apple//DTD PLIST 1.0//EN\" \"http://www.apple.com/DTDs/PropertyList-1.0.dtd\">\n<plist version=\"1.0\">\n<dict>\n"@
}

/// The property list of a job: its label, its program, then its options in order.
pub open spec fn descriptor_text(v: JobView) -> Seq<char> {
    plist_header() + key_line(1, "Label"@) + string_line(1, v.label) + key_line(1, "Program"@)
        + string_line(1, v.program) + option_entries(v.options) + "</dict>\n</plist>"@
}

fn write_tabs(out: &mut String, d: usize)
    ensures
        final(out)@ == old(out)@ + tabs(d as nat),
{
    let ghost start = out@;
    let mut i: usize = 0;
    while i < d
        invariant
            i <= d,
            out@ == start + tabs(i as nat),
        decreases d - i,
    {
        out.append("\t");
        proof {
            assert(tabs((i + 1) as nat) == tabs(i as nat) + "\t"@);
            assert(out@ =~= start + tabs((i + 1) as nat));
        }
        i = i + 1;
    }
}

fn write_escaped(out: &mut String, s: &str)
    ensures
        final(out)@ == old(out)@ + escaped(s@),
{
    let ghost start = out@;
    let n = s.unicode_len();
    let mut i: usize = 0;
    assert(s@.subrange(0, 0) =~= Seq::<char>::empty());
    while i < n
        invariant
            n == s@.len(),
            i <= n,
            out@ == start + escaped(s@.subrange(0, i as int)),
        decreases n - i,
    {
        let c = s.get_char(i);
        let ghost before = out@;
        if c == '&' {
            out.append("&amp;");
        } else if c == '<' {
            out.append("&lt;");
        } else if c == '>' {
            out.append("&gt;");
        } else {
            out.append(s.substring_char(i, i + 1));
            assert(s@.subrange(i as int, i + 1) =~= seq![c]);
        }
        proof {
            let pre = s@.subrange(0, i + 1);
            assert(pre.drop_last() =~= s@.subrange(0, i as int));
            assert(pre.last() == c);
            assert(out@ =~= start + escaped(pre));
        }
        i = i + 1;
    }
    assert(s@.subrange(0, n as int) =~= s@);
}

fn write_tag(out: &mut String, d: usize, tag: &str)
    ensures
        final(out)@ == old(out)@ + tag_line(d as nat, tag@),
{
    let ghost start = out@;
    write_tabs(out, d);
    out.append(tag);
    assert(out@ =~= start + tag_line(d as nat, tag@));
}

fn write_key(out: &mut String, d: usize, k: &str)
    ensures
        final(out)@ == old(out)@ + key_line(d as nat, k@),
{
    let ghost start = out@;
    write_tabs(out, d);
    out.append("<key>");
    write_escaped(out, k);
    out.append("</key>\n");
    assert(out@ =~= start + key_line(d as nat, k@));
}

fn write_string(out: &mut String, d: usize, v: &str)
    ensures
        final(out)@ == old(out)@ + string_line(d as nat, v@),
{
    let ghost start = out@;
    write_tabs(out, d);
    out.append("<string>");
    write_escaped(out, v);
    out.append("</string>\n");
    assert(out@ =~= start + string_line(d as nat, v@));
}

fn write_bool(out: &mut String, d: usize, b: bool)
    ensures
        final(out)@ == old(out)@ + bool_line(d as nat, b),
{
    let ghost start = out@;
    write_tabs(out, d);
    if b {
        out.append("<true />\n");
    } else {
        out.append("<false />\n");
    }
    assert(out@ =~= start + bool_line(d as nat, b));
}

fn write_integer(out: &mut String, d: usize, n: i64)
    ensures
        final(out)@ == old(out)@ + integer_line(d as nat, n as int),
{
    let ghost start = out@;
    write_tabs(out, d);
    out.append("<integer>");
    let t = int_text(n);
    out.append(t.as_str());
    out.append("</integer>\n");
    assert(out@ =~= start + integer_line(d as nat, n as int));
}

fn write_int_entry(out: &mut String, d: usize, name: &str, v: Option<i64>)
    ensures
        final(out)@ == old(out)@ + int_entry(d as nat, name@, v),
{
    let ghost start = out@;
    match v {
        Some(n) => {
            write_key(out, d, name);
            write_integer(out, d, n);
            assert(out@ =~= start + int_entry(d as nat, name@, v));
        },
        None => {
            assert(out@ =~= start + int_entry(d as nat, name@, v));
        },
    }
}

fn write_bool_entry(out: &mut String, d: usize, name: &str, v: Option<bool>)
    ensures
        final(out)@ == old(out)@ + bool_entry(d as nat, name@, v),
{
    let ghost start = out@;
    match v {
        Some(b) => {
            write_key(out, d, name);
            write_bool(out, d, b);
            assert(out@ =~= start + bool_entry(d as nat, name@, v));
        },
        None => {
            assert(out@ =~= start + bool_entry(d as nat, name@, v));
        },
    }
}

fn write_calendar_body(out: &mut String, d: usize, c: &CalendarInterval)
    ensures
        final(out)@ == old(out)@ + calendar_body(d as nat, *c),
{
    let ghost start = out@;
    write_int_entry(out, d, "Minute", c.minute);
    write_int_entry(out, d, "Hour", c.hour);
    write_int_entry(out, d, "Day", c.day);
    write_int_entry(out, d, "Weekday", c.weekday);
    write_int_entry(out, d, "Month", c.month);
    assert(out@ =~= start + calendar_body(d as nat, *c));
}

fn write_limit_body(out: &mut String, d: usize, l: &ResourceLimit)
    ensures
        final(out)@ == old(out)@ + limit_body(d as nat, *l),
{
    let ghost start = out@;
    write_int_entry(out, d, "CPU", l.cpu);
    write_int_entry(out, d, "FileSize", l.file_size);
    write_int_entry(out, d, "NumberOfFiles", l.number_of_files);
    write_int_entry(out, d, "NumberOfProcesses", l.number_of_processes);
    write_int_entry(out, d, "ResidentSetSize", l.resident_set_size);
    write_int_entry(out, d, "Stack", l.stack);
    assert(out@ =~= start + limit_body(d as nat, *l));
}

fn write_calendars(out: &mut String, d: usize, v: &Vec<CalendarInterval>)
    requires
        d < 100,
    ensures
        final(out)@ == old(out)@ + calendars(d as nat, v@),
{
    let ghost start = out@;
    let n = v.len();
    let mut i: usize = 0;
    assert(v@.subrange(0, 0) =~= Seq::<CalendarInterval>::empty());
    while i < n
        invariant
            d < 100,
            n == v@.len(),
            i <= n,
            out@ == start + calendars(d as nat, v@.subrange(0, i as int)),
        decreases n - i,
    {
        write_tag(out, d, "<dict>\n");
        write_calendar_body(out, d + 1, &v[i]);
        write_tag(out, d, "</dict>\n");
        proof {
            let pre = v@.subrange(0, i + 1);
            assert(pre.drop_last() =~= v@.subrange(0, i as int));
            assert(out@ =~= start + calendars(d as nat, pre));
        }
        i = i + 1;
    }
    assert(v@.subrange(0, n as int) =~= v@);
}

fn write_string_items(out: &mut String, d: usize, v: &Vec<String>)
    ensures
        final(out)@ == old(out)@ + string_items(d as nat, v@),
{
    let ghost start = out@;
    let n = v.len();
    let mut i: usize = 0;
    assert(v@.subrange(0, 0) =~= Seq::<String>::empty());
    while i < n
        invariant
            n == v@.len(),
            i <= n,
            out@ == start + string_items(d as nat, v@.subrange(0, i as int)),
        decreases n - i,
    {
        write_string(out, d, v[i].as_str());
        proof {
            let pre = v@.subrange(0, i + 1);
            assert(pre.drop_last() =~= v@.subrange(0, i as int));
            assert(out@ =~= start + string_items(d as nat, pre));
        }
        i = i + 1;
    }
    assert(v@.subrange(0, n as int) =~= v@);
}

fn write_string_pairs(out: &mut String, d: usize, m: &Vec<(String, String)>)
    ensures
        final(out)@ == old(out)@ + string_pairs(d as nat, m@),
{
    let ghost start = out@;
    let n = m.len();
    let mut i: usize = 0;
    assert(m@.subrange(0, 0) =~= Seq::<(String, String)>::empty());
    while i < n
        invariant
            n == m@.len(),
            i <= n,
            out@ == start + string_pairs(d as nat, m@.subrange(0, i as int)),
        decreases n - i,
    {
        write_key(out, d, m[i].0.as_str());
        write_string(out, d, m[i].1.as_str());
        proof {
            let pre = m@.subrange(0, i + 1);
            assert(pre.drop_last() =~= m@.subrange(0, i as int));
            assert(out@ =~= start + string_pairs(d as nat, pre));
        }
        i = i + 1;
    }
    assert(m@.subrange(0, n as int) =~= m@);
}

fn write_bool_pairs(out: &mut String, d: usize, m: &Vec<(String, bool)>)
    ensures
        final(out)@ == old(out)@ + bool_pairs(d as nat, m@),
{
    let ghost start = out@;
    let n = m.len();
    let mut i: usize = 0;
    assert(m@.subrange(0, 0) =~= Seq::<(String, bool)>::empty());
    while i < n
        invariant
            n == m@.len(),
            i <= n,
            out@ == start + bool_pairs(d as nat, m@.subrange(0, i as int)),
        decreases n - i,
    {
        write_key(out, d, m[i].0.as_str());
        write_bool(out, d, m[i].1);
        proof {
            let pre = m@.subrange(0, i + 1);
            assert(pre.drop_last() =~= m@.subrange(0, i as int));
            assert(out@ =~= start + bool_pairs(d as nat, pre));
        }
        i = i + 1;
    }
    assert(m@.subrange(0, n as int) =~= m@);
}

fn write_alive_body(out: &mut String, d: usize, a: &AliveCondition)
    requires
        d < 100,
    ensures
        final(out)@ == old(out)@ + alive_body(d as nat, *a),
{
    let ghost start = out@;
    write_bool_entry(out, d, "SuccessfulExit", a.successful_exit);
    let ghost mid = out@;
    match &a.other_job_enabled {
        Some(m) => {
            write_key(out, d, "OtherJobEnabled");
            write_tag(out, d, "<dict>\n");
            write_bool_pairs(out, d + 1, m);
            write_tag(out, d, "</dict>\n");
        },
        None => {},
    }
    write_bool_entry(out, d, "Crashed", a.crashed);
    assert(out@ =~= start + alive_body(d as nat, *a));
}

fn write_option_value(out: &mut String, d: usize, c: &Config)
    requires
        d < 50,
    ensures
        final(out)@ == old(out)@ + option_value(d as nat, *c),
{
    let ghost start = out@;
    match c {
        Config::ProgramArguments(v) => {
            write_tag(out, d, "<array>\n");
            write_string_items(out, d + 1, v);
            write_tag(out, d, "</array>\n");
        },
        Config::EnvironmentVariables(m) => {
            write_tag(out, d, "<dict>\n");
            write_string_pairs(out, d + 1, m);
            write_tag(out, d, "</dict>\n");
        },
        Config::KeepAlive(a) => {
            write_tag(out, d, "<dict>\n");
            write_alive_body(out, d + 1, a);
            write_tag(out, d, "</dict>\n");
        },
        Config::RunAtLoad(b) => write_bool(out, d, *b),
        Config::WorkingDirectory(s) => write_string(out, d, s.as_str()),
        Config::UserName(s) => write_string(out, d, s.as_str()),
        Config::GroupName(s) => write_string(out, d, s.as_str()),
        Config::RootDirectory(s) => write_string(out, d, s.as_str()),
        Config::ExitTimeOut(n) => write_integer(out, d, *n),
        Config::StartInterval(n) => write_integer(out, d, *n),
        Config::StartCalendarInterval(v) => {
            write_tag(out, d, "<array>\n");
            write_calendars(out, d + 1, v);
            write_tag(out, d, "</array>\n");
        },
        Config::StandardInPath(s) => write_string(out, d, s.as_str()),
        Config::StandardOutPath(s) => write_string(out, d, s.as_str()),
        Config::StandardErrorPath(s) => write_string(out, d, s.as_str()),
        Config::SoftResourceLimit(l) => {
            write_tag(out, d, "<dict>\n");
            write_limit_body(out, d + 1, l);
            write_tag(out, d, "</dict>\n");
        },
        Config::HardResourceLimits(l) => {
            write_tag(out, d, "<dict>\n");
            write_limit_body(out, d + 1, l);
            write_tag(out, d, "</dict>\n");
        },
    }
    assert(out@ =~= start + option_value(d as nat, *c));
}

impl Configuration {
    /// The launchd property list of the job: the label, the program, then each
    /// option under its kind's name, in order. The same job always gives the
    /// same text.
    pub fn to_plist(&self) -> (r: String)
        ensures
            r@ == descriptor_text(self@),
    {
        let mut out = "<?xml version=\"1.0\" encoding=\"UTF-8\"?>\n<!DOCTYPE plist PUBLIC \"-//Apple//DTD PLIST 1.0//EN\" \"http://www.apple.com/DTDs/PropertyList-1.0.dtd\">\n<plist version=\"1.0\">\n<dict>\n".to_owned();
        write_key(&mut out, 1, "Label");
        write_string(&mut out, 1, self.label.as_str());
        write_key(&mut out, 1, "Program");
        write_string(&mut out, 1, self.program.as_str());
        let ghost before = out@;
        let n = self.configuration.len();
        let mut i: usize = 0;
        assert(self.configuration@.subrange(0, 0) =~= Seq::<Config>::empty());
        while i < n
            invariant
                n == self.configuration@.len(),
                i <= n,
                out@ == before + option_entries(self.configuration@.subrange(0, i as int)),
            decreases n - i,
        {
            let c = &self.configuration[i];
            write_key(&mut out, 1, c.kind().name());
            write_option_value(&mut out, 1, c);
            proof {
                let pre = self.configuration@.subrange(0, i + 1);
                assert(pre.drop_last() =~= self.configuration@.subrange(0, i as int));
                assert(out@ =~= before + option_entries(pre));
            }
            i = i + 1;
        }
        assert(self.configuration@.subrange(0, n as int) =~= self.configuration@);
        let ghost body = out@;
        out.append("</dict>\n</plist>");
        assert(out@ =~= descriptor_text(self@));
        out
    }
}

/// The launchd property list of a job.
pub fn get_plist_from_conf(conf: &Configuration) -> (r: String)
    ensures
        r@ == descriptor_text(conf@),
{
    conf.to_plist()
}

/// Writing the property list is a function of the job alone: two jobs that
/// hold the same values give the same text, byte for byte.
pub proof fn lemma_descriptor_deterministic(a: Configuration, b: Configuration)
    requires
        a@ == b@,
    ensures
        descriptor_text(a@) == descriptor_text(b@),
{
}

} // verus!
