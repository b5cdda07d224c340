use vstd::prelude::*;

verus! {

/// Lexicographic order on character sequences, the order of `str`'s `Ord`.
pub open spec fn seq_lt(a: Seq<char>, b: Seq<char>) -> bool
    decreases a.len(),
{
    if b.len() == 0 {
        false
    } else if a.len() == 0 {
        true
    } else if a[0] != b[0] {
        a[0] < b[0]
    } else {
        seq_lt(a.drop_first(), b.drop_first())
    }
}

proof fn lemma_lt_irrefl(a: Seq<char>)
    ensures
        !seq_lt(a, a),
    decreases a.len(),
{
    if a.len() > 0 {
        lemma_lt_irrefl(a.drop_first());
    }
}

proof fn lemma_lt_pair(a: Seq<char>, b: Seq<char>)
    ensures
        a != b ==> seq_lt(a, b) || seq_lt(b, a),
        !(seq_lt(a, b) && seq_lt(b, a)),
    decreases a.len() + b.len(),
{
    if a.len() > 0 && b.len() > 0 {
        lemma_lt_pair(a.drop_first(), b.drop_first());
        if a[0] == b[0] && a.drop_first() == b.drop_first() {
            assert(a =~= seq![a[0]] + a.drop_first());
            assert(b =~= seq![b[0]] + b.drop_first());
        }
    } else if a.len() == 0 && b.len() == 0 {
        assert(a =~= b);
    }
}

proof fn lemma_lt_trans(a: Seq<char>, b: Seq<char>, c: Seq<char>)
    ensures
        seq_lt(a, b) && seq_lt(b, c) ==> seq_lt(a, c),
    decreases a.len(),
{
    if a.len() > 0 && b.len() > 0 && c.len() > 0 {
        lemma_lt_trans(a.drop_first(), b.drop_first(), c.drop_first());
    }
}

/// The order on character sequences is strict and total.
pub proof fn lemma_seq_lt_order(a: Seq<char>, b: Seq<char>, c: Seq<char>)
    ensures
        !seq_lt(a, a),
        a != b ==> seq_lt(a, b) || seq_lt(b, a),
        !(seq_lt(a, b) && seq_lt(b, a)),
        seq_lt(a, b) && seq_lt(b, c) ==> seq_lt(a, c),
{
    lemma_lt_irrefl(a);
    lemma_lt_pair(a, b);
    lemma_lt_trans(a, b, c);
}

/// Whether `p` is a prefix of `s`.
pub open spec fn is_prefix(p: Seq<char>, s: Seq<char>) -> bool {
    p.len() <= s.len() && s.subrange(0, p.len() as int) == p
}

/// Whether `p` occurs in `s` as a contiguous part.
pub open spec fn occurs_in(p: Seq<char>, s: Seq<char>) -> bool {
    exists|i: int| 0 <= i && i + p.len() <= s.len() && #[trigger] s.subrange(i, i + p.len()) == p
}

/// Character equality of two strings.
pub fn text_eq(a: &str, b: &str) -> (r: bool)
    ensures
        r == (a@ == b@),
{
    let n = a.unicode_len();
    if n != b.unicode_len() {
        return false;
    }
    let mut i: usize = 0;
    while i < n
        invariant
            n == a@.len(),
            n == b@.len(),
            i <= n,
            a@.subrange(0, i as int) == b@.subrange(0, i as int),
        decreases n - i,
    {
        if a.get_char(i) != b.get_char(i) {
            assert(a@[i as int] != b@[i as int]);
            return false;
        }
        assert(a@.subrange(0, i + 1) == a@.subrange(0, i as int).push(a@[i as int]));
        assert(b@.subrange(0, i + 1) == b@.subrange(0, i as int).push(b@[i as int]));
        i = i + 1;
    }
    assert(a@ == a@.subrange(0, n as int));
    assert(b@ == b@.subrange(0, n as int));
    true
}

proof fn lemma_lt_common_prefix(a: Seq<char>, b: Seq<char>, i: int)
    requires
        0 <= i <= a.len(),
        i <= b.len(),
        a.subrange(0, i) == b.subrange(0, i),
    ensures
        seq_lt(a, b) == seq_lt(a.subrange(i, a.len() as int), b.subrange(i, b.len() as int)),
    decreases i,
{
    if i > 0 {
        assert(a[0] == a.subrange(0, i)[0]);
        assert(b[0] == b.subrange(0, i)[0]);
        assert(a.drop_first().subrange(0, i - 1) == a.subrange(0, i).drop_first());
        assert(b.drop_first().subrange(0, i - 1) == b.subrange(0, i).drop_first());
        lemma_lt_common_prefix(a.drop_first(), b.drop_first(), i - 1);
        assert(a.drop_first().subrange(i - 1, a.len() - 1) == a.subrange(i, a.len() as int));
        assert(b.drop_first().subrange(i - 1, b.len() - 1) == b.subrange(i, b.len() as int));
    } else {
        assert(a.subrange(0, a.len() as int) == a);
        assert(b.subrange(0, b.len() as int) == b);
    }
}

/// Lexicographic comparison of two strings.
pub fn text_less(a: &str, b: &str) -> (r: bool)
    ensures
        r == seq_lt(a@, b@),
{
    let na = a.unicode_len();
    let nb = b.unicode_len();
    let mut i: usize = 0;
    while i < na && i < nb
        invariant
            na == a@.len(),
            nb == b@.len(),
            i <= na,
            i <= nb,
            a@.subrange(0, i as int) == b@.subrange(0, i as int),
        decreases na - i,
    {
        let ca = a.get_char(i);
        let cb = b.get_char(i);
        if ca != cb {
            proof {
                lemma_lt_common_prefix(a@, b@, i as int);
                let ra = a@.subrange(i as int, na as int);
                let rb = b@.subrange(i as int, nb as int);
                assert(ra[0] == ca && rb[0] == cb);
            }
            return ca < cb;
        }
        assert(a@.subrange(0, i + 1) == a@.subrange(0, i as int).push(a@[i as int]));
        assert(b@.subrange(0, i + 1) == b@.subrange(0, i as int).push(b@[i as int]));
        i = i + 1;
    }
    proof {
        lemma_lt_common_prefix(a@, b@, i as int);
    }
    i < nb
}

} // verus!

verus! {

/// A character of `[A-Za-z0-9_]`.
pub open spec fn is_word_char(c: char) -> bool {
    ('a' <= c && c <= 'z') || ('A' <= c && c <= 'Z') || ('0' <= c && c <= '9') || c == '_'
}

/// A character of `[A-Za-z0-9]`.
pub open spec fn is_alnum(c: char) -> bool {
    ('a' <= c && c <= 'z') || ('A' <= c && c <= 'Z') || ('0' <= c && c <= '9')
}

/// Non-empty runs of characters of `allowed`, separated by single dots.
pub open spec fn dotted_runs(s: Seq<char>, allowed: spec_fn(char) -> bool) -> bool {
    &&& s.len() > 0
    &&& s[0] != '.'
    &&& s[s.len() - 1] != '.'
    &&& forall|i: int| 0 <= i < s.len() ==> (#[trigger] allowed(s[i]) || s[i] == '.')
    &&& forall|i: int| 0 <= i < s.len() - 1 && s[i] == '.' ==> #[trigger] s[i + 1] != '.'
}

/// The text of the pattern that a job label must match.
pub open spec fn label_pattern() -> Seq<char> {
    "^[A-Za-z0-9_]+(\\.[A-Za-z0-9_]+)*$"@
}

/// The text of the pattern that a host name must match.
pub open spec fn domain_pattern() -> Seq<char> {
    "^[A-Za-z0-9]{1,63}(\\.[A-Za-z0-9]{1,63})*$"@
}

/// The texts matched by the label pattern.
pub open spec fn label_matches(s: Seq<char>) -> bool {
    dotted_runs(s, |c: char| is_word_char(c))
}

/// Whether one of the 64 characters from `i` on is a dot.
pub open spec fn dot_within_64(s: Seq<char>, i: int) -> bool {
    exists|j: int| i <= j < i + 64 && s[j] == '.'
}

/// The texts matched by the host-name pattern: runs of at most 63 characters.
pub open spec fn domain_matches(s: Seq<char>) -> bool {
    &&& dotted_runs(s, |c: char| is_alnum(c))
    &&& forall|i: int| 0 <= i && i + 64 <= s.len() ==> #[trigger] dot_within_64(s, i)
}

/// Relies on regex::Regex::new and Regex::is_match: the two patterns are valid,
/// anchored at both ends, and match the texts that the spec functions describe.
#[verifier::external_body]
pub(crate) fn regex_is_match(pattern: &str, text: &str) -> (r: bool)
    requires
        pattern@ == label_pattern() || pattern@ == domain_pattern(),
    ensures
        pattern@ == label_pattern() ==> r == label_matches(text@),
        pattern@ == domain_pattern() ==> r == domain_matches(text@),
{
    regex::Regex::new(pattern).unwrap().is_match(text)
}

/// The text of the pattern that captures the label of a declarative file name.
pub open spec fn yaml_name_pattern() -> Seq<char> {
    "^(.+)\\.yaml$"@
}

/// The label that the declarative file name captures: all before a final
/// `.yaml`, at least one character and no line break.
pub open spec fn yaml_stem(name: Seq<char>) -> Option<Seq<char>> {
    if name.len() > 5 && name.subrange(name.len() - 5, name.len() as int) == ".yaml"@ && forall|i: int|
        0 <= i < name.len() - 5 ==> name[i] != '\n' {
        Some(name.subrange(0, name.len() - 5))
    } else {
        None
    }
}

/// Relies on regex::Regex::new and Regex::captures: the pattern is valid and
/// anchored; its group takes one or more characters other than a line break,
/// followed by `.yaml` at the end.
#[verifier::external_body]
pub(crate) fn regex_capture(pattern: &str, text: &str) -> (r: Option<String>)
    requires
        pattern@ == yaml_name_pattern(),
    ensures
        r is Some <==> yaml_stem(text@) is Some,
        r is Some ==> r->Some_0@ == yaml_stem(text@)->Some_0,
{
    regex::Regex::new(pattern).unwrap().captures(text).map(|c| c[1].to_owned())
}

/// Whether `s` ends with `p`.
pub fn ends_with(s: &str, p: &str) -> (r: bool)
    ensures
        r == (p@.len() <= s@.len() && s@.subrange(s@.len() - p@.len(), s@.len() as int) == p@),
{
    let n = s.unicode_len();
    let m = p.unicode_len();
    if m > n {
        return false;
    }
    text_eq(s.substring_char(n - m, n), p)
}

/// The decimal digits of `n`.
pub open spec fn digits_of(n: nat) -> Seq<char>
    decreases n,
{
    if n < 10 {
        seq![(n + 48) as char]
    } else {
        digits_of(n / 10).push(((n % 10) + 48) as char)
    }
}

/// How `Display` writes an integer: its digits, after a minus sign if negative.
pub open spec fn decimal_text(n: int) -> Seq<char> {
    if n < 0 {
        seq!['-'] + digits_of((-n) as nat)
    } else {
        digits_of(n as nat)
    }
}

/// Relies on i64's `Display` (through `to_string`): decimal digits, with a minus
/// sign for a negative number.
#[verifier::external_body]
pub(crate) fn int_text(n: i64) -> (r: String)
    ensures
        r@ == decimal_text(n as int),
{
    n.to_string()
}

/// Joins `a` and `b` into a new string.
pub fn join_text(a: &str, b: &str) -> (r: String)
    ensures
        r@ == a@ + b@,
{
    let mut s = a.to_owned();
    s.append(b);
    s
}

/// Whether `s` starts with `p`.
pub fn starts_with(s: &str, p: &str) -> (r: bool)
    ensures
        r == is_prefix(p@, s@),
{
    let n = p.unicode_len();
    if n > s.unicode_len() {
        return false;
    }
    let mut i: usize = 0;
    while i < n
        invariant
            n == p@.len(),
            n <= s@.len(),
            i <= n,
            s@.subrange(0, i as int) == p@.subrange(0, i as int),
        decreases n - i,
    {
        if s.get_char(i) != p.get_char(i) {
            assert(s@.subrange(0, n as int)[i as int] != p@[i as int]);
            return false;
        }
        assert(s@.subrange(0, i + 1) == s@.subrange(0, i as int).push(s@[i as int]));
        assert(p@.subrange(0, i + 1) == p@.subrange(0, i as int).push(p@[i as int]));
        i = i + 1;
    }
    assert(p@.subrange(0, n as int) == p@);
    true
}

/// Whether `p` occurs in `s`.
pub fn contains(s: &str, p: &str) -> (r: bool)
    ensures
        r == occurs_in(p@, s@),
{
    let n = s.unicode_len();
    let m = p.unicode_len();
    if m > n {
        return false;
    }
    let mut i: usize = 0;
    while i <= n - m
        invariant
            n == s@.len(),
            m == p@.len(),
            m <= n,
            i <= n - m + 1,
            forall|k: int| 0 <= k < i ==> #[trigger] s@.subrange(k, k + m) != p@,
        decreases n + 1 - i,
    {
        let part = s.substring_char(i, i + m);
        if text_eq(part, p) {
            return true;
        }
        if i == n - m {
            assert forall|k: int| 0 <= k && k + p@.len() <= s@.len() implies #[trigger] s@.subrange(k, k + p@.len()) != p@ by {
                assert(k <= i);
            }
            return false;
        }
        i = i + 1;
    }
    assert forall|k: int| 0 <= k && k + p@.len() <= s@.len() implies #[trigger] s@.subrange(k, k + p@.len()) != p@ by {
        assert(k < i);
    }
    false
}

} // verus!
