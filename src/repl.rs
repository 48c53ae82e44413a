use vstd::prelude::*;
use vstd::string::*;

verus! {

/// What the evaluation loop does with one line of input.
#[derive(Debug, Clone, Copy, PartialEq, Eq, Structural)]
pub enum LineKind {
    /// An empty line or a comment: nothing is compiled.
    Skip,
    /// A definition (`def`, `let`, `type`), compiled as a program.
    Definition,
    /// Anything else, compiled as an expression.
    Expression,
}

/// Names what `str::trim` leaves of a line.
pub uninterp spec fn trimmed(s: Seq<char>) -> Seq<char>;

/// `part` is a contiguous run of the characters of `s`.
pub open spec fn is_segment(part: Seq<char>, s: Seq<char>) -> bool {
    exists|i: int, j: int| 0 <= i <= j <= s.len() && part == s.subrange(i, j)
}

/// Relies on `str::trim`: the result is the slice of the line left without
/// its leading and trailing whitespace, and depends on the line alone.
#[verifier::external_body]
fn trim_line(s: &str) -> (r: String)
    ensures
        r@ == trimmed(s@),
        is_segment(r@, s@),
        s@.len() == 0 ==> r@.len() == 0,
{
    s.trim().to_string()
}

pub open spec fn has_prefix(t: Seq<char>, p: Seq<char>) -> bool {
    p.len() <= t.len() && t.subrange(0, p.len() as int) == p
}

/// The kind of an already trimmed line.
pub open spec fn kind_of(t: Seq<char>) -> LineKind {
    if t.len() == 0 || has_prefix(t, seq!['/', '/']) {
        LineKind::Skip
    } else if has_prefix(t, seq!['d', 'e', 'f']) || has_prefix(t, seq!['l', 'e', 't'])
        || has_prefix(t, seq!['t', 'y', 'p', 'e']) {
        LineKind::Definition
    } else {
        LineKind::Expression
    }
}

/// Whether `t` begins with the characters `p`.
fn starts_with(t: &str, p: &str) -> (r: bool)
    ensures
        r == has_prefix(t@, p@),
{
    let n = t.unicode_len();
    let m = p.unicode_len();
    if m > n {
        return false;
    }
    let mut i: usize = 0;
    while i < m
        invariant
            m <= n,
            n == t@.len(),
            m == p@.len(),
            i <= m,
            forall|j: int| 0 <= j < i ==> t@[j] == p@[j],
        decreases m - i,
    {
        if t.get_char(i) != p.get_char(i) {
            assert(t@.subrange(0, m as int)[i as int] != p@[i as int]);
            return false;
        }
        i = i + 1;
    }
    assert(t@.subrange(0, m as int) =~= p@);
    true
}

/// Classifies a line that has already been trimmed.
pub fn classify(line: &str) -> (r: LineKind)
    ensures
        r == kind_of(line@),
{
    proof {
        reveal_strlit("//");
        reveal_strlit("def");
        reveal_strlit("let");
        reveal_strlit("type");
    }
    assert("//"@ =~= seq!['/', '/']);
    assert("def"@ =~= seq!['d', 'e', 'f']);
    assert("let"@ =~= seq!['l', 'e', 't']);
    assert("type"@ =~= seq!['t', 'y', 'p', 'e']);
    if line.unicode_len() == 0 || starts_with(line, "//") {
        LineKind::Skip
    } else if starts_with(line, "def") || starts_with(line, "let") || starts_with(line, "type") {
        LineKind::Definition
    } else {
        LineKind::Expression
    }
}

/// Prepares one raw line of input: trims it and says what to do with it.
pub fn read_line(raw: &str) -> (r: (String, LineKind))
    ensures
        r.0@ == trimmed(raw@),
        is_segment(r.0@, raw@),
        r.1 == kind_of(trimmed(raw@)),
{
    let line = trim_line(raw);
    let kind = classify(line.as_str());
    (line, kind)
}

} // verus!
