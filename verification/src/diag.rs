//! Diagnostics that the library reports itself, and the text helpers that
//! build their messages.
use vstd::prelude::*;
use vstd::string::StringExecFns;

verus! {

/// How serious a diagnostic is.
#[derive(Clone, Copy, Debug, PartialEq, Eq)]
pub enum Severity {
    Error,
    Warning,
}

/// A hint attached to a diagnostic; `span` is `None` for a hint that points
/// nowhere in particular.
#[derive(Debug)]
pub struct Hint {
    pub message: String,
    pub span: Option<u64>,
}

/// A diagnostic: a message about a place (a span, as typst numbers them) with
/// hints.
#[derive(Debug)]
pub struct Diagnostic {
    pub severity: Severity,
    pub span: u64,
    pub message: String,
    pub hints: Vec<Hint>,
}

/// What a diagnostic says, as plain values.
pub struct DiagnosticView {
    pub severity: Severity,
    pub span: u64,
    pub message: Seq<char>,
    pub hints: Seq<(Seq<char>, Option<u64>)>,
}

impl View for Hint {
    type V = (Seq<char>, Option<u64>);

    open spec fn view(&self) -> (Seq<char>, Option<u64>) {
        (self.message@, self.span)
    }
}

impl View for Diagnostic {
    type V = DiagnosticView;

    open spec fn view(&self) -> DiagnosticView {
        DiagnosticView {
            severity: self.severity,
            span: self.span,
            message: self.message@,
            hints: self.hints@.map_values(|h: Hint| h@),
        }
    }
}

/// A value with the span of the element it came from.
#[derive(Debug)]
pub struct Spanned<T> {
    pub v: T,
    pub span: u64,
}

/// The text `a` followed by `b`.
pub fn concat2(a: &str, b: &str) -> (r: String)
    ensures
        r@ == a@ + b@,
{
    let mut r = String::from_str(a);
    r.append(b);
    r
}

/// The text `a`, `b` and `c` one after the other.
pub fn concat3(a: &str, b: &str, c: &str) -> (r: String)
    ensures
        r@ == a@ + b@ + c@,
{
    let mut r = String::from_str(a);
    r.append(b);
    r.append(c);
    r
}

/// Whether two byte strings are equal.
pub fn bytes_equal(a: &Vec<u8>, b: &Vec<u8>) -> (r: bool)
    ensures
        r == (a@ == b@),
{
    if a.len() != b.len() {
        return false;
    }
    let mut i: usize = 0;
    while i < a.len()
        invariant
            a@.len() == b@.len(),
            i <= a@.len(),
            forall|j: int| 0 <= j < i ==> a@[j] == b@[j],
        decreases a@.len() - i,
    {
        if a[i] != b[i] {
            return false;
        }
        i = i + 1;
    }
    assert(a@ =~= b@);
    true
}

/// A copy of a byte string.
pub fn copy_bytes(a: &Vec<u8>) -> (r: Vec<u8>)
    ensures
        r@ == a@,
{
    let mut r: Vec<u8> = Vec::new();
    let mut i: usize = 0;
    while i < a.len()
        invariant
            i <= a@.len(),
            r@ == a@.subrange(0, i as int),
        decreases a@.len() - i,
    {
        r.push(a[i]);
        i = i + 1;
        assert(r@ =~= a@.subrange(0, i as int));
    }
    assert(r@ =~= a@);
    r
}

} // verus!
