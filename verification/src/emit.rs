use vstd::prelude::*;

use crate::text::IntErrorKind;

verus! {

/// Why code generation stopped.
#[derive(Debug)]
pub enum Error {
    /// An unknown constant or an unresolvable type; the text says which.
    Message(String),
    /// A constant used as an array size is not a `u32`.
    BadInteger(IntErrorKind),
}

/// The mathematical value of an `Error`.
pub enum Fault {
    Message(Seq<char>),
    BadInteger(IntErrorKind),
}

impl View for Error {
    type V = Fault;

    open spec fn view(&self) -> Fault {
        match self {
            Error::Message(m) => Fault::Message(m@),
            Error::BadInteger(k) => Fault::BadInteger(*k),
        }
    }
}

/// How a run of the generator ends.
pub enum Outcome {
    /// All of the text was written.
    Done,
    /// The generator returned this error after writing part of the text.
    Failed(Fault),
    /// The generator panics or does not terminate on this input.
    Aborted,
}

/// The text a generator writes, and how it ends.
pub type Emit = (Seq<char>, Outcome);

pub open spec fn done(text: Seq<char>) -> Emit {
    (text, Outcome::Done)
}

pub open spec fn fail(f: Fault) -> Emit {
    (Seq::empty(), Outcome::Failed(f))
}

pub open spec fn aborted() -> Emit {
    (Seq::empty(), Outcome::Aborted)
}

/// `a`, followed by `b` if `a` completed.
pub open spec fn seq_emit(a: Emit, b: Emit) -> Emit {
    if a.1 is Done {
        (a.0 + b.0, b.1)
    } else {
        a
    }
}

/// One emission per element of `s`, in order, stopping at the first that does
/// not complete.
pub open spec fn emit_all<A>(s: Seq<A>, f: spec_fn(A) -> Emit) -> Emit
    decreases s.len(),
{
    if s.len() == 0 {
        done(Seq::empty())
    } else {
        seq_emit(emit_all(s.drop_last(), f), f(s.last()))
    }
}

/// A writer went from `before` to `after`, returning `r`, as `e` describes.
pub open spec fn wrote(before: Seq<char>, after: Seq<char>, r: Result<(), Error>, e: Emit) -> bool {
    &&& after == before + e.0
    &&& match r {
        Ok(_) => e.1 is Done,
        Err(err) => e.1 == Outcome::Failed(err@),
    }
}

pub proof fn lemma_seq_emit_assoc(a: Emit, b: Emit, c: Emit)
    ensures
        seq_emit(a, seq_emit(b, c)) == seq_emit(seq_emit(a, b), c),
{
    if a.1 is Done && b.1 is Done {
        assert(a.0 + (b.0 + c.0) =~= (a.0 + b.0) + c.0);
    }
}

pub proof fn lemma_seq_emit_done_empty(a: Emit)
    ensures
        seq_emit(a, done(Seq::empty())) == a,
        seq_emit(done(Seq::empty()), a) == a,
{
    assert(a.0 + Seq::<char>::empty() =~= a.0);
    assert(Seq::<char>::empty() + a.0 =~= a.0);
}

/// Writing `p` and then `x` and `rest`: once `x` completes, the text so far is
/// `p + x.0`; otherwise the run ends with `x`.
pub proof fn lemma_emit_advance(p: Seq<char>, x: Emit, rest: Emit)
    ensures
        x.1 is Done ==> seq_emit(done(p), seq_emit(x, rest)) == seq_emit(done(p + x.0), rest),
        !(x.1 is Done) ==> seq_emit(done(p), seq_emit(x, rest)) == (p + x.0, x.1),
{
    if x.1 is Done {
        assert(p + (x.0 + rest.0) =~= (p + x.0) + rest.0);
    }
}

/// Once a prefix of the elements fails to complete, so does the whole run,
/// with the same text and outcome.
pub proof fn lemma_emit_all_stops<A>(s: Seq<A>, f: spec_fn(A) -> Emit, n: int)
    requires
        0 <= n <= s.len(),
        !(emit_all(s.take(n), f).1 is Done),
    ensures
        emit_all(s, f) == emit_all(s.take(n), f),
    decreases s.len() - n,
{
    if n < s.len() {
        assert(s.take(n + 1).drop_last() =~= s.take(n));
        lemma_emit_all_stops(s, f, n + 1);
    } else {
        assert(s.take(n) =~= s);
    }
}

/// The run over the first `n + 1` elements extends the run over the first `n`.
pub proof fn lemma_emit_all_step<A>(s: Seq<A>, f: spec_fn(A) -> Emit, n: int)
    requires
        0 <= n < s.len(),
    ensures
        emit_all(s.take(n + 1), f) == seq_emit(emit_all(s.take(n), f), f(s[n])),
{
    assert(s.take(n + 1).drop_last() =~= s.take(n));
}

/// An element whose run does not complete, reached after a completed prefix,
/// decides the outcome of the whole run.
pub proof fn lemma_emit_all_element<A>(s: Seq<A>, f: spec_fn(A) -> Emit, n: int)
    requires
        0 <= n < s.len(),
        emit_all(s.take(n), f).1 is Done,
        !(f(s[n]).1 is Done),
    ensures
        emit_all(s, f).1 == f(s[n]).1,
{
    lemma_emit_all_step(s, f, n);
    lemma_emit_all_stops(s, f, n + 1);
}

} // verus!
