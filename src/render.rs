use vstd::prelude::*;

use vstd::string::StrSliceExecFns;
use vstd::string::StringExecFns;

use crate::text::chars_of;

verus! {

/// Why rendering a fragment failed.
#[derive(Debug)]
pub enum MathsRenderError {
    /// The typesetter exited with a failure: its exit code (none when a
    /// signal stopped it) and the transcript it wrote to standard output.
    LatexError(Option<i32>, String),
    /// A file or process operation failed; the text describes it.
    IOError(String),
    /// The typesetter's transcript was not valid UTF-8.
    Utf8Error,
    /// The image converter exited with a failure.
    ConvertError,
}

pub open spec fn document_spec(maths: Seq<char>) -> Seq<char> {
    "\\documentclass{standalone}\n\\usepackage{amsmath}\n\\begin{document}\n$ \\displaystyle\n"@
        + maths + "$ \\end{document}"@
}

/// The standalone document that typesets `maths` in display style; the
/// fragment is inserted verbatim.
pub fn maths_to_document(maths: &str) -> (r: String)
    ensures
        r@ == document_spec(maths@),
{
    let mut doc = String::from_str(
        "\\documentclass{standalone}\n\\usepackage{amsmath}\n\\begin{document}\n$ \\displaystyle\n",
    );
    doc.append(maths);
    doc.append("$ \\end{document}");
    doc
}

pub const MEBIBYTE: u64 = 1048576;

/// `mb` mebibytes in bytes.
pub fn mbtob(mb: u64) -> (r: u64)
    requires
        mb * MEBIBYTE <= u64::MAX,
    ensures
        r == mb * 1024 * 1024,
{
    mb * 1024 * 1024
}

/// A resource that the sandbox caps for each child process.
#[derive(Debug, PartialEq, Eq, Structural, Clone, Copy)]
pub enum LimitKind {
    CoreSize,
    CpuSeconds,
    DataSize,
    FileSize,
    MessageQueueBytes,
    OpenFiles,
    RealtimeMicros,
    StackSize,
}

/// One cap: soft and hard limit are both `value`.
#[derive(Debug, PartialEq, Eq, Structural, Clone, Copy)]
pub struct ResourceLimit {
    pub kind: LimitKind,
    pub value: u64,
}

/// How much the child's scheduling priority is lowered.
pub const NICE_INCREMENT: i32 = 10;

/// Seconds after which the watchdog alarm kills the child.
pub const WATCHDOG_SECONDS: u32 = 10;

pub open spec fn limit_profile() -> Seq<ResourceLimit> {
    seq![
        ResourceLimit { kind: LimitKind::CoreSize, value: 0 },
        ResourceLimit { kind: LimitKind::CpuSeconds, value: 4 },
        ResourceLimit { kind: LimitKind::DataSize, value: 52428800 },
        ResourceLimit { kind: LimitKind::FileSize, value: 5242880 },
        ResourceLimit { kind: LimitKind::MessageQueueBytes, value: 1024 },
        ResourceLimit { kind: LimitKind::OpenFiles, value: 200 },
        ResourceLimit { kind: LimitKind::RealtimeMicros, value: 1 },
        ResourceLimit { kind: LimitKind::StackSize, value: 10485760 },
    ]
}

/// The caps applied to each child process before it reads untrusted input,
/// in the order they are set.
pub fn resource_limits() -> (r: Vec<ResourceLimit>)
    ensures
        r@ == limit_profile(),
        forall|i: int|
            0 <= i < r@.len() && (#[trigger] r@[i]).kind == LimitKind::DataSize ==> 10 * MEBIBYTE
                <= r@[i].value < 100 * MEBIBYTE,
        forall|i: int|
            0 <= i < r@.len() && (#[trigger] r@[i]).kind == LimitKind::StackSize ==> 10 * MEBIBYTE
                <= r@[i].value < 100 * MEBIBYTE,
        forall|i: int|
            0 <= i < r@.len() && (#[trigger] r@[i]).kind == LimitKind::FileSize ==> MEBIBYTE
                <= r@[i].value < 10 * MEBIBYTE,
{
    let mut v: Vec<ResourceLimit> = Vec::new();
    v.push(ResourceLimit { kind: LimitKind::CoreSize, value: 0 });
    v.push(ResourceLimit { kind: LimitKind::CpuSeconds, value: 4 });
    v.push(ResourceLimit { kind: LimitKind::DataSize, value: mbtob(50) });
    v.push(ResourceLimit { kind: LimitKind::FileSize, value: mbtob(5) });
    v.push(ResourceLimit { kind: LimitKind::MessageQueueBytes, value: 1024 });
    v.push(ResourceLimit { kind: LimitKind::OpenFiles, value: 200 });
    v.push(ResourceLimit { kind: LimitKind::RealtimeMicros, value: 1 });
    v.push(ResourceLimit { kind: LimitKind::StackSize, value: mbtob(10) });
    assert(v@ =~= limit_profile());
    v
}

/// The index of the first `!` in `t` at or after `i`, or `t.len()` if none.
pub open spec fn first_bang(t: Seq<char>, i: int) -> int
    decreases t.len() - i,
{
    if i < 0 || i >= t.len() {
        t.len() as int
    } else if t[i] == '!' {
        i
    } else {
        first_bang(t, i + 1)
    }
}

/// A typesetter transcript cut down to its first error marker `!`, or kept
/// whole when it has none.
pub open spec fn minimised_spec(t: Seq<char>) -> Seq<char> {
    if first_bang(t, 0) < t.len() {
        t.subrange(first_bang(t, 0), t.len() as int)
    } else {
        t
    }
}

proof fn lemma_first_bang(t: Seq<char>, i: int)
    requires
        0 <= i <= t.len(),
    ensures
        i <= first_bang(t, i) <= t.len(),
        first_bang(t, i) < t.len() ==> t[first_bang(t, i)] == '!',
        forall|j: int| i <= j < first_bang(t, i) ==> t[j] != '!',
    decreases t.len() - i,
{
    if i < t.len() && t[i] != '!' {
        lemma_first_bang(t, i + 1);
    }
}

/// Cuts a typesetter transcript down to what starts at its first `!`, the
/// typesetter's error marker; a transcript without one is kept whole.
pub fn minimise_latex_error(output: &str) -> (r: String)
    ensures
        r@ == minimised_spec(output@),
        (exists|i: int| 0 <= i < output@.len() && output@[i] == '!') ==> {
            &&& r@.len() > 0
            &&& r@[0] == '!'
            &&& output@.subrange(output@.len() - r@.len(), output@.len() as int) == r@
            &&& forall|j: int| 0 <= j < output@.len() - r@.len() ==> output@[j] != '!'
        },
        (forall|i: int| 0 <= i < output@.len() ==> output@[i] != '!') ==> r@ == output@,
{
    let t = chars_of(output);
    let n = t.len();
    let mut i: usize = 0;
    while i < n && t[i] != '!'
        invariant
            t@ == output@,
            n == t@.len(),
            i <= n,
            first_bang(t@, 0) == first_bang(t@, i as int),
        decreases n - i,
    {
        i = i + 1;
    }
    proof {
        lemma_first_bang(t@, 0);
        if i < n {
            assert(first_bang(t@, i as int) == i);
        }
        assert(first_bang(t@, 0) == i);
        if forall|j: int| 0 <= j < output@.len() ==> output@[j] != '!' {
            if i < n {
                assert(output@[i as int] == '!');
            }
        }
    }
    if i == n {
        return output.to_owned();
    }
    output.substring_char(i, n).to_owned()
}

} // verus!
