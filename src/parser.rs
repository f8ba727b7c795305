use vstd::prelude::*;

use crate::text::chars_of;

verus! {

/// Whether a message carries maths that should be typeset.
#[derive(Debug, PartialEq, Eq, Structural, Clone, Copy)]
pub enum MessageType {
    Plain,
    LaTeX,
}

pub open spec fn is_ascii_digit(c: char) -> bool {
    '0' <= c && c <= '9'
}

/// `t[i]` and `t[j]` are dollars enclosing a span on one line, and the
/// closing dollar is not directly followed by a digit (so `$1.50 ... $90`
/// does not count).
pub open spec fn dollar_span(t: Seq<char>, i: int, j: int) -> bool {
    &&& 0 <= i < j < t.len()
    &&& t[i] == '$'
    &&& t[j] == '$'
    &&& forall|k: int| i < k < j ==> t[k] != '\n'
    &&& (j + 1 == t.len() || !is_ascii_digit(t[j + 1]))
}

pub open spec fn begin_marker() -> Seq<char> {
    seq!['\\', 'b', 'e', 'g', 'i', 'n']
}

/// `t` holds `\begin` at position `i`.
pub open spec fn begin_at(t: Seq<char>, i: int) -> bool {
    0 <= i && i + 6 <= t.len() && t.subrange(i, i + 6) == begin_marker()
}

/// A message holds maths when it holds a dollar span or an environment opener.
pub open spec fn holds_maths(t: Seq<char>) -> bool {
    (exists|i: int, j: int| dollar_span(t, i, j)) || (exists|i: int| begin_at(t, i))
}

pub open spec fn classify_spec(t: Seq<char>) -> MessageType {
    if holds_maths(t) {
        MessageType::LaTeX
    } else {
        MessageType::Plain
    }
}

fn has_begin_at(t: &Vec<char>, i: usize) -> (r: bool)
    ensures
        r == begin_at(t@, i as int),
{
    if i > t.len() || t.len() - i < 6 {
        return false;
    }
    let r = t[i] == '\\' && t[i + 1] == 'b' && t[i + 2] == 'e' && t[i + 3] == 'g' && t[i + 4]
        == 'i' && t[i + 5] == 'n';
    proof {
        if r {
            assert(t@.subrange(i as int, i + 6) =~= begin_marker());
        } else if begin_at(t@, i as int) {
            let s = t@.subrange(i as int, i + 6);
            assert(s[0] == t@[i as int] && s[1] == t@[i + 1] && s[2] == t@[i + 2]);
            assert(s[3] == t@[i + 3] && s[4] == t@[i + 4] && s[5] == t@[i + 5]);
        }
    }
    r
}

/// Tells whether `text` holds maths: a `$...$` span on one line whose closing
/// dollar is not followed by a digit, or a `\begin`.
pub fn classify_message(text: &str) -> (r: MessageType)
    ensures
        r == classify_spec(text@),
{
    let t = chars_of(text);
    let n = t.len();
    let mut open_dollar = false;
    let mut i: usize = 0;
    while i < n
        invariant
            t@ == text@,
            n == t@.len(),
            i <= n,
            open_dollar == (exists|a: int| 0 <= a < i && t@[a] == '$' && (forall|k: int| a < k < i ==> t@[k] != '\n')),
            forall|a: int, b: int| #![trigger dollar_span(t@, a, b)] b < i ==> !dollar_span(t@, a, b),
            forall|a: int| #![trigger begin_at(t@, a)] a < i ==> !begin_at(t@, a),
        decreases n - i,
    {
        let c = t[i];
        if has_begin_at(&t, i) {
            assert(begin_at(t@, i as int));
            return MessageType::LaTeX;
        }
        if c == '$' {
            if open_dollar && (i + 1 == n || !('0' <= t[i + 1] && t[i + 1] <= '9')) {
                let ghost a = choose|a: int| 0 <= a < i && t@[a] == '$' && (forall|k: int| a < k < i ==> t@[k] != '\n');
                assert(dollar_span(t@, a, i as int));
                return MessageType::LaTeX;
            }
            proof {
                assert forall|a: int, b: int| #![trigger dollar_span(t@, a, b)] b < i + 1 implies !dollar_span(t@, a, b) by {
                    if b == i && dollar_span(t@, a, b) {
                        assert(0 <= a < i && t@[a] == '$' && (forall|k: int| a < k < i ==> t@[k] != '\n'));
                    }
                }
            }
            open_dollar = true;
            assert(0 <= i < i + 1 && t@[i as int] == '$');
        } else if c == '\n' {
            open_dollar = false;
        } else {
            proof {
                if open_dollar {
                    let a = choose|a: int| 0 <= a < i && t@[a] == '$' && (forall|k: int| a < k < i ==> t@[k] != '\n');
                    assert(forall|k: int| a < k < i + 1 ==> t@[k] != '\n');
                }
            }
        }
        i = i + 1;
    }
    MessageType::Plain
}

/// A character that may not stand right outside a fence.
pub open spec fn is_fence_guard(c: char) -> bool {
    c == '`' || c == '$'
}

/// A fence opens at `s` with `` `$ `` and closes with `` $` `` ending at `k`
/// (the closing backtick): the inner text is not empty and holds no backtick,
/// and neither fence touches a stray `$` or backtick on its outer side.
pub open spec fn fence(t: Seq<char>, s: int, k: int) -> bool {
    &&& 0 <= s && s + 4 <= k < t.len()
    &&& t[s] == '`' && t[s + 1] == '$'
    &&& (s == 0 || !is_fence_guard(t[s - 1]))
    &&& t[k - 1] == '$' && t[k] == '`'
    &&& forall|m: int| s + 2 <= m < k ==> t[m] != '`'
    &&& (k + 1 == t.len() || !is_fence_guard(t[k + 1]))
}

pub open spec fn fence_at(t: Seq<char>, s: int) -> bool {
    exists|k: int| fence(t, s, k)
}

/// The fragments found by scanning `t` from position `p`, left to right,
/// resuming after the end of each fence found.
pub open spec fn fragments_from(t: Seq<char>, p: int) -> Seq<Seq<char>>
    decreases t.len() - p,
{
    if p < 0 || p >= t.len() {
        seq![]
    } else if fence_at(t, p) {
        let k = choose|k: int| fence(t, p, k);
        seq![t.subrange(p + 2, k - 1)].add(fragments_from(t, k + 1))
    } else {
        fragments_from(t, p + 1)
    }
}

pub open spec fn fragments_spec(t: Seq<char>) -> Seq<Seq<char>> {
    fragments_from(t, 0)
}

proof fn lemma_fence_unique(t: Seq<char>, s: int, k1: int, k2: int)
    requires
        fence(t, s, k1),
        fence(t, s, k2),
    ensures
        k1 == k2,
{
    if k1 < k2 {
        assert(t[k1] != '`');
    } else if k2 < k1 {
        assert(t[k2] != '`');
    }
}

/// The fence that opens at `s`, if any: the index of its closing backtick.
fn fence_close(t: &Vec<char>, s: usize) -> (r: Option<usize>)
    ensures
        r is Some <==> fence_at(t@, s as int),
        r matches Some(k) ==> fence(t@, s as int, k as int),
{
    let n = t.len();
    if s >= n || n - s < 4 || t[s] != '`' || t[s + 1] != '$' {
        return None;
    }
    if s > 0 && (t[s - 1] == '`' || t[s - 1] == '$') {
        return None;
    }
    let mut k: usize = s + 2;
    while k < n && t[k] != '`'
        invariant
            s + 2 <= k <= n,
            n == t@.len(),
            forall|m: int| s + 2 <= m < k ==> t@[m] != '`',
        decreases n - k,
    {
        k = k + 1;
    }
    if k == n || k < s + 4 || t[k - 1] != '$' || (k + 1 < n && (t[k + 1] == '`' || t[k + 1] == '$')) {
        proof {
            if fence_at(t@, s as int) {
                let k2 = choose|k2: int| fence(t@, s as int, k2);
                if k2 > k {
                    assert(t@[k as int] != '`');
                }
            }
        }
        return None;
    }
    assert(fence(t@, s as int, k as int));
    Some(k)
}

/// The inner text of each `` `$...$` `` fence of `text`, left to right.
pub fn extract_fragments(text: &str) -> (r: Vec<String>)
    ensures
        r@.len() == fragments_spec(text@).len(),
        forall|i: int| 0 <= i < r@.len() ==> #[trigger] r@[i]@ == fragments_spec(text@)[i],
{
    let t = chars_of(text);
    let n = t.len();
    let mut out: Vec<String> = Vec::new();
    let mut i: usize = 0;
    while i < n
        invariant
            t@ == text@,
            n == t@.len(),
            i <= n,
            out@.len() + fragments_from(t@, i as int).len() == fragments_spec(t@).len(),
            forall|j: int| 0 <= j < out@.len() ==> #[trigger] out@[j]@ == fragments_spec(t@)[j],
            forall|j: int| 0 <= j < fragments_from(t@, i as int).len() ==> fragments_from(t@, i as int)[j] == fragments_spec(t@)[out@.len() + j],
        decreases n - i,
    {
        match fence_close(&t, i) {
            Some(k) => {
                proof {
                    let k2 = choose|k2: int| fence(t@, i as int, k2);
                    lemma_fence_unique(t@, i as int, k as int, k2);
                    assert(fragments_from(t@, i as int) == seq![t@.subrange(i + 2, k - 1)].add(fragments_from(t@, k + 1)));
                }
                let ghost before = out@;
                let frag = text.substring_char(i + 2, k - 1).to_owned();
                out.push(frag);
                proof {
                    let rest = fragments_from(t@, k + 1);
                    assert(fragments_from(t@, i as int)[0] == t@.subrange(i + 2, k - 1));
                    assert(out@[before.len() as int]@ == fragments_spec(t@)[before.len() as int]);
                    assert forall|j: int| 0 <= j < rest.len() implies rest[j] == fragments_spec(t@)[out@.len() + j] by {
                        assert(rest[j] == fragments_from(t@, i as int)[j + 1]);
                    }
                }
                i = k + 1;
            },
            None => {
                assert(fragments_from(t@, i as int) == fragments_from(t@, i + 1));
                i = i + 1;
            },
        }
    }
    out
}

proof fn lemma_no_fence_from(t: Seq<char>, p: int)
    requires
        forall|s: int| #![trigger fence_at(t, s)] !fence_at(t, s),
    ensures
        fragments_from(t, p) == Seq::<Seq<char>>::empty(),
    decreases t.len() - p,
{
    if 0 <= p < t.len() {
        assert(!fence_at(t, p));
        lemma_no_fence_from(t, p + 1);
    }
}

/// Text without a qualifying delimiter yields nothing: with no dollar span
/// and no `\begin` it is plain, and with no fence it has no fragments.
pub proof fn lemma_no_delimiters_nothing_found(t: Seq<char>)
    ensures
        !holds_maths(t) ==> classify_spec(t) == MessageType::Plain,
        (forall|s: int| #![trigger fence_at(t, s)] !fence_at(t, s)) ==> fragments_spec(t)
            == Seq::<Seq<char>>::empty(),
{
    if forall|s: int| #![trigger fence_at(t, s)] !fence_at(t, s) {
        lemma_no_fence_from(t, 0);
    }
}

/// Classification and extraction depend on the characters of the text alone:
/// two texts with the same characters get the same answer, however often asked.
pub proof fn lemma_classifier_deterministic(a: Seq<char>, b: Seq<char>)
    requires
        a == b,
    ensures
        classify_spec(a) == classify_spec(b),
        fragments_spec(a) == fragments_spec(b),
{
}

} // verus!
