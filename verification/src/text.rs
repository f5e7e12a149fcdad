//! Character-level text helpers shared by the layout engine: the whitespace
//! class, blank padding, and whitespace trimming of line fragments.

use vstd::prelude::*;
use vstd::string::StrSliceExecFns;
use vstd::string::StringExecFns;

verus! {

/// The characters the layout treats as whitespace: break opportunities for
/// the wrapper and trimmable padding at a fragment's edges.
pub open spec fn is_wsp(c: char) -> bool {
    c == ' ' || c == '\t' || c == '\n' || c == '\r'
}

/// Runtime test for `is_wsp`.
pub(crate) fn is_wsp_char(c: char) -> (r: bool)
    ensures
        r == is_wsp(c),
{
    c == ' ' || c == '\t' || c == '\n' || c == '\r'
}

/// `n` space characters.
pub open spec fn spaces(n: nat) -> Seq<char> {
    Seq::new(n, |i: int| ' ')
}

/// Appends `n` spaces to `out`.
pub(crate) fn push_spaces(out: &mut String, n: usize)
    ensures
        final(out)@ == old(out)@ + spaces(n as nat),
{
    let mut i: usize = 0;
    while i < n
        invariant
            i <= n,
            out@ == old(out)@ + spaces(i as nat),
        decreases n - i,
    {
        out.append(" ");
        proof {
            reveal_strlit(" ");
            assert(spaces((i + 1) as nat) =~= spaces(i as nat) + " "@);
        }
        i = i + 1;
    }
    proof {
        assert(out@ =~= old(out)@ + spaces(n as nat));
    }
}

/// How many whitespace characters `s` begins with.
pub open spec fn lead_wsp(s: Seq<char>) -> int
    decreases s.len(),
{
    if s.len() == 0 {
        0
    } else if !is_wsp(s[0]) {
        0
    } else {
        1 + lead_wsp(s.drop_first())
    }
}

/// How many whitespace characters `s` ends with.
pub open spec fn tail_wsp(s: Seq<char>) -> int
    decreases s.len(),
{
    if s.len() == 0 {
        0
    } else if !is_wsp(s[s.len() - 1]) {
        0
    } else {
        1 + tail_wsp(s.drop_last())
    }
}

/// `s` with its leading and trailing whitespace removed.
pub open spec fn trim_spec(s: Seq<char>) -> Seq<char> {
    if lead_wsp(s) == s.len() {
        Seq::empty()
    } else {
        s.subrange(lead_wsp(s), s.len() - tail_wsp(s))
    }
}

/// The leading-whitespace count is the unique `i` with whitespace
/// everywhere before it and none at it.
pub proof fn lemma_lead_wsp_is(s: Seq<char>, i: int)
    requires
        0 <= i <= s.len(),
        forall|j: int| 0 <= j < i ==> is_wsp(#[trigger] s[j]),
        i < s.len() ==> !is_wsp(s[i]),
    ensures
        lead_wsp(s) == i,
    decreases i,
{
    if i == 0 {
    } else {
        assert(is_wsp(s[0]));
        lemma_lead_wsp_is(s.drop_first(), i - 1);
    }
}

/// The trailing-whitespace count is the unique `k` with whitespace
/// everywhere in the last `k` positions and none just before them.
pub proof fn lemma_tail_wsp_is(s: Seq<char>, k: int)
    requires
        0 <= k <= s.len(),
        forall|j: int| s.len() - k <= j < s.len() ==> is_wsp(#[trigger] s[j]),
        k < s.len() ==> !is_wsp(s[s.len() - k - 1]),
    ensures
        tail_wsp(s) == k,
    decreases k,
{
    if k == 0 {
    } else {
        assert(is_wsp(s[s.len() - 1]));
        lemma_tail_wsp_is(s.drop_last(), k - 1);
    }
}

/// The leading count is in range, covers only whitespace, and stops at the
/// first non-whitespace character.
pub proof fn lemma_lead_wsp_bounds(s: Seq<char>)
    ensures
        0 <= lead_wsp(s) <= s.len(),
        forall|j: int| 0 <= j < lead_wsp(s) ==> is_wsp(#[trigger] s[j]),
        lead_wsp(s) < s.len() ==> !is_wsp(s[lead_wsp(s)]),
    decreases s.len(),
{
    if s.len() == 0 {
    } else if !is_wsp(s[0]) {
    } else {
        lemma_lead_wsp_bounds(s.drop_first());
        assert forall|j: int| 0 <= j < lead_wsp(s) implies is_wsp(#[trigger] s[j]) by {
            if j > 0 {
                assert(s.drop_first()[j - 1] == s[j]);
            }
        }
        if lead_wsp(s) < s.len() {
            assert(s.drop_first()[lead_wsp(s) - 1] == s[lead_wsp(s)]);
        }
    }
}

/// The trailing count is in range, covers only whitespace, and stops at the
/// last non-whitespace character.
pub proof fn lemma_tail_wsp_bounds(s: Seq<char>)
    ensures
        0 <= tail_wsp(s) <= s.len(),
        forall|j: int| s.len() - tail_wsp(s) <= j < s.len() ==> is_wsp(#[trigger] s[j]),
        tail_wsp(s) < s.len() ==> !is_wsp(s[s.len() - tail_wsp(s) - 1]),
    decreases s.len(),
{
    if s.len() == 0 {
    } else if !is_wsp(s[s.len() - 1]) {
    } else {
        lemma_tail_wsp_bounds(s.drop_last());
        assert forall|j: int| s.len() - tail_wsp(s) <= j < s.len() implies is_wsp(
            #[trigger] s[j],
        ) by {
            if j < s.len() - 1 {
                assert(s.drop_last()[j] == s[j]);
            }
        }
        if tail_wsp(s) < s.len() {
            assert(s.drop_last()[s.len() - tail_wsp(s) - 1] == s[s.len() - tail_wsp(s) - 1]);
        }
    }
}

/// Trimming never lengthens a fragment, and the two trimmed runs never
/// overlap.
pub proof fn lemma_trim_le(s: Seq<char>)
    ensures
        trim_spec(s).len() <= s.len(),
        lead_wsp(s) < s.len() ==> lead_wsp(s) + tail_wsp(s) <= s.len(),
{
    lemma_lead_wsp_bounds(s);
    lemma_tail_wsp_bounds(s);
    if lead_wsp(s) < s.len() {
        if s.len() - tail_wsp(s) <= lead_wsp(s) {
            assert(is_wsp(s[lead_wsp(s)]));
        }
    }
}

/// A fragment that trimming leaves at full length had no edge whitespace:
/// it is returned whole.
pub proof fn lemma_trim_full(s: Seq<char>)
    requires
        trim_spec(s).len() == s.len(),
        s.len() > 0,
    ensures
        trim_spec(s) == s,
        !is_wsp(s[0]),
{
    lemma_lead_wsp_bounds(s);
    lemma_tail_wsp_bounds(s);
    lemma_trim_le(s);
    if lead_wsp(s) == s.len() {
        assert(trim_spec(s).len() == 0);
    } else {
        assert(lead_wsp(s) == 0 && tail_wsp(s) == 0);
        assert(trim_spec(s) =~= s);
    }
}

/// Returns the fragment `[lo, hi)` of `s` with surrounding whitespace
/// removed.
pub(crate) fn trim_substring<'a>(s: &'a str, lo: usize, hi: usize) -> (r: &'a str)
    requires
        lo <= hi,
        hi as nat <= s@.len(),
    ensures
        r@ == trim_spec(s@.subrange(lo as int, hi as int)),
{
    let ghost sub = s@.subrange(lo as int, hi as int);
    let mut a = lo;
    while a < hi && is_wsp_char(s.get_char(a))
        invariant
            lo <= a <= hi,
            hi as nat <= s@.len(),
            forall|j: int| lo <= j < a ==> is_wsp(#[trigger] s@[j]),
        decreases hi - a,
    {
        a = a + 1;
    }
    if a == hi {
        proof {
            assert forall|j: int| 0 <= j < sub.len() implies is_wsp(#[trigger] sub[j]) by {
                assert(sub[j] == s@[lo + j]);
            }
            lemma_lead_wsp_is(sub, sub.len() as int);
        }
        let r = s.substring_char(a, hi);
        proof {
            assert(r@ =~= trim_spec(sub));
        }
        r
    } else {
        let mut b = hi;
        while b > a && is_wsp_char(s.get_char(b - 1))
            invariant
                a <= b <= hi,
                hi as nat <= s@.len(),
                a < hi,
                !is_wsp(s@[a as int]),
                forall|j: int| b <= j < hi ==> is_wsp(#[trigger] s@[j]),
        decreases b - a,
        {
            b = b - 1;
        }
        proof {
            assert(b > a) by {
                if b == a {
                    assert(is_wsp(s@[a as int]));
                }
            }
            assert forall|j: int| 0 <= j < a - lo implies is_wsp(#[trigger] sub[j]) by {
                assert(sub[j] == s@[lo + j]);
            }
            assert(sub[a - lo] == s@[a as int]);
            lemma_lead_wsp_is(sub, a - lo);
            assert forall|j: int| sub.len() - (hi - b) <= j < sub.len() implies is_wsp(
                #[trigger] sub[j],
            ) by {
                assert(sub[j] == s@[lo + j]);
            }
            assert(sub[sub.len() - (hi - b) - 1] == s@[b - 1]);
            lemma_tail_wsp_is(sub, hi - b);
        }
        let r = s.substring_char(a, b);
        proof {
            assert(r@ =~= trim_spec(sub));
        }
        r
    }
}

/// `s` left-justified in a field of `w` characters: `s` itself when it
/// already fills the field, otherwise `s` followed by blank padding.
pub open spec fn pad_to(s: Seq<char>, w: nat) -> Seq<char> {
    if s.len() >= w {
        s
    } else {
        s + spaces((w - s.len()) as nat)
    }
}

/// Appends `s`, left-justified to width `w`, to `out`.
pub(crate) fn pad_append(out: &mut String, s: &str, w: usize)
    ensures
        final(out)@ == old(out)@ + pad_to(s@, w as nat),
{
    let n = s.unicode_len();
    out.append(s);
    if n < w {
        push_spaces(out, w - n);
        proof {
            assert(out@ =~= old(out)@ + pad_to(s@, w as nat));
        }
    }
}

} // verus!
