//! The wrap engine: splits one description into greedy lines of at most a
//! fixed character width, hyphenating a token that offers no break inside a
//! window, and indenting every continuation line.

use vstd::prelude::*;
use vstd::string::StrSliceExecFns;
use vstd::string::StringExecFns;

use crate::text::is_wsp;
use crate::text::is_wsp_char;
use crate::text::lemma_trim_full;
use crate::text::lemma_trim_le;
use crate::text::push_spaces;
use crate::text::spaces;
use crate::text::trim_spec;
use crate::text::trim_substring;

verus! {

/// The largest index in `(lo, hi]` holding whitespace, or `lo` when that
/// range holds none. The character at `lo` itself is never examined: it is
/// the separator already consumed by the previous line.
pub open spec fn last_break(s: Seq<char>, lo: int, hi: int) -> int
    decreases hi - lo,
{
    if hi <= lo {
        lo
    } else if is_wsp(s[hi]) {
        hi
    } else {
        last_break(s, lo, hi - 1)
    }
}

/// `last_break` lands in range, on whitespace when it moved, and nothing
/// after it in the range is whitespace.
pub proof fn lemma_last_break_bounds(s: Seq<char>, lo: int, hi: int)
    requires
        lo <= hi,
    ensures
        lo <= last_break(s, lo, hi) <= hi,
        last_break(s, lo, hi) > lo ==> is_wsp(s[last_break(s, lo, hi)]),
        forall|j: int| last_break(s, lo, hi) < j <= hi ==> !is_wsp(#[trigger] s[j]),
    decreases hi - lo,
{
    if hi <= lo {
    } else if is_wsp(s[hi]) {
    } else {
        lemma_last_break_bounds(s, lo, hi - 1);
    }
}

/// The wrapped lines of `f` from scan position `p` on: trimmed fragments
/// without indentation or separators; a forced break carries its hyphen.
pub open spec fn content_lines(f: Seq<char>, w: nat, p: nat) -> Seq<Seq<char>>
    decreases f.len() - p,
        when w >= 1
        via content_lines_decreases
{
    if p + w >= f.len() {
        seq![trim_spec(f.subrange(p as int, f.len() as int))]
    } else {
        let c = last_break(f, p as int, (p + w) as int);
        if c > p {
            seq![trim_spec(f.subrange(p as int, c))] + content_lines(f, w, c as nat)
        } else {
            seq![trim_spec(f.subrange(p as int, (p + w) as int)).push('-')] + content_lines(
                f,
                w,
                (p + w) as nat,
            )
        }
    }
}

#[via_fn]
proof fn content_lines_decreases(f: Seq<char>, w: nat, p: nat) {
    if p + w < f.len() {
        lemma_last_break_bounds(f, p as int, (p + w) as int);
    }
}

/// Joins continuation lines: each is preceded by one newline and `ind`
/// spaces of indentation.
pub open spec fn glue_tail(ls: Seq<Seq<char>>, ind: nat) -> Seq<char>
    decreases ls.len(),
{
    if ls.len() == 0 {
        Seq::empty()
    } else {
        seq!['\n'] + spaces(ind) + ls[0] + glue_tail(ls.drop_first(), ind)
    }
}

/// The wrapped text of `f`: unchanged when it fits in `w` characters,
/// otherwise the greedy lines joined by newline plus indentation, the
/// first line unindented.
pub open spec fn wrap_spec(f: Seq<char>, w: nat, ind: nat) -> Seq<char> {
    if f.len() <= w {
        f
    } else {
        content_lines(f, w, 0)[0] + glue_tail(content_lines(f, w, 0).drop_first(), ind)
    }
}

/// Prepending a line to the joined tail adds exactly one separator, the
/// indentation and the line.
proof fn lemma_glue_tail_cons(l: Seq<char>, rest: Seq<Seq<char>>, ind: nat)
    ensures
        glue_tail(seq![l] + rest, ind) == seq!['\n'] + spaces(ind) + l + glue_tail(rest, ind),
{
    assert((seq![l] + rest)[0] == l);
    assert((seq![l] + rest).drop_first() =~= rest);
}

/// Finds the position of the last whitespace in `(lo, hi]` of `s`, or `lo`
/// when that range holds none.
fn scan_break(s: &str, lo: usize, hi: usize) -> (c: usize)
    requires
        lo <= hi,
        (hi as nat) < s@.len(),
    ensures
        c as int == last_break(s@, lo as int, hi as int),
        lo <= c <= hi,
{
    let mut cur = hi;
    while cur > lo && !is_wsp_char(s.get_char(cur))
        invariant
            lo <= cur <= hi,
            (hi as nat) < s@.len(),
            last_break(s@, lo as int, hi as int) == last_break(s@, lo as int, cur as int),
        decreases cur - lo,
    {
        cur = cur - 1;
    }
    proof {
        lemma_last_break_bounds(s@, lo as int, hi as int);
    }
    cur
}

/// Wraps `field` into lines of at most `w` characters, continuation lines
/// indented by `ind` spaces; a window without a break opportunity is cut
/// at `w` characters and hyphenated.
pub(crate) fn wrap_field(field: &str, w: usize, ind: usize) -> (r: String)
    requires
        w >= 1,
        field@.len() + w <= usize::MAX,
    ensures
        r@ == wrap_spec(field@, w as nat, ind as nat),
{
    let n = field.unicode_len();
    if n <= w {
        return field.to_owned();
    }
    let ghost f = field@;
    let ghost wn = w as nat;
    let ghost indn = ind as nat;
    let mut result = String::new();
    let mut p: usize;
    let c = scan_break(field, 0, w);
    if c > 0 {
        let frag = trim_substring(field, 0, c);
        result.append(frag);
        p = c;
        proof {
            assert(content_lines(f, wn, 0) == seq![trim_spec(f.subrange(0, c as int))]
                + content_lines(f, wn, p as nat));
        }
    } else {
        let frag = trim_substring(field, 0, w);
        result.append(frag);
        result.append("-");
        p = w;
        proof {
            reveal_strlit("-");
            assert(result@ =~= trim_spec(f.subrange(0, w as int)).push('-'));
            assert(content_lines(f, wn, 0) == seq![trim_spec(f.subrange(0, w as int)).push('-')]
                + content_lines(f, wn, p as nat));
        }
    }
    proof {
        assert(content_lines(f, wn, 0).drop_first() =~= content_lines(f, wn, p as nat));
        assert(result@ == content_lines(f, wn, 0)[0]);
    }
    while p + w < n
        invariant
            0 < p < n,
            n == f.len(),
            f == field@,
            w >= 1,
            wn == w as nat,
            indn == ind as nat,
            n + w <= usize::MAX,
            result@ + glue_tail(content_lines(f, wn, p as nat), indn) == wrap_spec(f, wn, indn),
        decreases n - p,
    {
        let ghost pre = result@;
        let c = scan_break(field, p, p + w);
        result.append("\n");
        push_spaces(&mut result, ind);
        if c > p {
            let frag = trim_substring(field, p, c);
            result.append(frag);
            proof {
                let line = trim_spec(f.subrange(p as int, c as int));
                assert(content_lines(f, wn, p as nat) == seq![line] + content_lines(
                    f,
                    wn,
                    c as nat,
                ));
                lemma_glue_tail_cons(line, content_lines(f, wn, c as nat), indn);
                reveal_strlit("\n");
                assert(result@ =~= pre + (seq!['\n'] + spaces(indn) + line));
                assert(result@ + glue_tail(content_lines(f, wn, c as nat), indn) =~= pre
                    + glue_tail(content_lines(f, wn, p as nat), indn));
            }
            p = c;
        } else {
            let frag = trim_substring(field, p, p + w);
            result.append(frag);
            result.append("-");
            proof {
                let line = trim_spec(f.subrange(p as int, (p + w) as int)).push('-');
                assert(content_lines(f, wn, p as nat) == seq![line] + content_lines(
                    f,
                    wn,
                    (p + w) as nat,
                ));
                lemma_glue_tail_cons(line, content_lines(f, wn, (p + w) as nat), indn);
                reveal_strlit("\n");
                reveal_strlit("-");
                assert(result@ =~= pre + (seq!['\n'] + spaces(indn) + line));
                assert(result@ + glue_tail(content_lines(f, wn, (p + w) as nat), indn) =~= pre
                    + glue_tail(content_lines(f, wn, p as nat), indn));
            }
            p = p + w;
        }
    }
    let ghost pre = result@;
    result.append("\n");
    push_spaces(&mut result, ind);
    let frag = trim_substring(field, p, n);
    result.append(frag);
    proof {
        let line = trim_spec(f.subrange(p as int, n as int));
        assert(content_lines(f, wn, p as nat) == seq![line]);
        assert(glue_tail(seq![line], indn) == seq!['\n'] + spaces(indn) + line + glue_tail(
            Seq::<Seq<char>>::empty(),
            indn,
        )) by {
            assert(seq![line].drop_first() =~= Seq::<Seq<char>>::empty());
        }
        reveal_strlit("\n");
        assert(result@ =~= pre + (seq!['\n'] + spaces(indn) + line));
        assert(result@ =~= pre + glue_tail(content_lines(f, wn, p as nat), indn));
    }
    result
}

/// Every wrapped line holds at most `w` characters beyond its indentation;
/// only a forced break exceeds that, by exactly its trailing hyphen, and
/// such a line is whitespace-free text: hyphenation happens only where a
/// window offers no break.
pub proof fn lemma_line_widths(f: Seq<char>, w: nat, p: nat, i: int)
    requires
        w >= 1,
        p < f.len(),
        0 <= i < content_lines(f, w, p).len(),
    ensures
        content_lines(f, w, p)[i].len() <= w + 1,
        content_lines(f, w, p)[i].len() == w + 1 ==> content_lines(f, w, p)[i][w as int] == '-'
            && (forall|j: int| 0 <= j < w ==> !is_wsp(#[trigger] content_lines(f, w, p)[i][j])),
    decreases f.len() - p,
{
    let ls = content_lines(f, w, p);
    if p + w >= f.len() {
        lemma_trim_le(f.subrange(p as int, f.len() as int));
    } else {
        let c = last_break(f, p as int, (p + w) as int);
        lemma_last_break_bounds(f, p as int, (p + w) as int);
        if c > p {
            let rest = content_lines(f, w, c as nat);
            assert(ls == seq![trim_spec(f.subrange(p as int, c))] + rest);
            if i == 0 {
                lemma_trim_le(f.subrange(p as int, c));
            } else {
                lemma_line_widths(f, w, c as nat, i - 1);
                assert(ls[i] == rest[i - 1]);
            }
        } else {
            let win = f.subrange(p as int, (p + w) as int);
            let rest = content_lines(f, w, (p + w) as nat);
            assert(ls == seq![trim_spec(win).push('-')] + rest);
            if i == 0 {
                lemma_trim_le(win);
                let l = trim_spec(win).push('-');
                assert(ls[0] == l);
                if l.len() == w + 1 {
                    lemma_trim_full(win);
                    assert(l[w as int] == '-');
                    assert forall|j: int| 0 <= j < w implies !is_wsp(#[trigger] l[j]) by {
                        assert(l[j] == win[j]);
                        if j > 0 {
                            assert(win[j] == f[p + j]);
                        }
                    }
                }
            } else {
                lemma_line_widths(f, w, (p + w) as nat, i - 1);
                assert(ls[i] == rest[i - 1]);
            }
        }
    }
}

} // verus!
