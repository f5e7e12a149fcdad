//! Library-wide laws: determinism of building, preservation of
//! registration order, and order-independence of the width computation.

use vstd::prelude::*;

use crate::builder::build_spec;
use crate::builder::dec_long;
use crate::builder::dec_short;
use crate::builder::entry_row;
use crate::builder::lemma_widths_base_bound;
use crate::builder::param_render;
use crate::builder::rows_spec;
use crate::builder::widths_base;
use crate::builder::widths_of;
use crate::builder::ColumnWidths;
use crate::builder::Command;
use crate::enums::display_length;
use crate::enums::Parameter;
use crate::wrap::wrap_spec;

verus! {

/// Two parameters that carry the same kind and the same text.
pub open spec fn param_alike(x: Parameter, y: Parameter) -> bool {
    match (x, y) {
        (Parameter::OPTIONAL(s), Parameter::OPTIONAL(t)) => s@ == t@,
        (Parameter::REQUIRED(s), Parameter::REQUIRED(t)) => s@ == t@,
        (Parameter::NO, Parameter::NO) => true,
        _ => false,
    }
}

/// Two rows that carry the same texts, parameter kind and dash style.
pub open spec fn cmd_alike(x: Command, y: Command) -> bool {
    &&& x.short_command@ == y.short_command@
    &&& x.long_command@ == y.long_command@
    &&& x.description@ == y.description@
    &&& param_alike(x.parameter_name, y.parameter_name)
    &&& x.dash_status == y.dash_status
}

/// Two entry sequences registering the same rows in the same order.
pub open spec fn entries_alike(a: Seq<Command>, b: Seq<Command>) -> bool {
    a.len() == b.len() && forall|i: int| 0 <= i < a.len() ==> cmd_alike(#[trigger] a[i], b[i])
}

/// Alike rows render to the same row under any widths.
proof fn lemma_entry_row_alike(x: Command, y: Command, w: ColumnWidths)
    requires
        cmd_alike(x, y),
    ensures
        entry_row(x, w) == entry_row(y, w),
{
    assert(dec_short(x) == dec_short(y));
    assert(dec_long(x) == dec_long(y));
    assert(param_render(x.parameter_name) == param_render(y.parameter_name));
}

/// Alike entry sequences have the same base widths.
proof fn lemma_widths_base_alike(a: Seq<Command>, b: Seq<Command>)
    requires
        entries_alike(a, b),
    ensures
        widths_base(a) == widths_base(b),
    decreases a.len(),
{
    if a.len() > 0 {
        assert(entries_alike(a.drop_last(), b.drop_last())) by {
            assert(forall|i: int|
                0 <= i < a.len() - 1 ==> #[trigger] a.drop_last()[i] == a[i] && b.drop_last()[i]
                    == b[i]);
        }
        lemma_widths_base_alike(a.drop_last(), b.drop_last());
        assert(cmd_alike(a.last(), b.last()));
        assert(display_length(a.last().parameter_name) == display_length(
            b.last().parameter_name,
        ));
    }
}

/// Alike entry sequences render to the same rows under equal widths.
proof fn lemma_rows_alike(a: Seq<Command>, b: Seq<Command>, w: ColumnWidths)
    requires
        entries_alike(a, b),
    ensures
        rows_spec(a, w) == rows_spec(b, w),
    decreases a.len(),
{
    if a.len() > 0 {
        assert(entries_alike(a.drop_last(), b.drop_last())) by {
            assert(forall|i: int|
                0 <= i < a.len() - 1 ==> #[trigger] a.drop_last()[i] == a[i] && b.drop_last()[i]
                    == b[i]);
        }
        lemma_rows_alike(a.drop_last(), b.drop_last(), w);
        assert(cmd_alike(a.last(), b.last()));
        lemma_entry_row_alike(a.last(), b.last(), w);
    }
}

/// Building is deterministic: two entry sequences that register the same
/// texts, parameter kinds and dash styles, in the same order, render to
/// identical output text.
pub proof fn lemma_build_deterministic(a: Seq<Command>, b: Seq<Command>)
    requires
        entries_alike(a, b),
    ensures
        build_spec(a) == build_spec(b),
{
    lemma_widths_base_alike(a, b);
    assert(widths_of(a) == widths_of(b));
    lemma_rows_alike(a, b, widths_of(a));
}

/// Registration order is preserved in the output: the message of the
/// first `i + 1` entries is the message of the first `i` entries followed
/// by exactly the row of entry `i`.
pub proof fn lemma_row_order(s: Seq<Command>, w: ColumnWidths, i: int)
    requires
        0 <= i < s.len(),
    ensures
        rows_spec(s.take(i + 1), w) == rows_spec(s.take(i), w) + entry_row(s[i], w),
{
    assert(s.take(i + 1).drop_last() =~= s.take(i));
    assert(s.take(i + 1).last() == s[i]);
}

/// Each base width of a non-empty sequence is attained by some entry.
proof fn lemma_widths_base_witness(s: Seq<Command>)
    requires
        s.len() > 0,
    ensures
        exists|i: int|
            0 <= i < s.len() && (#[trigger] s[i]).short_command@.len() == widths_base(s).0,
        exists|i: int| 0 <= i < s.len() && (#[trigger] s[i]).long_command@.len() == widths_base(s).1,
        exists|i: int|
            0 <= i < s.len() && display_length((#[trigger] s[i]).parameter_name) == widths_base(
                s,
            ).2,
        exists|i: int| 0 <= i < s.len() && (#[trigger] s[i]).description@.len() == widths_base(s).3,
    decreases s.len(),
{
    if s.len() == 1 {
        assert(s[0] == s.last());
        assert(widths_base(s.drop_last()) == (0nat, 0nat, 0nat, 0nat));
    } else {
        lemma_widths_base_witness(s.drop_last());
        assert(forall|i: int| 0 <= i < s.len() - 1 ==> #[trigger] s.drop_last()[i] == s[i]);
        if widths_base(s).0 != s.last().short_command@.len() {
            let i = choose|i: int|
                0 <= i < s.drop_last().len() && (#[trigger] s.drop_last()[i]).short_command@.len()
                    == widths_base(s.drop_last()).0;
            assert(s[i].short_command@.len() == widths_base(s).0);
        }
        if widths_base(s).1 != s.last().long_command@.len() {
            let i = choose|i: int|
                0 <= i < s.drop_last().len() && (#[trigger] s.drop_last()[i]).long_command@.len()
                    == widths_base(s.drop_last()).1;
            assert(s[i].long_command@.len() == widths_base(s).1);
        }
        if widths_base(s).2 != display_length(s.last().parameter_name) {
            let i = choose|i: int|
                0 <= i < s.drop_last().len() && display_length(
                    (#[trigger] s.drop_last()[i]).parameter_name,
                ) == widths_base(s.drop_last()).2;
            assert(display_length(s[i].parameter_name) == widths_base(s).2);
        }
        if widths_base(s).3 != s.last().description@.len() {
            let i = choose|i: int|
                0 <= i < s.drop_last().len() && (#[trigger] s.drop_last()[i]).description@.len()
                    == widths_base(s.drop_last()).3;
            assert(s[i].description@.len() == widths_base(s).3);
        }
    }
}

/// Each base width of `a` is bounded by the corresponding width of any
/// sequence holding the same entries.
proof fn lemma_widths_base_le(a: Seq<Command>, b: Seq<Command>)
    requires
        a.to_multiset() == b.to_multiset(),
    ensures
        widths_base(a).0 <= widths_base(b).0,
        widths_base(a).1 <= widths_base(b).1,
        widths_base(a).2 <= widths_base(b).2,
        widths_base(a).3 <= widths_base(b).3,
{
    a.to_multiset_ensures();
    b.to_multiset_ensures();
    if a.len() > 0 {
        lemma_widths_base_witness(a);
        let i0 = choose|i: int|
            0 <= i < a.len() && (#[trigger] a[i]).short_command@.len() == widths_base(a).0;
        assert(a.contains(a[i0]));
        assert(b.to_multiset().count(a[i0]) > 0);
        assert(b.contains(a[i0]));
        let j0 = choose|j: int| 0 <= j < b.len() && b[j] == a[i0];
        lemma_widths_base_bound(b, j0);
        let i1 = choose|i: int|
            0 <= i < a.len() && (#[trigger] a[i]).long_command@.len() == widths_base(a).1;
        assert(a.contains(a[i1]));
        assert(b.to_multiset().count(a[i1]) > 0);
        assert(b.contains(a[i1]));
        let j1 = choose|j: int| 0 <= j < b.len() && b[j] == a[i1];
        lemma_widths_base_bound(b, j1);
        let i2 = choose|i: int|
            0 <= i < a.len() && display_length((#[trigger] a[i]).parameter_name) == widths_base(
                a,
            ).2;
        assert(a.contains(a[i2]));
        assert(b.to_multiset().count(a[i2]) > 0);
        assert(b.contains(a[i2]));
        let j2 = choose|j: int| 0 <= j < b.len() && b[j] == a[i2];
        lemma_widths_base_bound(b, j2);
        let i3 = choose|i: int|
            0 <= i < a.len() && (#[trigger] a[i]).description@.len() == widths_base(a).3;
        assert(a.contains(a[i3]));
        assert(b.to_multiset().count(a[i3]) > 0);
        assert(b.contains(a[i3]));
        let j3 = choose|j: int| 0 <= j < b.len() && b[j] == a[i3];
        lemma_widths_base_bound(b, j3);
    }
}

/// The width computation is order-independent: permuting the registered
/// entries leaves every column width unchanged.
pub proof fn lemma_widths_order_independent(a: Seq<Command>, b: Seq<Command>)
    requires
        a.to_multiset() == b.to_multiset(),
    ensures
        widths_of(a) == widths_of(b),
{
    lemma_widths_base_le(a, b);
    lemma_widths_base_le(b, a);
}

/// The rows of an entry sequence under fixed widths, one per entry, in
/// order.
pub open spec fn row_seq(s: Seq<Command>, w: ColumnWidths) -> Seq<Seq<char>> {
    s.map_values(|c: Command| entry_row(c, w))
}

/// Under fixed widths, sequences holding the same entries render to the
/// same rows, reordered.
proof fn lemma_row_seq_perm(a: Seq<Command>, b: Seq<Command>, w: ColumnWidths)
    requires
        a.to_multiset() == b.to_multiset(),
    ensures
        row_seq(a, w).to_multiset() == row_seq(b, w).to_multiset(),
    decreases a.len(),
{
    broadcast use vstd::multiset::group_multiset_axioms;

    a.to_multiset_ensures();
    b.to_multiset_ensures();
    if a.len() == 0 {
        assert(b.len() == 0);
        assert(row_seq(a, w) =~= row_seq(b, w));
    } else {
        let x = a.last();
        let y = entry_row(x, w);
        assert(a.contains(x));
        assert(b.to_multiset().count(x) > 0);
        assert(b.contains(x));
        let j = choose|j: int| 0 <= j < b.len() && b[j] == x;
        let a2 = a.drop_last();
        let b2 = b.remove(j);
        a2.to_multiset_ensures();
        assert(a =~= a2.push(x));
        assert(a.to_multiset() =~= a2.to_multiset().insert(x));
        assert(b2.to_multiset() =~= b.to_multiset().remove(x));
        assert(a2.to_multiset() =~= b2.to_multiset());
        lemma_row_seq_perm(a2, b2, w);
        row_seq(a2, w).to_multiset_ensures();
        assert(row_seq(a, w) =~= row_seq(a2, w).push(y));
        assert(row_seq(a, w).to_multiset() =~= row_seq(a2, w).to_multiset().insert(y));
        row_seq(b, w).to_multiset_ensures();
        assert(row_seq(b2, w) =~= row_seq(b, w).remove(j));
        assert(row_seq(b, w)[j] == y);
        assert(row_seq(b2, w).to_multiset() =~= row_seq(b, w).to_multiset().remove(y));
        assert(row_seq(b, w).contains(y));
        assert(row_seq(b, w).to_multiset().count(y) > 0);
        assert(row_seq(b, w).to_multiset() =~= row_seq(b2, w).to_multiset().insert(y));
    }
}

/// Permuting the registered entries permutes the rendered rows and
/// changes nothing else: both messages use the same widths, and the
/// multiset of rows is unchanged.
pub proof fn lemma_permutation_same_rows(a: Seq<Command>, b: Seq<Command>)
    requires
        a.to_multiset() == b.to_multiset(),
    ensures
        widths_of(a) == widths_of(b),
        row_seq(a, widths_of(a)).to_multiset() == row_seq(b, widths_of(b)).to_multiset(),
{
    lemma_widths_order_independent(a, b);
    lemma_row_seq_perm(a, b, widths_of(a));
}

/// A field that fits in the wrap width, such as a single token of exactly
/// that many characters, is returned unchanged: it is never hyphenated.
pub proof fn lemma_wrap_unchanged_when_fits(f: Seq<char>, w: nat, ind: nat)
    requires
        f.len() <= w,
    ensures
        wrap_spec(f, w, ind) == f,
{
}

} // verus!
