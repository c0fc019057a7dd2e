//! Money as the storefront prints it: `1.890.000₫`.

use vstd::prelude::*;

use crate::text::{decimal_digits, decimal_digits_of, string_from_chars, unsigned_abs};

verus! {

/// The first `i` digits of `ds`, with a `.` before each digit that has a
/// positive multiple of three digits from it to the end.
pub open spec fn grouped_prefix(ds: Seq<char>, i: int) -> Seq<char>
    decreases i,
{
    if i <= 0 {
        Seq::empty()
    } else {
        let k = i - 1;
        grouped_prefix(ds, k) + if k > 0 && (ds.len() - k) % 3 == 0 {
            seq!['.', ds[k]]
        } else {
            seq![ds[k]]
        }
    }
}

/// The digits split into groups of three from the right, joined by `.`.
pub open spec fn group_thousands(ds: Seq<char>) -> Seq<char> {
    grouped_prefix(ds, ds.len() as int)
}

/// An amount of VND: a `-` when negative, the digits of its magnitude in
/// groups of three joined by `.`, and the sign `₫`.
pub open spec fn vnd_text(amount: i64) -> Seq<char> {
    let magnitude: nat = if amount < 0 {
        (-amount) as nat
    } else {
        amount as nat
    };
    (if amount < 0 {
        seq!['-']
    } else {
        Seq::empty()
    }) + group_thousands(decimal_digits(magnitude)) + seq!['\u{20ab}']
}

/// Prints an amount of VND.
pub fn format_vnd(amount: i64) -> (s: String)
    ensures
        s@ == vnd_text(amount),
{
    let magnitude = unsigned_abs(amount);
    let ds = decimal_digits_of(magnitude);
    let n = ds.len();
    let mut out: Vec<char> = Vec::new();
    if amount < 0 {
        out.push('-');
    }
    let ghost sign = out@;
    let mut k: usize = 0;
    while k < n
        invariant
            k <= n,
            n == ds@.len(),
            out@ == sign + grouped_prefix(ds@, k as int),
        decreases n - k,
    {
        if k > 0 && (n - k) % 3 == 0 {
            out.push('.');
        }
        out.push(ds[k]);
        k = k + 1;
        assert(out@ =~= sign + grouped_prefix(ds@, k as int));
    }
    out.push('\u{20ab}');
    assert(out@ =~= vnd_text(amount));
    string_from_chars(&out)
}

proof fn lemma_prefix_of_leading_digits(ds: Seq<char>, i: int)
    requires
        ds.len() > 3,
        0 <= i <= ds.len() - 3,
    ensures
        grouped_prefix(ds, i) == grouped_prefix(ds.take(ds.len() - 3), i),
    decreases i,
{
    if i > 0 {
        let k = i - 1;
        let m = ds.len() - 3;
        lemma_prefix_of_leading_digits(ds, k);
        assert(ds.take(m)[k] == ds[k]);
        assert((ds.len() - k) % 3 == (m - k) % 3);
    }
}

proof fn lemma_short_has_no_dots(ds: Seq<char>, i: int)
    requires
        ds.len() <= 3,
        0 <= i <= ds.len(),
    ensures
        grouped_prefix(ds, i) == ds.take(i),
    decreases i,
{
    if i > 0 {
        lemma_short_has_no_dots(ds, i - 1);
        assert(ds.take(i - 1).push(ds[i - 1]) =~= ds.take(i));
    } else {
        assert(ds.take(0) =~= Seq::<char>::empty());
    }
}

/// Digits are grouped in threes from the right: up to three digits stand as
/// they are, and a longer run is the grouping of all but its last three
/// digits, a `.`, and those three digits. So every group after the first
/// has exactly three digits and the first has one to three.
pub proof fn law_groups_from_the_right(ds: Seq<char>)
    ensures
        ds.len() <= 3 ==> group_thousands(ds) == ds,
        ds.len() > 3 ==> group_thousands(ds) == group_thousands(ds.take(ds.len() - 3)) + seq!['.']
            + ds.skip(ds.len() - 3),
{
    let n = ds.len() as int;
    if n <= 3 {
        lemma_short_has_no_dots(ds, n);
        assert(ds.take(n) =~= ds);
    } else {
        lemma_prefix_of_leading_digits(ds, n - 3);
        assert(ds.take(n - 3).len() == n - 3);
        assert(group_thousands(ds.take(n - 3)) == grouped_prefix(ds.take(n - 3), n - 3));
        let base = grouped_prefix(ds, n - 3);
        assert((ds.len() - (n - 3)) % 3 == 0);
        assert((ds.len() - (n - 2)) % 3 == 2);
        assert((ds.len() - (n - 1)) % 3 == 1);
        assert(grouped_prefix(ds, n - 2) == base + seq!['.', ds[n - 3]]);
        assert(grouped_prefix(ds, n - 1) == grouped_prefix(ds, n - 2) + seq![ds[n - 2]]);
        assert(grouped_prefix(ds, n) == grouped_prefix(ds, n - 1) + seq![ds[n - 1]]);
        assert(grouped_prefix(ds, n) =~= base + seq!['.'] + ds.skip(n - 3));
    }
}

} // verus!
