//! Small verified helpers on strings and decimal digit sequences.
//!
//! Cache file names and the manifest format are built from decimal renderings
//! of sizes and indices, so the decimal spec here is shared by both.

use vstd::prelude::*;

verus! {

/// The character for a single decimal digit value.
pub open spec fn dec_digit_char(d: nat) -> char {
    ((d + 48) as u8) as char
}

/// The decimal rendering of a natural number, most significant digit first.
pub open spec fn spec_dec(n: nat) -> Seq<char>
    decreases n,
{
    if n < 10 {
        seq![dec_digit_char(n)]
    } else {
        spec_dec(n / 10).push(dec_digit_char(n % 10))
    }
}

/// The numeric value of a sequence of decimal digit characters.
pub open spec fn digits_val(ds: Seq<char>) -> nat
    decreases ds.len(),
{
    if ds.len() == 0 {
        0
    } else {
        digits_val(ds.drop_last()) * 10 + ((ds.last() as nat - 48) as nat)
    }
}

/// Whether every character of the sequence is a decimal digit.
pub open spec fn all_digits(ds: Seq<char>) -> bool {
    forall|i: int| 0 <= i < ds.len() ==> '0' <= #[trigger] ds[i] <= '9'
}

pub proof fn lemma_dec_digit_char_val(d: nat)
    requires
        d < 10,
    ensures
        dec_digit_char(d) as nat == d + 48,
        '0' <= dec_digit_char(d) <= '9',
{
    assert((d + 48) as u8 == d + 48);
    assert(((d + 48) as u8) as char as nat == (d + 48) as u8 as nat);
}

pub proof fn lemma_spec_dec_len(n: nat)
    ensures
        spec_dec(n).len() >= 1,
        n >= 10 ==> spec_dec(n).len() >= 2,
    decreases n,
{
    if n >= 10 {
        lemma_spec_dec_len(n / 10);
    }
}

/// A decimal rendering holds digits only, with no leading zero unless it is
/// the single digit "0".
pub proof fn lemma_spec_dec_digits(n: nat)
    ensures
        all_digits(spec_dec(n)),
        spec_dec(n)[0] != '0' || spec_dec(n).len() == 1,
        n < 10 ==> spec_dec(n)[0] == dec_digit_char(n),
    decreases n,
{
    if n < 10 {
        lemma_dec_digit_char_val(n);
        assert(spec_dec(n) =~= seq![dec_digit_char(n)]);
    } else {
        lemma_spec_dec_digits(n / 10);
        lemma_spec_dec_len(n / 10);
        lemma_dec_digit_char_val(n % 10);
        assert forall|i: int| 0 <= i < spec_dec(n).len() implies '0' <= #[trigger] spec_dec(
            n,
        )[i] <= '9' by {
            if i < spec_dec(n).len() - 1 {
                assert(spec_dec(n)[i] == spec_dec(n / 10)[i]);
            }
        }
    }
}

/// The decimal rendering evaluates back to the number it renders.
pub proof fn lemma_spec_dec_val(n: nat)
    ensures
        digits_val(spec_dec(n)) == n,
    decreases n,
{
    if n < 10 {
        lemma_dec_digit_char_val(n);
        assert(spec_dec(n).drop_last() =~= Seq::<char>::empty());
        assert(spec_dec(n).last() == dec_digit_char(n));
        assert(digits_val(spec_dec(n)) == digits_val(spec_dec(n).drop_last()) * 10 + ((spec_dec(
            n,
        ).last() as nat - 48) as nat));
        assert(((dec_digit_char(n) as nat - 48) as nat) == n);
    } else {
        lemma_spec_dec_val(n / 10);
        lemma_dec_digit_char_val(n % 10);
        assert(spec_dec(n).drop_last() =~= spec_dec(n / 10));
        assert(spec_dec(n).last() == dec_digit_char(n % 10));
        assert(digits_val(spec_dec(n)) == digits_val(spec_dec(n).drop_last()) * 10 + ((spec_dec(
            n,
        ).last() as nat - 48) as nat));
        assert(((dec_digit_char(n % 10) as nat - 48) as nat) == n % 10);
        assert(digits_val(spec_dec(n)) == (n / 10) * 10 + n % 10);
        assert((n / 10) * 10 + n % 10 == n);
    }
}

/// A digit string is worth at least any of its prefixes.
pub proof fn lemma_digits_val_mono(ds: Seq<char>, k: int)
    requires
        0 <= k <= ds.len(),
    ensures
        digits_val(ds.subrange(0, k)) <= digits_val(ds),
    decreases ds.len() - k,
{
    if k == ds.len() {
        assert(ds.subrange(0, k) =~= ds);
    } else {
        let pre = ds.drop_last();
        assert(ds.subrange(0, k) =~= pre.subrange(0, k));
        lemma_digits_val_mono(pre, k);
        assert(digits_val(ds) == digits_val(pre) * 10 + ((ds.last() as nat - 48) as nat));
        assert(digits_val(pre) * 10 >= digits_val(pre));
    }
}

/// A nonempty digit string without a leading zero has a nonzero value.
pub proof fn lemma_digits_val_positive(ds: Seq<char>)
    requires
        all_digits(ds),
        ds.len() >= 1,
        ds[0] != '0',
    ensures
        digits_val(ds) >= 1,
    decreases ds.len(),
{
    if ds.len() == 1 {
        assert('1' <= ds[0] <= '9');
    } else {
        lemma_digits_val_positive(ds.drop_last());
    }
}

/// A digit string in canonical form (no leading zero unless it is "0")
/// is exactly the decimal rendering of its value.
pub proof fn lemma_digits_canonical(ds: Seq<char>)
    requires
        all_digits(ds),
        ds.len() >= 1,
        ds[0] != '0' || ds.len() == 1,
    ensures
        ds =~= spec_dec(digits_val(ds)),
    decreases ds.len(),
{
    if ds.len() == 1 {
        assert(digits_val(ds.drop_last()) == 0);
        assert(ds =~= seq![ds[0]]);
    } else {
        let prefix = ds.drop_last();
        lemma_digits_val_positive(prefix);
        lemma_digits_canonical(prefix);
        let d: nat = (ds.last() as nat - 48) as nat;
        assert(digits_val(ds) == digits_val(prefix) * 10 + d);
        assert(digits_val(ds) >= 10);
        assert(digits_val(ds) / 10 == digits_val(prefix));
        assert(digits_val(ds) % 10 == d);
        assert(dec_digit_char(d) == ds.last());
    }
}

/// Renders a number as its decimal digit string.
pub fn u64_to_string(n: u64) -> (s: String)
    ensures
        s@ == spec_dec(n as nat),
    decreases n,
{
    if n < 10 {
        let s = String::from_str(digit_str(n));
        proof {
            assert(s@ =~= spec_dec(n as nat));
        }
        s
    } else {
        let mut s = u64_to_string(n / 10);
        s.append(digit_str(n % 10));
        proof {
            assert(s@ =~= spec_dec(n as nat));
        }
        s
    }
}

fn digit_str(d: u64) -> (s: &'static str)
    requires
        d < 10,
    ensures
        s@ == seq![dec_digit_char(d as nat)],
{
    let s: &'static str = match d {
        0 => "0",
        1 => "1",
        2 => "2",
        3 => "3",
        4 => "4",
        5 => "5",
        6 => "6",
        7 => "7",
        8 => "8",
        _ => "9",
    };
    proof {
        reveal_strlit("0");
        reveal_strlit("1");
        reveal_strlit("2");
        reveal_strlit("3");
        reveal_strlit("4");
        reveal_strlit("5");
        reveal_strlit("6");
        reveal_strlit("7");
        reveal_strlit("8");
        reveal_strlit("9");
        assert(s@ =~= seq![dec_digit_char(d as nat)]);
    }
    s
}

/// Relies on std's String::push: appends the given character to the end of
/// the string.
#[verifier::external_body]
pub fn push_char(s: &mut String, c: char)
    ensures
        final(s)@ == old(s)@.push(c),
{
    s.push(c);
}

/// Character-wise string equality, specified over the views.
pub fn str_eq(a: &str, b: &str) -> (r: bool)
    ensures
        r == (a@ == b@),
{
    let la = a.unicode_len();
    let lb = b.unicode_len();
    if la != lb {
        return false;
    }
    let mut i: usize = 0;
    while i < la
        invariant
            la == a@.len(),
            la == b@.len(),
            i <= la,
            forall|j: int| 0 <= j < i ==> a@[j] == b@[j],
        decreases la - i,
    {
        if a.get_char(i) != b.get_char(i) {
            return false;
        }
        i += 1;
    }
    proof {
        assert(a@ =~= b@);
    }
    true
}

/// Whether `s` begins with `prefix`, specified over the views.
pub fn str_starts_with(s: &str, prefix: &str) -> (r: bool)
    ensures
        r == (s@.len() >= prefix@.len() && s@.subrange(0, prefix@.len() as int) == prefix@),
{
    let ls = s.unicode_len();
    let lp = prefix.unicode_len();
    if ls < lp {
        return false;
    }
    let mut i: usize = 0;
    while i < lp
        invariant
            ls == s@.len(),
            lp == prefix@.len(),
            lp <= ls,
            i <= lp,
            forall|j: int| 0 <= j < i ==> s@[j] == prefix@[j],
        decreases lp - i,
    {
        if s.get_char(i) != prefix.get_char(i) {
            proof {
                assert(s@.subrange(0, lp as int)[i as int] != prefix@[i as int]);
            }
            return false;
        }
        i += 1;
    }
    proof {
        assert(s@.subrange(0, lp as int) =~= prefix@);
    }
    true
}

} // verus!
