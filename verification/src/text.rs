//! Decimal rendering of numbers and shapes for error messages.

use vstd::prelude::*;

verus! {

/// The decimal digit `d` as text.
pub open spec fn digit_text(d: int) -> Seq<char> {
    if d == 0 {
        "0"@
    } else if d == 1 {
        "1"@
    } else if d == 2 {
        "2"@
    } else if d == 3 {
        "3"@
    } else if d == 4 {
        "4"@
    } else if d == 5 {
        "5"@
    } else if d == 6 {
        "6"@
    } else if d == 7 {
        "7"@
    } else if d == 8 {
        "8"@
    } else {
        "9"@
    }
}

/// The decimal text of `n`, without leading zeros.
pub open spec fn decimal(n: nat) -> Seq<char>
    decreases n,
{
    if n < 10 {
        digit_text(n as int)
    } else {
        decimal(n / 10) + digit_text((n % 10) as int)
    }
}

/// The text of a list of numbers as `[a, b, c]`.
pub open spec fn list_text(v: Seq<usize>) -> Seq<char> {
    "["@ + list_items(v) + "]"@
}

/// The numbers of `v` separated by `", "`.
pub open spec fn list_items(v: Seq<usize>) -> Seq<char>
    decreases v.len(),
{
    if v.len() == 0 {
        Seq::empty()
    } else if v.len() == 1 {
        decimal(v[0] as nat)
    } else {
        list_items(v.drop_last()) + ", "@ + decimal(v.last() as nat)
    }
}

fn digit_str(d: usize) -> (r: &'static str)
    requires
        d < 10,
    ensures
        r@ == digit_text(d as int),
{
    if d == 0 {
        "0"
    } else if d == 1 {
        "1"
    } else if d == 2 {
        "2"
    } else if d == 3 {
        "3"
    } else if d == 4 {
        "4"
    } else if d == 5 {
        "5"
    } else if d == 6 {
        "6"
    } else if d == 7 {
        "7"
    } else if d == 8 {
        "8"
    } else {
        "9"
    }
}

/// Appends the decimal text of `n`.
pub fn push_decimal(s: &mut String, n: usize)
    ensures
        final(s)@ == old(s)@ + decimal(n as nat),
    decreases n,
{
    if n >= 10 {
        push_decimal(s, n / 10);
    }
    s.append(digit_str(n % 10));
    proof {
        if n >= 10 {
            assert(old(s)@ + decimal((n / 10) as nat) + digit_text((n % 10) as int) =~= old(s)@
                + decimal(n as nat));
        }
    }
}

/// Appends `[a, b, ...]`.
pub fn push_list(s: &mut String, v: &[usize])
    ensures
        final(s)@ == old(s)@ + list_text(v@),
{
    s.append("[");
    let mut i: usize = 0;
    while i < v.len()
        invariant
            i <= v@.len(),
            s@ == old(s)@ + "["@ + list_items(v@.take(i as int)),
        decreases v.len() - i,
    {
        let ghost before = s@;
        if i > 0 {
            s.append(", ");
        }
        push_decimal(s, v[i]);
        proof {
            let t = v@.take(i + 1);
            assert(t.drop_last() =~= v@.take(i as int));
            if i == 0 {
                assert(list_items(v@.take(0)) =~= Seq::<char>::empty());
            }
            assert(s@ =~= old(s)@ + "["@ + list_items(t));
        }
        i = i + 1;
    }
    assert(v@.take(v@.len() as int) =~= v@);
    s.append("]");
    assert(s@ =~= old(s)@ + list_text(v@));
}

} // verus!
