//! Text helpers: comparing string slices and rendering booleans, integers
//! and lists of names as characters.

use vstd::prelude::*;
use vstd::string::*;
use vstd::utf8::*;

verus! {

/// Compares two string slices character by character.
pub fn str_eq(a: &str, b: &str) -> (same: bool)
    ensures
        same == (a@ == b@),
{
    let x = a.as_bytes();
    let y = b.as_bytes();
    proof {
        encode_utf8_decode_utf8(a@);
        encode_utf8_decode_utf8(b@);
    }
    if x.len() != y.len() {
        return false;
    }
    let mut i: usize = 0;
    while i < x.len()
        invariant
            x@ == a.spec_bytes(),
            y@ == b.spec_bytes(),
            x@.len() == y@.len(),
            i <= x@.len(),
            forall|j: int| 0 <= j < i ==> x@[j] == y@[j],
        decreases x@.len() - i,
    {
        if x[i] != y[i] {
            return false;
        }
        i += 1;
    }
    assert(x@ =~= y@);
    true
}

/// The text that stands for a boolean: `true` or `false`.
pub open spec fn bool_text(b: bool) -> Seq<char> {
    if b {
        seq!['t', 'r', 'u', 'e']
    } else {
        seq!['f', 'a', 'l', 's', 'e']
    }
}

/// The decimal digit character for a value below ten.
pub open spec fn digit_char(d: nat) -> char {
    if d == 0 {
        '0'
    } else if d == 1 {
        '1'
    } else if d == 2 {
        '2'
    } else if d == 3 {
        '3'
    } else if d == 4 {
        '4'
    } else if d == 5 {
        '5'
    } else if d == 6 {
        '6'
    } else if d == 7 {
        '7'
    } else if d == 8 {
        '8'
    } else {
        '9'
    }
}

/// The decimal rendering of a natural number, without sign or leading zeros.
pub open spec fn decimal_text(n: nat) -> Seq<char>
    decreases n,
{
    if n < 10 {
        seq![digit_char(n)]
    } else {
        decimal_text(n / 10).push(digit_char(n % 10))
    }
}

/// The given names joined by single commas, in order.
pub open spec fn joined_text(names: Seq<Seq<char>>) -> Seq<char>
    decreases names.len(),
{
    if names.len() == 0 {
        Seq::empty()
    } else if names.len() == 1 {
        names[0]
    } else {
        joined_text(names.drop_last()) + seq![','] + names.last()
    }
}

/// Appends `true` or `false` to `out`.
pub fn append_bool(out: &mut String, b: bool)
    ensures
        final(out)@ == old(out)@ + bool_text(b),
{
    proof {
        reveal_strlit("true");
        reveal_strlit("false");
    }
    if b {
        assert("true"@ =~= bool_text(true));
        out.append("true");
    } else {
        assert("false"@ =~= bool_text(false));
        out.append("false");
    }
}

fn digit_str(d: u64) -> (s: &'static str)
    requires
        d < 10,
    ensures
        s@ == seq![digit_char(d as nat)],
{
    proof {
        reveal_strlit("0");
        reveal_strlit("1");
        reveal_strlit("2");
        reveal_strlit("3");
        reveal_strlit("4");
        reveal_strlit("5");
        reveal_strlit("6");
        reveal_strlit("7");
        reveal_strlit("8");
        reveal_strlit("9");
    }
    let s = if d == 0 {
        "0"
    } else if d == 1 {
        "1"
    } else if d == 2 {
        "2"
    } else if d == 3 {
        "3"
    } else if d == 4 {
        "4"
    } else if d == 5 {
        "5"
    } else if d == 6 {
        "6"
    } else if d == 7 {
        "7"
    } else if d == 8 {
        "8"
    } else {
        "9"
    };
    assert(s@ =~= seq![digit_char(d as nat)]);
    s
}

/// Appends the decimal rendering of `n` to `out`.
pub fn append_decimal(out: &mut String, n: u64)
    ensures
        final(out)@ == old(out)@ + decimal_text(n as nat),
    decreases n,
{
    if n >= 10 {
        append_decimal(out, n / 10);
    }
    let digit = digit_str(n % 10);
    out.append(digit);
    assert(out@ =~= old(out)@ + decimal_text(n as nat));
}

/// Appends the given names to `out`, separated by single commas.
pub fn append_joined(out: &mut String, names: &Vec<String>)
    ensures
        final(out)@ == old(out)@ + joined_text(names.deep_view()),
{
    let ghost views = names.deep_view();
    let mut i: usize = 0;
    while i < names.len()
        invariant
            views == names.deep_view(),
            i <= names.len(),
            out@ == old(out)@ + joined_text(views.take(i as int)),
        decreases names.len() - i,
    {
        proof {
            reveal_strlit(",");
            assert(views.take(i + 1).drop_last() =~= views.take(i as int));
            assert(views.take(i + 1).last() == names[i as int]@);
        }
        if i > 0 {
            out.append(",");
        }
        out.append(names[i].as_str());
        i += 1;
        assert(out@ =~= old(out)@ + joined_text(views.take(i as int)));
    }
    assert(views.take(i as int) =~= views);
}

} // verus!
