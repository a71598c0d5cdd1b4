//! Rendering of numbers and byte strings in diagnostics.
use crate::args::{ArgValsView, RRFuncArgVals};
use vstd::prelude::*;

verus! {

pub open spec fn digit(d: nat) -> Seq<char> {
    if d == 0 {
        "0"@
    } else if d == 1 {
        "1"@
    } else if d == 2 {
        "2"@
    } else if d == 3 {
        "3"@
    } else if d == 4 {
        "4"@
    } else if d == 5 {
        "5"@
    } else if d == 6 {
        "6"@
    } else if d == 7 {
        "7"@
    } else if d == 8 {
        "8"@
    } else {
        "9"@
    }
}

/// `n` in decimal notation.
pub open spec fn decimal(n: nat) -> Seq<char>
    decreases n,
{
    if n < 10 {
        digit(n)
    } else {
        decimal(n / 10) + digit(n % 10)
    }
}

/// The numbers, separated by a comma and a space.
pub open spec fn listed(bytes: Seq<u8>) -> Seq<char>
    decreases bytes.len(),
{
    if bytes.len() == 0 {
        Seq::empty()
    } else if bytes.len() == 1 {
        decimal(bytes[0] as nat)
    } else {
        listed(bytes.drop_last()) + ", "@ + decimal(bytes.last() as nat)
    }
}

/// A byte string, as a list in square brackets.
pub open spec fn byte_list(bytes: Seq<u8>) -> Seq<char> {
    "["@ + listed(bytes) + "]"@
}

/// The values of a function's arguments or results.
pub open spec fn arg_vals(vals: ArgValsView) -> Seq<char> {
    "RRFuncArgVals { bytes: "@ + byte_list(vals.bytes) + ", sizes: "@ + byte_list(vals.sizes)
        + " }"@
}

/// The number that a text in decimal notation stands for.
pub open spec fn number(text: Seq<char>) -> int
    decreases text.len(),
{
    if text.len() == 0 {
        0
    } else {
        10 * number(text.drop_last()) + (text.last() as int - '0' as int)
    }
}

proof fn lemma_digit(d: nat)
    requires
        d < 10,
    ensures
        digit(d).len() == 1,
        digit(d)[0] as int == '0' as int + d,
{
    reveal_strlit("0");
    reveal_strlit("1");
    reveal_strlit("2");
    reveal_strlit("3");
    reveal_strlit("4");
    reveal_strlit("5");
    reveal_strlit("6");
    reveal_strlit("7");
    reveal_strlit("8");
    reveal_strlit("9");
}

/// A number's text is made of digits, has no leading zero but that of zero
/// itself, and stands for the number: so no two numbers have the same text.
pub proof fn law_decimal(n: nat)
    ensures
        number(decimal(n)) == n,
        decimal(n).len() > 0,
        forall|i: int| 0 <= i < decimal(n).len() ==> '0' <= #[trigger] decimal(n)[i] <= '9',
        n > 0 ==> decimal(n)[0] != '0',
    decreases n,
{
    reveal_with_fuel(number, 2);
    if n < 10 {
        lemma_digit(n);
        assert(decimal(n).drop_last() =~= Seq::empty());
    } else {
        law_decimal(n / 10);
        lemma_digit(n % 10);
        assert(decimal(n).drop_last() =~= decimal(n / 10));
    }
}

/// The text of no bytes is empty, that of one byte is its number, and that of
/// two lists one after the other is the text of both with a comma and a space
/// between them.
pub proof fn law_listed(a: Seq<u8>, byte: u8, b: Seq<u8>)
    requires
        a.len() > 0,
        b.len() > 0,
    ensures
        listed(Seq::empty()).len() == 0,
        listed(seq![byte]) == decimal(byte as nat),
        listed(a + b) == listed(a) + seq![',', ' '] + listed(b),
    decreases b.len(),
{
    reveal_strlit(", ");
    assert(", "@ =~= seq![',', ' ']);
    assert((a + b).drop_last() =~= a + b.drop_last());
    if b.len() == 1 {
        assert(a + b.drop_last() =~= a);
    } else {
        law_listed(a, byte, b.drop_last());
        assert(listed(a + b) =~= listed(a) + seq![',', ' '] + listed(b));
    }
}

/// A byte string stands between square brackets, and of a function's values the
/// bytes come before the sizes.
pub proof fn law_lists(bytes: Seq<u8>, vals: ArgValsView)
    ensures
        byte_list(bytes) == seq!['['] + listed(bytes) + seq![']'],
        arg_vals(vals) == "RRFuncArgVals { bytes: "@ + (byte_list(vals.bytes) + (", sizes: "@ + (
        byte_list(vals.sizes) + " }"@))),
{
    reveal_strlit("[");
    reveal_strlit("]");
    assert("["@ =~= seq!['[']);
    assert("]"@ =~= seq![']']);
    assert(arg_vals(vals) =~= "RRFuncArgVals { bytes: "@ + (byte_list(vals.bytes) + (", sizes: "@ + (
    byte_list(vals.sizes) + " }"@))));
}

fn digit_str(d: u64) -> (text: &'static str)
    requires
        d < 10,
    ensures
        text@ == digit(d as nat),
{
    if d == 0 {
        "0"
    } else if d == 1 {
        "1"
    } else if d == 2 {
        "2"
    } else if d == 3 {
        "3"
    } else if d == 4 {
        "4"
    } else if d == 5 {
        "5"
    } else if d == 6 {
        "6"
    } else if d == 7 {
        "7"
    } else if d == 8 {
        "8"
    } else {
        "9"
    }
}

/// Appends `n` in decimal notation.
pub fn push_decimal(out: &mut String, n: u64)
    ensures
        final(out)@ == old(out)@ + decimal(n as nat),
    decreases n,
{
    if n < 10 {
        out.append(digit_str(n));
    } else {
        push_decimal(out, n / 10);
        out.append(digit_str(n % 10));
        assert(out@ =~= old(out)@ + decimal(n as nat));
    }
}

/// Appends a byte string, as a list in square brackets.
pub fn push_byte_list(out: &mut String, bytes: &[u8])
    ensures
        final(out)@ == old(out)@ + byte_list(bytes@),
{
    out.append("[");
    let ghost start = out@;
    let mut i: usize = 0;
    while i < bytes.len()
        invariant
            i <= bytes@.len(),
            out@ == start + listed(bytes@.take(i as int)),
        decreases bytes@.len() - i,
    {
        if i > 0 {
            out.append(", ");
        }
        push_decimal(out, bytes[i] as u64);
        i = i + 1;
        assert(bytes@.take(i as int).drop_last() =~= bytes@.take(i - 1));
        assert(out@ =~= start + listed(bytes@.take(i as int)));
    }
    assert(bytes@.take(i as int) =~= bytes@);
    out.append("]");
    assert(out@ =~= old(out)@ + byte_list(bytes@));
}

/// Appends the values of a function's arguments or results.
pub fn push_arg_vals(out: &mut String, vals: &RRFuncArgVals)
    ensures
        final(out)@ == old(out)@ + arg_vals(vals@),
{
    out.append("RRFuncArgVals { bytes: ");
    push_byte_list(out, vals.bytes.as_slice());
    out.append(", sizes: ");
    push_byte_list(out, vals.sizes.as_slice());
    out.append(" }");
    assert(out@ =~= old(out)@ + arg_vals(vals@));
}

} // verus!
