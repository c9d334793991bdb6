//! Text for logs: decimal numbers and escaped bytes.

use vstd::prelude::*;
use vstd::string::*;

verus! {

/// `String::push` appends one character.
pub assume_specification[ String::push ](text: &mut String, c: char)
    ensures
        final(text)@ == old(text)@.push(c),
;

/// The decimal digit `d`.
pub open spec fn digit(d: int) -> char {
    (48 + d) as u8 as char
}

/// `n` in decimal, without leading zeros.
pub open spec fn decimal(n: nat) -> Seq<char>
    decreases n,
{
    if n < 10 {
        seq![digit(n as int)]
    } else {
        decimal(n / 10).push(digit((n % 10) as int))
    }
}

/// Appends `n` in decimal.
pub fn push_decimal(text: &mut String, n: u64)
    ensures
        final(text)@ == old(text)@ + decimal(n as nat),
    decreases n,
{
    if n >= 10 {
        push_decimal(text, n / 10);
    }
    let low: u8 = (n % 10) as u8;
    text.push((48 + low) as char);
    assert(text@ =~= old(text)@ + decimal(n as nat));
}

/// A byte as it is shown: printable ASCII as it is but for the quote and the backslash, line
/// breaks and tabs by name, any other byte by its three octal digits.
pub open spec fn escape_byte(b: u8) -> Seq<char> {
    if b == 10 {
        seq!['\\', 'n']
    } else if b == 13 {
        seq!['\\', 'r']
    } else if b == 9 {
        seq!['\\', 't']
    } else if b == 34 {
        seq!['\\', '"']
    } else if b == 92 {
        seq!['\\', '\\']
    } else if 32 <= b < 127 {
        seq![b as char]
    } else {
        seq!['\\', digit(b as int / 64), digit(b as int / 8 % 8), digit(b as int % 8)]
    }
}

/// Bytes as they are shown, one after the other.
pub open spec fn escape(bytes: Seq<u8>) -> Seq<char>
    decreases bytes.len(),
{
    if bytes.len() == 0 {
        Seq::empty()
    } else {
        escape(bytes.drop_last()) + escape_byte(bytes.last())
    }
}

/// Appends bytes as they are shown.
pub fn push_escaped(text: &mut String, bytes: &[u8])
    ensures
        final(text)@ == old(text)@ + escape(bytes@),
{
    let mut i: usize = 0;
    assert(bytes@.take(0) =~= Seq::<u8>::empty());
    while i < bytes.len()
        invariant
            i <= bytes@.len(),
            text@ == old(text)@ + escape(bytes@.take(i as int)),
        decreases bytes@.len() - i,
    {
        let b: u8 = bytes[i];
        let ghost before = text@;
        if b == 10 {
            text.push('\\');
            text.push('n');
        } else if b == 13 {
            text.push('\\');
            text.push('r');
        } else if b == 9 {
            text.push('\\');
            text.push('t');
        } else if b == 34 {
            text.push('\\');
            text.push('"');
        } else if b == 92 {
            text.push('\\');
            text.push('\\');
        } else if 32 <= b && b < 127 {
            text.push(b as char);
        } else {
            text.push('\\');
            text.push((48 + b / 64) as char);
            text.push((48 + b / 8 % 8) as char);
            text.push((48 + b % 8) as char);
        }
        i += 1;
        proof {
            assert(text@ =~= before + escape_byte(b));
            assert(bytes@.take(i as int).drop_last() =~= bytes@.take(i - 1));
            assert(text@ =~= old(text)@ + escape(bytes@.take(i as int)));
        }
    }
    assert(bytes@.take(i as int) =~= bytes@);
}

/// The numbers of a byte string, separated by commas.
pub open spec fn byte_list(bytes: Seq<u8>) -> Seq<char>
    decreases bytes.len(),
{
    if bytes.len() == 0 {
        Seq::empty()
    } else if bytes.len() == 1 {
        decimal(bytes[0] as nat)
    } else {
        byte_list(bytes.drop_last()) + ", "@ + decimal(bytes.last() as nat)
    }
}

/// Appends the numbers of a byte string, separated by commas.
pub fn push_byte_list(text: &mut String, bytes: &[u8])
    ensures
        final(text)@ == old(text)@ + byte_list(bytes@),
{
    let mut i: usize = 0;
    assert(bytes@.take(0) =~= Seq::<u8>::empty());
    while i < bytes.len()
        invariant
            i <= bytes@.len(),
            text@ == old(text)@ + byte_list(bytes@.take(i as int)),
        decreases bytes@.len() - i,
    {
        if i > 0 {
            text.append(", ");
        }
        push_decimal(text, bytes[i] as u64);
        i += 1;
        proof {
            assert(bytes@.take(i as int).drop_last() =~= bytes@.take(i - 1));
            assert(text@ =~= old(text)@ + byte_list(bytes@.take(i as int)));
        }
    }
    assert(bytes@.take(i as int) =~= bytes@);
}

} // verus!
