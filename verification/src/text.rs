//! Text of numbers and lists, as the report prints them.

use vstd::prelude::*;
use vstd::string::*;

verus! {

/// The character of one decimal digit.
pub open spec fn digit_char(digit: int) -> char {
    if digit == 0 {
        '0'
    } else if digit == 1 {
        '1'
    } else if digit == 2 {
        '2'
    } else if digit == 3 {
        '3'
    } else if digit == 4 {
        '4'
    } else if digit == 5 {
        '5'
    } else if digit == 6 {
        '6'
    } else if digit == 7 {
        '7'
    } else if digit == 8 {
        '8'
    } else {
        '9'
    }
}

/// A number in decimal, without sign or leading zeros.
pub open spec fn decimal_digits(n: nat) -> Seq<char>
    decreases n,
{
    if n < 10 {
        seq![digit_char(n as int)]
    } else {
        decimal_digits(n / 10).push(digit_char((n % 10) as int))
    }
}

/// The parts in order, with the separator between each two neighbours.
pub open spec fn joined(parts: Seq<Seq<char>>, separator: Seq<char>) -> Seq<char>
    decreases parts.len(),
{
    if parts.len() == 0 {
        Seq::empty()
    } else if parts.len() == 1 {
        parts[0]
    } else {
        joined(parts.drop_last(), separator) + separator + parts.last()
    }
}

/// The separator between the entries of a list: a comma and a space.
pub open spec fn list_separator() -> Seq<char> {
    seq![',', ' ']
}

/// The text of each string of a list.
pub open spec fn texts(strings: Seq<String>) -> Seq<Seq<char>> {
    strings.map_values(|s: String| s@)
}

/// Each byte of a list in decimal.
pub open spec fn byte_texts(bytes: Seq<u8>) -> Seq<Seq<char>> {
    bytes.map_values(|b: u8| decimal_digits(b as nat))
}

/// A byte list in brackets, the bytes in decimal and separated by a comma
/// and a space: `[31, 32, 3, 213]`.
pub open spec fn byte_list_text(bytes: Seq<u8>) -> Seq<char> {
    seq!['['] + joined(byte_texts(bytes), list_separator()) + seq![']']
}

/// Joining one part more appends the separator and the part, except after
/// nothing.
pub proof fn lemma_joined_push(parts: Seq<Seq<char>>, separator: Seq<char>, part: Seq<char>)
    ensures
        joined(parts.push(part), separator) == if parts.len() == 0 {
            part
        } else {
            joined(parts, separator) + separator + part
        },
{
    let longer = parts.push(part);
    assert(longer.drop_last() =~= parts);
    assert(longer.last() == part);
}

fn digit_text(digit: u64) -> (text: &'static str)
    requires
        digit < 10,
    ensures
        text@ == seq![digit_char(digit as int)],
{
    proof {
        reveal_strlit("0");
        reveal_strlit("1");
        reveal_strlit("2");
        reveal_strlit("3");
        reveal_strlit("4");
        reveal_strlit("5");
        reveal_strlit("6");
        reveal_strlit("7");
        reveal_strlit("8");
        reveal_strlit("9");
    }
    let text = if digit == 0 {
        "0"
    } else if digit == 1 {
        "1"
    } else if digit == 2 {
        "2"
    } else if digit == 3 {
        "3"
    } else if digit == 4 {
        "4"
    } else if digit == 5 {
        "5"
    } else if digit == 6 {
        "6"
    } else if digit == 7 {
        "7"
    } else if digit == 8 {
        "8"
    } else {
        "9"
    };
    assert(text@ =~= seq![digit_char(digit as int)]);
    text
}

/// Writes a number in decimal.
pub fn decimal(n: u64) -> (text: String)
    ensures
        text@ == decimal_digits(n as nat),
    decreases n,
{
    if n < 10 {
        let mut text = String::new();
        text.append(digit_text(n));
        assert(text@ =~= decimal_digits(n as nat));
        text
    } else {
        let mut text = decimal(n / 10);
        text.append(digit_text(n % 10));
        assert(text@ =~= decimal_digits(n as nat));
        text
    }
}

/// Joins the strings with a comma and a space between each two neighbours.
pub fn join_names(names: &Vec<String>) -> (text: String)
    ensures
        text@ == joined(texts(names@), list_separator()),
{
    let mut text = String::new();
    let mut i: usize = 0;
    while i < names.len()
        invariant
            i <= names.len(),
            text@ == joined(texts(names@).take(i as int), list_separator()),
        decreases names.len() - i,
    {
        proof {
            reveal_strlit(", ");
            assert(", "@ =~= list_separator());
            let done = texts(names@).take(i as int);
            lemma_joined_push(done, list_separator(), names@[i as int]@);
            assert(texts(names@).take(i + 1) =~= done.push(names@[i as int]@));
        }
        if i > 0 {
            text.append(", ");
        }
        text.append(names[i].as_str());
        i += 1;
    }
    assert(texts(names@).take(names.len() as int) =~= texts(names@));
    text
}

/// Writes a byte list as `[31, 32, 3, 213]`.
pub fn byte_list(bytes: &[u8]) -> (text: String)
    ensures
        text@ == byte_list_text(bytes@),
{
    let mut text = String::new();
    proof {
        reveal_strlit("[");
        reveal_strlit("]");
        reveal_strlit(", ");
        assert(", "@ =~= list_separator());
    }
    text.append("[");
    let mut i: usize = 0;
    while i < bytes.len()
        invariant
            i <= bytes.len(),
            ", "@ == list_separator(),
            text@ == seq!['['] + joined(byte_texts(bytes@).take(i as int), list_separator()),
        decreases bytes.len() - i,
    {
        proof {
            let done = byte_texts(bytes@).take(i as int);
            let next = decimal_digits(bytes@[i as int] as nat);
            lemma_joined_push(done, list_separator(), next);
            assert(byte_texts(bytes@).take(i + 1) =~= done.push(next));
        }
        if i > 0 {
            text.append(", ");
        }
        let number = decimal(bytes[i] as u64);
        text.append(number.as_str());
        i += 1;
    }
    assert(byte_texts(bytes@).take(bytes.len() as int) =~= byte_texts(bytes@));
    text.append("]");
    text
}

} // verus!
