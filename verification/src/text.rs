//! Text as sequences of characters: conversions between `str`, `String` and
//! `Vec<char>`, decimal numerals, and the few string operations the rest of
//! the crate is stated over.

use vstd::prelude::*;

verus! {

/// `String::push` appends the one character to the end of the string.
pub assume_specification[ std::string::String::push ](s: &mut std::string::String, c: char)
    ensures
        final(s)@ == old(s)@.push(c),
;

/// The characters of `s`, in order.
pub fn chars_of(s: &str) -> (chars: Vec<char>)
    ensures
        chars@ == s@,
{
    let mut chars: Vec<char> = Vec::new();
    for c in it: s.chars()
        invariant
            chars@ == it.seq().take(it.index() as int),
            it.seq() == s@,
    {
        chars.push(c);
    }
    chars
}

/// The character of a decimal digit.
pub open spec fn digit_char(d: nat) -> char {
    (0x30 + d) as char
}

/// The decimal numeral of `n`, without leading zeros.
pub open spec fn nat_text(n: nat) -> Seq<char>
    decreases n,
{
    if n < 10 {
        seq![digit_char(n)]
    } else {
        nat_text(n / 10).push(digit_char(n % 10))
    }
}

/// The decimal numeral of `i`, with a leading minus sign when it is negative.
pub open spec fn int_text(i: int) -> Seq<char> {
    if i < 0 {
        seq!['-'] + nat_text((-i) as nat)
    } else {
        nat_text(i as nat)
    }
}

/// Appends the decimal numeral of `n` to `out`.
pub fn push_nat(out: &mut String, n: u64)
    ensures
        final(out)@ == old(out)@ + nat_text(n as nat),
    decreases n,
{
    if n >= 10 {
        push_nat(out, n / 10);
    }
    let digit: u8 = (n % 10) as u8;
    out.push((0x30u8 + digit) as char);
    proof {
        let before = old(out)@;
        if n >= 10 {
            assert(before + nat_text(n as nat / 10).push(digit_char(n as nat % 10)) =~= (before
                + nat_text(n as nat / 10)).push(digit_char(n as nat % 10)));
        } else {
            assert(before.push(digit_char(n as nat)) =~= before + seq![digit_char(n as nat)]);
        }
    }
}

/// Appends the decimal numeral of `i` to `out`.
pub fn push_int(out: &mut String, i: i64)
    ensures
        final(out)@ == old(out)@ + int_text(i as int),
{
    if i < 0 {
        out.push('-');
        let magnitude: u64 = if i == i64::MIN {
            0x8000_0000_0000_0000u64
        } else {
            (-i) as u64
        };
        push_nat(out, magnitude);
        assert(old(out)@.push('-') + nat_text(magnitude as nat) =~= old(out)@ + (seq!['-']
            + nat_text(magnitude as nat)));
    } else {
        push_nat(out, i as u64);
    }
}

/// The set of the texts that a list of names holds.
pub open spec fn names_of(names: Seq<String>) -> Set<Seq<char>> {
    Set::new(|name: Seq<char>| exists|i: int| 0 <= i < names.len() && #[trigger] names[i]@ == name)
}

/// One more name adds its text to the set.
pub proof fn lemma_names_push(names: Seq<String>, added: String)
    ensures
        names_of(names.push(added)) == names_of(names).insert(added@),
{
    let grown = names.push(added);
    assert forall|name: Seq<char>| names_of(grown).contains(name) implies names_of(names).insert(
        added@,
    ).contains(name) by {
        let i = choose|i: int| 0 <= i < grown.len() && #[trigger] grown[i]@ == name;
        if i < names.len() {
            assert(names[i]@ == name);
        }
    }
    assert forall|name: Seq<char>|
        names_of(names).insert(added@).contains(name) implies names_of(grown).contains(name) by {
        if name == added@ {
            assert(grown[names.len() as int]@ == name);
        } else {
            let i = choose|i: int| 0 <= i < names.len() && #[trigger] names[i]@ == name;
            assert(grown[i]@ == name);
        }
    }
    assert(names_of(grown) =~= names_of(names).insert(added@));
}

} // verus!
