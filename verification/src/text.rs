//! Text encodings used when hashing and checking blocks: decimal numerals,
//! lower-case hexadecimal, and the bit-by-bit expansion of a hexadecimal string.

use vstd::prelude::*;

verus! {

/// The character that writes the decimal digit `d`.
pub open spec fn digit_char(d: nat) -> char
    recommends
        d < 10,
{
    if d == 0 {
        '0'
    } else if d == 1 {
        '1'
    } else if d == 2 {
        '2'
    } else if d == 3 {
        '3'
    } else if d == 4 {
        '4'
    } else if d == 5 {
        '5'
    } else if d == 6 {
        '6'
    } else if d == 7 {
        '7'
    } else if d == 8 {
        '8'
    } else {
        '9'
    }
}

/// The decimal numeral of `n`: most significant digit first, no sign, no
/// leading zeros, and `"0"` for zero.
pub open spec fn decimal_digits(n: nat) -> Seq<char>
    decreases n,
{
    if n < 10 {
        seq![digit_char(n)]
    } else {
        decimal_digits(n / 10).push(digit_char(n % 10))
    }
}

/// The one-character string of a decimal digit.
fn digit_str(d: u8) -> (s: &'static str)
    requires
        d < 10,
    ensures
        s@ == seq![digit_char(d as nat)],
{
    proof {
        reveal_strlit("0");
        reveal_strlit("1");
        reveal_strlit("2");
        reveal_strlit("3");
        reveal_strlit("4");
        reveal_strlit("5");
        reveal_strlit("6");
        reveal_strlit("7");
        reveal_strlit("8");
        reveal_strlit("9");
    }
    let s: &'static str = match d {
        0 => "0",
        1 => "1",
        2 => "2",
        3 => "3",
        4 => "4",
        5 => "5",
        6 => "6",
        7 => "7",
        8 => "8",
        _ => "9",
    };
    assert(s@ =~= seq![digit_char(d as nat)]);
    s
}

/// Writes `n` as a decimal numeral.
pub fn decimal_string(n: u128) -> (s: String)
    ensures
        s@ == decimal_digits(n as nat),
    decreases n,
{
    if n < 10 {
        digit_str(n as u8).to_owned()
    } else {
        let mut s = decimal_string(n / 10);
        s.append(digit_str((n % 10) as u8));
        assert(s@ =~= decimal_digits(n as nat));
        s
    }
}

/// The character that writes the hexadecimal digit `v` in lower case.
pub open spec fn hex_char(v: nat) -> char
    recommends
        v < 16,
{
    if v == 0 {
        '0'
    } else if v == 1 {
        '1'
    } else if v == 2 {
        '2'
    } else if v == 3 {
        '3'
    } else if v == 4 {
        '4'
    } else if v == 5 {
        '5'
    } else if v == 6 {
        '6'
    } else if v == 7 {
        '7'
    } else if v == 8 {
        '8'
    } else if v == 9 {
        '9'
    } else if v == 10 {
        'a'
    } else if v == 11 {
        'b'
    } else if v == 12 {
        'c'
    } else if v == 13 {
        'd'
    } else if v == 14 {
        'e'
    } else {
        'f'
    }
}

/// Lower-case hexadecimal text of a byte string: two digits for each byte, the
/// high half first.
pub open spec fn hex_string(bytes: Seq<u8>) -> Seq<char> {
    Seq::new(
        2 * bytes.len(),
        |i: int|
            if i % 2 == 0 {
                hex_char((bytes[i / 2] / 16) as nat)
            } else {
                hex_char((bytes[i / 2] % 16) as nat)
            },
    )
}

/// Whether `c` is one of the sixteen digits `0`-`9`, `a`-`f`.
pub open spec fn is_hex_char(c: char) -> bool {
    c == '0'
    || c == '1'
    || c == '2'
    || c == '3'
    || c == '4'
    || c == '5'
    || c == '6'
    || c == '7'
    || c == '8'
    || c == '9'
    || c == 'a'
    || c == 'b'
    || c == 'c'
    || c == 'd'
    || c == 'e'
    || c == 'f'
}

/// Whether every character of `s` is a lower-case hexadecimal digit.
pub open spec fn is_lower_hex(s: Seq<char>) -> bool {
    forall|i: int| 0 <= i < s.len() ==> is_hex_char(#[trigger] s[i])
}

/// The four binary digits of one hexadecimal digit, leading zeros kept;
/// nothing for any other character.
pub open spec fn nibble_bits(c: char) -> Seq<char> {
    if c == '0' {
        "0000"@
    } else if c == '1' {
        "0001"@
    } else if c == '2' {
        "0010"@
    } else if c == '3' {
        "0011"@
    } else if c == '4' {
        "0100"@
    } else if c == '5' {
        "0101"@
    } else if c == '6' {
        "0110"@
    } else if c == '7' {
        "0111"@
    } else if c == '8' {
        "1000"@
    } else if c == '9' {
        "1001"@
    } else if c == 'a' {
        "1010"@
    } else if c == 'b' {
        "1011"@
    } else if c == 'c' {
        "1100"@
    } else if c == 'd' {
        "1101"@
    } else if c == 'e' {
        "1110"@
    } else if c == 'f' {
        "1111"@
    } else {
        Seq::empty()
    }
}

/// The binary expansion of hexadecimal text: the four bits of each digit, in
/// the order of the digits.
pub open spec fn binary_expansion(hex: Seq<char>) -> Seq<char>
    decreases hex.len(),
{
    if hex.len() == 0 {
        Seq::empty()
    } else {
        binary_expansion(hex.drop_last()) + nibble_bits(hex.last())
    }
}

/// The one-character string of a hexadecimal digit.
fn hex_digit_str(v: u8) -> (s: &'static str)
    requires
        v < 16,
    ensures
        s@ == seq![hex_char(v as nat)],
{
    proof {
        reveal_strlit("0");
        reveal_strlit("1");
        reveal_strlit("2");
        reveal_strlit("3");
        reveal_strlit("4");
        reveal_strlit("5");
        reveal_strlit("6");
        reveal_strlit("7");
        reveal_strlit("8");
        reveal_strlit("9");
        reveal_strlit("a");
        reveal_strlit("b");
        reveal_strlit("c");
        reveal_strlit("d");
        reveal_strlit("e");
        reveal_strlit("f");
    }
    let s: &'static str = match v {
        0 => "0",
        1 => "1",
        2 => "2",
        3 => "3",
        4 => "4",
        5 => "5",
        6 => "6",
        7 => "7",
        8 => "8",
        9 => "9",
        10 => "a",
        11 => "b",
        12 => "c",
        13 => "d",
        14 => "e",
        _ => "f",
    };
    assert(s@ =~= seq![hex_char(v as nat)]);
    s
}

/// Writes `bytes` as lower-case hexadecimal text.
pub fn hex_encode(bytes: &[u8]) -> (s: String)
    ensures
        s@ == hex_string(bytes@),
{
    let mut s = String::new();
    let mut i: usize = 0;
    while i < bytes.len()
        invariant
            i <= bytes.len(),
            s@ == hex_string(bytes@.take(i as int)),
        decreases bytes.len() - i,
    {
        let b: u8 = bytes[i];
        s.append(hex_digit_str(b / 16));
        s.append(hex_digit_str(b % 16));
        i += 1;
        assert(s@ =~= hex_string(bytes@.take(i as int)));
    }
    assert(bytes@.take(i as int) =~= bytes@);
    s
}

/// The four-character bit string of a hexadecimal digit, or `None` for any
/// other character.
pub fn nibble_str(c: char) -> (bits: Option<&'static str>)
    ensures
        bits is Some <==> is_hex_char(c),
        bits matches Some(b) ==> b@ == nibble_bits(c),
{
    match c {
        '0' => Some("0000"),
        '1' => Some("0001"),
        '2' => Some("0010"),
        '3' => Some("0011"),
        '4' => Some("0100"),
        '5' => Some("0101"),
        '6' => Some("0110"),
        '7' => Some("0111"),
        '8' => Some("1000"),
        '9' => Some("1001"),
        'a' => Some("1010"),
        'b' => Some("1011"),
        'c' => Some("1100"),
        'd' => Some("1101"),
        'e' => Some("1110"),
        'f' => Some("1111"),
        _ => None,
    }
}

/// Every hexadecimal digit expands to exactly four characters.
pub proof fn lemma_nibble_bits_len(c: char)
    requires
        is_hex_char(c),
    ensures
        nibble_bits(c).len() == 4,
{
    reveal_strlit("0000");
    reveal_strlit("0001");
    reveal_strlit("0010");
    reveal_strlit("0011");
    reveal_strlit("0100");
    reveal_strlit("0101");
    reveal_strlit("0110");
    reveal_strlit("0111");
    reveal_strlit("1000");
    reveal_strlit("1001");
    reveal_strlit("1010");
    reveal_strlit("1011");
    reveal_strlit("1100");
    reveal_strlit("1101");
    reveal_strlit("1110");
    reveal_strlit("1111");
}

/// The expansion of hexadecimal text is four times as long as the text.
pub proof fn lemma_binary_expansion_len(hex: Seq<char>)
    requires
        is_lower_hex(hex),
    ensures
        binary_expansion(hex).len() == 4 * hex.len(),
    decreases hex.len(),
{
    if hex.len() > 0 {
        lemma_binary_expansion_len(hex.drop_last());
        lemma_nibble_bits_len(hex.last());
    }
}

/// Expands lower-case hexadecimal text into its binary digits, four for each
/// hexadecimal digit.
pub fn hex_to_binary(hex: &String) -> (binary: String)
    requires
        is_lower_hex(hex@),
    ensures
        binary@ == binary_expansion(hex@),
{
    let mut binary_string = String::new();
    for c in it: hex.as_str().chars()
        invariant
            it.seq() == hex@,
            is_lower_hex(hex@),
            binary_string@ == binary_expansion(hex@.take(it.index())),
    {
        proof {
            assert(hex@.take(it.index() + 1).drop_last() =~= hex@.take(it.index()));
        }
        if let Some(bits) = nibble_str(c) {
            binary_string.append(bits);
        }
    }
    proof {
        assert(hex@.take(hex@.len() as int) =~= hex@);
    }
    binary_string
}

/// Hexadecimal text has two characters for each byte, all of them lower-case
/// hexadecimal digits.
pub proof fn lemma_hex_string_shape(bytes: Seq<u8>)
    ensures
        hex_string(bytes).len() == 2 * bytes.len(),
        is_lower_hex(hex_string(bytes)),
{
}

/// Whether every character of `text` is a lower-case hexadecimal digit.
pub fn is_lower_hex_text(text: &str) -> (yes: bool)
    ensures
        yes == is_lower_hex(text@),
{
    for c in it: text.chars()
        invariant
            it.seq() == text@,
            forall|i: int| 0 <= i < it.index() ==> is_hex_char(#[trigger] text@[i]),
    {
        if nibble_str(c).is_none() {
            return false;
        }
    }
    true
}

/// Whether `bits` begins with `count` characters `0`: it has at least that many
/// characters, and each of the first `count` is `0`.
pub open spec fn leading_zeros(bits: Seq<char>, count: nat) -> bool {
    &&& count <= bits.len()
    &&& forall|i: int| 0 <= i < count ==> bits[i] == '0'
}

/// Whether `bits` begins with `count` characters `0`.
pub fn starts_with_zeros(bits: &str, count: u32) -> (yes: bool)
    ensures
        yes == leading_zeros(bits@, count as nat),
{
    let mut seen: u32 = 0;
    for c in it: bits.chars()
        invariant
            it.seq() == bits@,
            seen == it.index(),
            seen <= count,
            forall|i: int| 0 <= i < seen ==> bits@[i] == '0',
    {
        if seen == count {
            return true;
        }
        if c != '0' {
            return false;
        }
        seen += 1;
    }
    seen == count
}

} // verus!
