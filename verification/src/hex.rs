use vstd::prelude::*;
use vstd::string::*;

verus! {

/// The ASCII code of the lowercase hexadecimal digit for `nibble`, which lies in `0..16`.
pub open spec fn hex_digit(nibble: int) -> u8 {
    if nibble < 10 {
        (0x30 + nibble) as u8
    } else {
        (0x57 + nibble) as u8
    }
}

/// The lowercase hexadecimal digits of `bytes` as ASCII codes: two for each byte, the
/// high nibble first.
pub open spec fn hex_digits(bytes: Seq<u8>) -> Seq<u8> {
    Seq::new(
        2 * bytes.len(),
        |i: int|
            if i % 2 == 0 {
                hex_digit(bytes[i / 2] as int / 16)
            } else {
                hex_digit(bytes[i / 2] as int % 16)
            },
    )
}

/// The text whose characters have the ASCII codes `codes`.
pub open spec fn ascii_text(codes: Seq<u8>) -> Seq<char> {
    Seq::new(codes.len(), |i: int| codes[i] as char)
}

/// The eight bytes of `word`, the most significant first.
pub open spec fn big_endian(word: u64) -> Seq<u8> {
    seq![
        (word / 0x100_0000_0000_0000) as u8,
        (word / 0x1_0000_0000_0000 % 0x100) as u8,
        (word / 0x100_0000_0000 % 0x100) as u8,
        (word / 0x1_0000_0000 % 0x100) as u8,
        (word / 0x100_0000 % 0x100) as u8,
        (word / 0x1_0000 % 0x100) as u8,
        (word / 0x100 % 0x100) as u8,
        (word % 0x100) as u8,
    ]
}

/// Whether `c` is a lowercase hexadecimal digit.
pub open spec fn is_hex_char(c: char) -> bool {
    (0x30 <= c as u32 <= 0x39) || (0x61 <= c as u32 <= 0x66)
}

/// Whether `text` holds lowercase hexadecimal digits and nothing else.
pub open spec fn is_hex_text(text: Seq<char>) -> bool {
    forall|i: int| 0 <= i < text.len() ==> is_hex_char(#[trigger] text[i])
}

/// The encoding of any bytes is a text of hexadecimal digits, two for each byte.
pub proof fn lemma_hex_text(bytes: Seq<u8>)
    ensures
        ascii_text(hex_digits(bytes)).len() == 2 * bytes.len(),
        is_hex_text(ascii_text(hex_digits(bytes))),
{
    let text = ascii_text(hex_digits(bytes));
    assert forall|i: int| 0 <= i < text.len() implies is_hex_char(#[trigger] text[i]) by {
        let byte = bytes[i / 2];
        let nibble = if i % 2 == 0 {
            byte as int / 16
        } else {
            byte as int % 16
        };
        assert(0 <= nibble < 16);
        assert(hex_digits(bytes)[i] == hex_digit(nibble));
        assert(text[i] == hex_digit(nibble) as char);
    }
}

/// Doubling the input is the whole effect of hexadecimal encoding on the length.
pub proof fn lemma_hex_digits_len(bytes: Seq<u8>)
    ensures
        hex_digits(bytes).len() == 2 * bytes.len(),
{
}

/// Encoding a concatenation gives the concatenation of the encodings.
pub proof fn lemma_hex_digits_concat(a: Seq<u8>, b: Seq<u8>)
    ensures
        hex_digits(a + b) =~= hex_digits(a) + hex_digits(b),
{
    let left = hex_digits(a + b);
    let right = hex_digits(a) + hex_digits(b);
    assert(left.len() == right.len());
    assert forall|i: int| 0 <= i < left.len() implies left[i] == right[i] by {
        if i < 2 * a.len() {
            assert((a + b)[i / 2] == a[i / 2]);
        } else {
            let j = i - 2 * a.len();
            assert(j / 2 == i / 2 - a.len());
            assert(j % 2 == i % 2);
            assert((a + b)[i / 2] == b[j / 2]);
        }
    }
}

/// The ASCII code of the hexadecimal digit for a value below 16.
pub fn hex_digit_of(nibble: u8) -> (code: u8)
    requires
        nibble < 16,
    ensures
        code == hex_digit(nibble as int),
{
    if nibble < 10 {
        0x30 + nibble
    } else {
        0x57 + nibble
    }
}

/// The one-character text of the hexadecimal digit for a value below 16.
fn hex_digit_text(nibble: u8) -> (text: &'static str)
    requires
        nibble < 16,
    ensures
        text@ == seq![hex_digit(nibble as int) as char],
{
    proof {
        reveal_strlit("0");
        reveal_strlit("1");
        reveal_strlit("2");
        reveal_strlit("3");
        reveal_strlit("4");
        reveal_strlit("5");
        reveal_strlit("6");
        reveal_strlit("7");
        reveal_strlit("8");
        reveal_strlit("9");
        reveal_strlit("a");
        reveal_strlit("b");
        reveal_strlit("c");
        reveal_strlit("d");
        reveal_strlit("e");
        reveal_strlit("f");
    }
    let text = match nibble {
        0 => "0",
        1 => "1",
        2 => "2",
        3 => "3",
        4 => "4",
        5 => "5",
        6 => "6",
        7 => "7",
        8 => "8",
        9 => "9",
        10 => "a",
        11 => "b",
        12 => "c",
        13 => "d",
        14 => "e",
        _ => "f",
    };
    assert(text@ =~= seq![hex_digit(nibble as int) as char]);
    text
}

/// Encodes `bytes` as lowercase hexadecimal digits, in ASCII.
pub fn hex_encode(bytes: &[u8]) -> (digits: Vec<u8>)
    ensures
        digits@ == hex_digits(bytes@),
{
    let mut digits: Vec<u8> = Vec::new();
    let mut i: usize = 0;
    while i < bytes.len()
        invariant
            i <= bytes@.len(),
            digits@ =~= hex_digits(bytes@.subrange(0, i as int)),
        decreases bytes@.len() - i,
    {
        let byte = bytes[i];
        digits.push(hex_digit_of(byte / 16));
        digits.push(hex_digit_of(byte % 16));
        proof {
            let before = bytes@.subrange(0, i as int);
            let after = bytes@.subrange(0, i + 1);
            assert(after =~= before + seq![byte]);
            lemma_hex_digits_concat(before, seq![byte]);
            assert(hex_digits(seq![byte]) =~= seq![
                hex_digit(byte as int / 16),
                hex_digit(byte as int % 16),
            ]);
        }
        i += 1;
    }
    assert(bytes@.subrange(0, i as int) =~= bytes@);
    digits
}

/// Encodes `bytes` as a text of lowercase hexadecimal digits.
pub fn hex_string(bytes: &[u8]) -> (text: String)
    ensures
        text@ == ascii_text(hex_digits(bytes@)),
{
    let mut text = String::new();
    let mut i: usize = 0;
    while i < bytes.len()
        invariant
            i <= bytes@.len(),
            text@ =~= ascii_text(hex_digits(bytes@.subrange(0, i as int))),
        decreases bytes@.len() - i,
    {
        let byte = bytes[i];
        text.append(hex_digit_text(byte / 16));
        text.append(hex_digit_text(byte % 16));
        proof {
            let before = bytes@.subrange(0, i as int);
            let after = bytes@.subrange(0, i + 1);
            assert(after =~= before + seq![byte]);
            lemma_hex_digits_concat(before, seq![byte]);
            assert(hex_digits(seq![byte]) =~= seq![
                hex_digit(byte as int / 16),
                hex_digit(byte as int % 16),
            ]);
        }
        i += 1;
    }
    assert(bytes@.subrange(0, i as int) =~= bytes@);
    text
}

/// The eight bytes of `word`, the most significant first.
pub fn big_endian_bytes(word: u64) -> (bytes: Vec<u8>)
    ensures
        bytes@ == big_endian(word),
{
    let mut bytes: Vec<u8> = Vec::new();
    bytes.push((word / 0x100_0000_0000_0000) as u8);
    bytes.push((word / 0x1_0000_0000_0000 % 0x100) as u8);
    bytes.push((word / 0x100_0000_0000 % 0x100) as u8);
    bytes.push((word / 0x1_0000_0000 % 0x100) as u8);
    bytes.push((word / 0x100_0000 % 0x100) as u8);
    bytes.push((word / 0x1_0000 % 0x100) as u8);
    bytes.push((word / 0x100 % 0x100) as u8);
    bytes.push((word % 0x100) as u8);
    assert(bytes@ =~= big_endian(word));
    bytes
}

} // verus!
