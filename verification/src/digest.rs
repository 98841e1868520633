//! Bytes as texts: the digests by which descriptors are found again, and the form in which they are
//! stored.
use vstd::arithmetic::div_mod::lemma_fundamental_div_mod_converse;
use vstd::prelude::*;

verus! {

/// The MD5 digest that `md5::compute` gives for some bytes.
pub uninterp spec fn md5_digest(bytes: Seq<u8>) -> Seq<u8>;

/// `md5::compute`. The digest depends on nothing but the bytes.
#[verifier::external_body]
fn compute_md5(bytes: &[u8]) -> (digest: [u8; 16])
    ensures
        digest@ == md5_digest(bytes@),
{
    md5::compute(bytes).0
}

/// The lower-case hexadecimal digit of a number below 16.
pub open spec fn hex_digit(n: int) -> char {
    if n < 10 {
        ('0' as int + n) as char
    } else {
        ('a' as int + n - 10) as char
    }
}

/// Bytes as hexadecimal digits, two for each byte.
pub open spec fn hex_text(bytes: Seq<u8>) -> Seq<char>
    decreases bytes.len(),
{
    if bytes.len() == 0 {
        Seq::empty()
    } else {
        hex_text(bytes.drop_last()).push(hex_digit(bytes.last() as int / 16)).push(
            hex_digit(bytes.last() as int % 16),
        )
    }
}

/// The lower-case hexadecimal digit of a number below 16.
fn digit_of(n: u8) -> (digit: &'static str)
    requires
        n < 16,
    ensures
        digit@ == seq![hex_digit(n as int)],
{
    let digits = "0123456789abcdef";
    proof {
        reveal_strlit("0123456789abcdef");
    }
    let digit = digits.substring_char(n as usize, n as usize + 1);
    assert(digit@ =~= seq![hex_digit(n as int)]);
    digit
}

/// Bytes as hexadecimal digits, two for each byte.
pub fn hex_of(bytes: &[u8]) -> (text: String)
    ensures
        text@ == hex_text(bytes@),
{
    let mut text = String::new();
    let mut i: usize = 0;
    while i < bytes.len()
        invariant
            i <= bytes@.len(),
            text@ == hex_text(bytes@.take(i as int)),
        decreases bytes.len() - i,
    {
        assert(bytes@.take(i + 1).drop_last() =~= bytes@.take(i as int));
        text.append(digit_of(bytes[i] / 16));
        text.append(digit_of(bytes[i] % 16));
        i += 1;
        assert(text@ =~= hex_text(bytes@.take(i as int)));
    }
    assert(bytes@.take(i as int) =~= bytes@);
    text
}

/// The MD5 digest of some bytes, as hexadecimal digits.
pub fn md5_text(bytes: &[u8]) -> (text: String)
    ensures
        text@ == hex_text(md5_digest(bytes@)),
{
    let digest = compute_md5(bytes);
    hex_of(digest.as_slice())
}

/// The character that stands for six bits in base 64: the letters, upper case first, the digits,
/// and two signs.
pub open spec fn base64_char(n: int) -> char {
    if n < 26 {
        ('A' as int + n) as char
    } else if n < 52 {
        ('a' as int + n - 26) as char
    } else if n < 62 {
        ('0' as int + n - 52) as char
    } else if n == 62 {
        '+'
    } else {
        '/'
    }
}

/// Bytes in base 64: four characters for three bytes, with equals signs where bytes are missing at
/// the end.
pub open spec fn base64_text(bytes: Seq<u8>) -> Seq<char>
    decreases bytes.len(),
{
    if bytes.len() == 0 {
        Seq::empty()
    } else {
        let a = bytes[0] as int;
        let b = if bytes.len() > 1 {
            bytes[1] as int
        } else {
            0
        };
        let c = if bytes.len() > 2 {
            bytes[2] as int
        } else {
            0
        };
        let third = if bytes.len() > 1 {
            base64_char(b % 16 * 4 + c / 64)
        } else {
            '='
        };
        let fourth = if bytes.len() > 2 {
            base64_char(c % 64)
        } else {
            '='
        };
        let rest = if bytes.len() > 3 {
            base64_text(bytes.skip(3))
        } else {
            Seq::empty()
        };
        seq![base64_char(a / 4), base64_char(a % 4 * 16 + b / 16), third, fourth] + rest
    }
}

/// Whether some bytes are few enough for their text in base 64 to be held in memory.
pub open spec fn fits_base64(length: int) -> bool {
    (length + 2) / 3 * 4 <= isize::MAX
}

/// `base64::encode`: the bytes in base 64, with the standard characters and padding.
#[verifier::external_body]
pub(crate) fn encode_base64(bytes: &[u8]) -> (text: String)
    requires
        fits_base64(bytes@.len() as int),
    ensures
        text@ == base64_text(bytes@),
{
    base64::encode(bytes)
}

/// Whether some bytes are few enough for their text in base 64 to be held in memory.
pub fn can_encode(bytes: &[u8]) -> (can: bool)
    ensures
        can == fits_base64(bytes@.len() as int),
{
    let groups: usize = bytes.len() / 3 + if bytes.len() % 3 == 0 {
        0
    } else {
        1
    };
    groups <= isize::MAX as usize / 4
}

/// The text in base 64 has four characters for every three bytes, and for what is left of them.
pub proof fn base64_length(bytes: Seq<u8>)
    ensures
        base64_text(bytes).len() == (bytes.len() + 2) / 3 * 4,
    decreases bytes.len(),
{
    if bytes.len() > 3 {
        base64_length(bytes.skip(3));
    }
}

/// Different characters stand for different six bits, and none of them is the equals sign.
proof fn base64_chars_differ(a: int, b: int)
    requires
        0 <= a < 64,
        0 <= b < 64,
    ensures
        base64_char(a) == base64_char(b) ==> a == b,
        base64_char(a) != '=',
{
}

/// Different bytes have different texts in base 64, so the bytes can be read back from their text.
pub proof fn base64_is_injective(first: Seq<u8>, second: Seq<u8>)
    requires
        base64_text(first) == base64_text(second),
    ensures
        first == second,
    decreases first.len(),
{
    base64_length(first);
    base64_length(second);
    if first.len() > 0 && second.len() > 0 {
        let x = base64_text(first);
        let y = base64_text(second);
        let part = |bytes: Seq<u8>, i: int|
            if i < bytes.len() {
                bytes[i] as int
            } else {
                0
            };
        let (a, b, c) = (part(first, 0), part(first, 1), part(first, 2));
        let (d, e, f) = (part(second, 0), part(second, 1), part(second, 2));
        assert(x[0] == base64_char(a / 4) && y[0] == base64_char(d / 4));
        assert(x[1] == base64_char(a % 4 * 16 + b / 16) && y[1] == base64_char(
            d % 4 * 16 + e / 16,
        ));
        base64_chars_differ(a / 4, d / 4);
        base64_chars_differ(a % 4 * 16 + b / 16, d % 4 * 16 + e / 16);
        base64_chars_differ(b % 16 * 4 + c / 64, e % 16 * 4 + f / 64);
        base64_chars_differ(e % 16 * 4 + f / 64, b % 16 * 4 + c / 64);
        base64_chars_differ(c % 64, f % 64);
        base64_chars_differ(f % 64, c % 64);
        assert(a == d);
        assert(x[2] == y[2] && x[3] == y[3]);
        assert((first.len() > 1) == (second.len() > 1));
        assert((first.len() > 2) == (second.len() > 2));
        assert(b == e);
        assert(c == f);
        assert((first.len() > 3) == (second.len() > 3));
        if first.len() > 3 {
            assert(x.skip(4) =~= base64_text(first.skip(3)));
            assert(y.skip(4) =~= base64_text(second.skip(3)));
            base64_is_injective(first.skip(3), second.skip(3));
            assert forall|i: int| 3 <= i < first.len() implies first[i] == second[i] by {
                assert(first.skip(3)[i - 3] == second.skip(3)[i - 3]);
            }
            assert(first.skip(3).len() == second.skip(3).len());
        }
    }
    assert(first =~= second);
}

/// Bytes have twice as many hexadecimal digits.
pub proof fn hex_length(bytes: Seq<u8>)
    ensures
        hex_text(bytes).len() == 2 * bytes.len(),
    decreases bytes.len(),
{
    if bytes.len() > 0 {
        hex_length(bytes.drop_last());
    }
}

/// Different bytes have different texts in hexadecimal digits.
pub proof fn hex_text_is_injective(first: Seq<u8>, second: Seq<u8>)
    requires
        hex_text(first) == hex_text(second),
    ensures
        first == second,
    decreases first.len(),
{
    hex_length(first);
    hex_length(second);
    if first.len() > 0 && second.len() > 0 {
        let x = hex_text(first);
        let y = hex_text(second);
        let a = first.last() as int;
        let b = second.last() as int;
        assert(x.last() == hex_digit(a % 16) && y.last() == hex_digit(b % 16));
        assert(x[x.len() - 2] == hex_digit(a / 16) && y[y.len() - 2] == hex_digit(b / 16));
        assert(x.take(x.len() - 2) =~= hex_text(first.drop_last()));
        assert(y.take(y.len() - 2) =~= hex_text(second.drop_last()));
        hex_text_is_injective(first.drop_last(), second.drop_last());
        assert(first =~= first.drop_last().push(first.last()));
        assert(second =~= second.drop_last().push(second.last()));
    } else {
        assert(first =~= second);
    }
}

/// Bytes can be put in base 64 exactly where their text is not longer than memory can hold.
pub proof fn texts_fit_in_memory(bytes: Seq<u8>)
    ensures
        fits_base64(bytes.len() as int) <==> base64_text(bytes).len() <= isize::MAX,
{
    base64_length(bytes);
}

/// Each byte is two hexadecimal digits at its place, the higher one first.
pub proof fn hex_digits_stand_for_bytes(bytes: Seq<u8>, i: int)
    requires
        0 <= i < bytes.len(),
    ensures
        hex_text(bytes).len() == 2 * bytes.len(),
        hex_text(bytes)[2 * i] == "0123456789abcdef"@[bytes[i] as int / 16],
        hex_text(bytes)[2 * i + 1] == "0123456789abcdef"@[bytes[i] as int % 16],
    decreases bytes.len(),
{
    reveal_strlit("0123456789abcdef");
    hex_length(bytes);
    hex_length(bytes.drop_last());
    if i < bytes.len() - 1 {
        hex_digits_stand_for_bytes(bytes.drop_last(), i);
    }
}

/// The character at `i` of the alphabet of base 64.
pub open spec fn alphabet(i: int) -> char {
    "ABCDEFGHIJKLMNOPQRSTUVWXYZabcdefghijklmnopqrstuvwxyz0123456789+/"@[i]
}

proof fn base64_chars_are_of_the_alphabet(i: int)
    requires
        0 <= i < 64,
    ensures
        base64_char(i) == alphabet(i),
{
    reveal_strlit("ABCDEFGHIJKLMNOPQRSTUVWXYZabcdefghijklmnopqrstuvwxyz0123456789+/");
}

/// The byte at `i`, or zero where there is none.
pub open spec fn byte_at(bytes: Seq<u8>, i: int) -> int {
    if 0 <= i < bytes.len() {
        bytes[i] as int
    } else {
        0
    }
}

proof fn bits_in_sixes(a: int, b: int, c: int)
    requires
        0 <= a < 256,
        0 <= b < 256,
        0 <= c < 256,
    ensures
        ({
            let bits = a * 65536 + b * 256 + c;
            &&& bits / 262144 == a / 4
            &&& bits / 4096 % 64 == a % 4 * 16 + b / 16
            &&& bits / 64 % 64 == b % 16 * 4 + c / 64
            &&& bits % 64 == c % 64
        }),
{
    let bits = a * 65536 + b * 256 + c;
    let first = a / 4;
    let second = a % 4 * 16 + b / 16;
    let third = b % 16 * 4 + c / 64;
    let fourth = c % 64;
    assert(bits == 262144 * first + 4096 * second + 64 * third + fourth);
    assert(0 <= second < 64 && 0 <= third < 64 && 0 <= fourth < 64);
    lemma_fundamental_div_mod_converse(
        bits,
        262144,
        first,
        4096 * second + 64 * third + fourth,
    );
    lemma_fundamental_div_mod_converse(
        bits,
        4096,
        64 * first + second,
        64 * third + fourth,
    );
    lemma_fundamental_div_mod_converse(64 * first + second, 64, first, second);
    lemma_fundamental_div_mod_converse(
        bits,
        64,
        4096 * first + 64 * second + third,
        fourth,
    );
    lemma_fundamental_div_mod_converse(
        4096 * first + 64 * second + third,
        64,
        64 * first + second,
        third,
    );
}

/// In base 64 each group of three bytes is four characters of the alphabet, six bits each, the
/// highest first. Where bytes are missing at the end, so are the characters that would hold nothing
/// else.
pub proof fn base64_groups_stand_for_bytes(bytes: Seq<u8>, group: int)
    requires
        0 <= 3 * group < bytes.len(),
    ensures
        ({
            let text = base64_text(bytes);
            let a = byte_at(bytes, 3 * group);
            let b = byte_at(bytes, 3 * group + 1);
            let c = byte_at(bytes, 3 * group + 2);
            let bits = a * 65536 + b * 256 + c;
            &&& text.len() == (bytes.len() + 2) / 3 * 4
            &&& text[4 * group] == alphabet(bits / 262144)
            &&& text[4 * group + 1] == alphabet(bits / 4096 % 64)
            &&& text[4 * group + 2] == (if 3 * group + 1 < bytes.len() {
                alphabet(bits / 64 % 64)
            } else {
                '='
            })
            &&& text[4 * group + 3] == (if 3 * group + 2 < bytes.len() {
                alphabet(bits % 64)
            } else {
                '='
            })
        }),
    decreases bytes.len(),
{
    base64_length(bytes);
    let a = byte_at(bytes, 3 * group);
    let b = byte_at(bytes, 3 * group + 1);
    let c = byte_at(bytes, 3 * group + 2);
    let text = base64_text(bytes);
    if group == 0 {
        bits_in_sixes(a, b, c);
        base64_chars_are_of_the_alphabet(a / 4);
        base64_chars_are_of_the_alphabet(a % 4 * 16 + b / 16);
        base64_chars_are_of_the_alphabet(b % 16 * 4 + c / 64);
        base64_chars_are_of_the_alphabet(c % 64);
        assert(text[0] == base64_char(a / 4));
        assert(text[1] == base64_char(a % 4 * 16 + b / 16));
    } else {
        let rest = bytes.skip(3);
        base64_groups_stand_for_bytes(rest, group - 1);
        assert(byte_at(rest, 3 * (group - 1)) == a);
        assert(byte_at(rest, 3 * (group - 1) + 1) == b);
        assert(byte_at(rest, 3 * (group - 1) + 2) == c);
        base64_length(rest);
        let tail = base64_text(rest);
        assert(text.skip(4) =~= tail);
        let at = 4 * (group - 1);
        assert(tail[at] == text[at + 4]);
        assert(tail[at + 1] == text[at + 5]);
        assert(tail[at + 2] == text[at + 6]);
        assert(tail[at + 3] == text[at + 7]);
    }
}

} // verus!
