//! Base64 texts.

use vstd::prelude::*;

verus! {

/// The digit that stands for a number of six bits.
pub open spec fn base64_digit(n: int) -> char {
    if n < 26 {
        (65 + n) as char
    } else if n < 52 {
        (97 + (n - 26)) as char
    } else if n < 62 {
        (48 + (n - 52)) as char
    } else if n == 62 {
        '+'
    } else {
        '/'
    }
}

/// The base64 text of some bytes, padded: four digits for every three bytes.
pub open spec fn base64(bytes: Seq<u8>) -> Seq<char>
    decreases bytes.len(),
{
    if bytes.len() == 0 {
        seq![]
    } else if bytes.len() == 1 {
        let a = bytes[0] as int;
        seq![base64_digit(a / 4), base64_digit(a % 4 * 16), '=', '=']
    } else if bytes.len() == 2 {
        let a = bytes[0] as int;
        let b = bytes[1] as int;
        seq![
            base64_digit(a / 4),
            base64_digit(a % 4 * 16 + b / 16),
            base64_digit(b % 16 * 4),
            '=',
        ]
    } else {
        let a = bytes[0] as int;
        let b = bytes[1] as int;
        let c = bytes[2] as int;
        seq![
            base64_digit(a / 4),
            base64_digit(a % 4 * 16 + b / 16),
            base64_digit(b % 16 * 4 + c / 64),
            base64_digit(c % 64),
        ] + base64(bytes.skip(3))
    }
}

/// Whether a text holds graphic ASCII characters only.
pub open spec fn is_graphic(text: Seq<char>) -> bool {
    forall|i: int| 0 <= i < text.len() ==> '!' <= #[trigger] text[i] <= '~'
}

/// A base64 text has four characters for every three bytes, and no character in
/// it is a space, a control character or outside ASCII.
pub proof fn base64_is_graphic(bytes: Seq<u8>)
    ensures
        base64(bytes).len() == (bytes.len() + 2) / 3 * 4,
        is_graphic(base64(bytes)),
    decreases bytes.len(),
{
    if bytes.len() > 2 {
        base64_is_graphic(bytes.skip(3));
    }
}

/// Different bytes have different base64 texts.
pub proof fn base64_is_injective(a: Seq<u8>, b: Seq<u8>)
    requires
        base64(a) == base64(b),
    ensures
        a == b,
    decreases a.len(),
{
    base64_is_graphic(a);
    base64_is_graphic(b);
    if a.len() > 0 {
        let s = base64(a);
        let t = base64(b);
        assert(s[0] == t[0] && s[1] == t[1] && s[2] == t[2] && s[3] == t[3]);
        if a.len() > 2 && b.len() > 2 {
            assert(s.skip(4) == base64(a.skip(3)));
            assert(t.skip(4) == base64(b.skip(3)));
            base64_is_injective(a.skip(3), b.skip(3));
            assert(a == a.take(3) + a.skip(3));
            assert(b == b.take(3) + b.skip(3));
            assert(a.take(3) == b.take(3));
        }
        assert(a.len() == b.len());
    }
}

/// `openssl::base64::encode_block`: the base64 text of `bytes`, padded. The
/// function panics on lengths near the range of a C integer.
#[verifier::external_body]
pub(crate) fn encode_base64(bytes: &[u8]) -> (text: String)
    requires
        bytes@.len() <= 1_000_000_000,
    ensures
        text@ == base64(bytes@),
{
    openssl::base64::encode_block(bytes)
}

/// The digits are those of the usual alphabet.
pub proof fn base64_digits_are_the_usual(n: int)
    requires
        0 <= n < 64,
    ensures
        base64_digit(n)
            == "ABCDEFGHIJKLMNOPQRSTUVWXYZabcdefghijklmnopqrstuvwxyz0123456789+/"@[n],
{
    reveal_strlit("ABCDEFGHIJKLMNOPQRSTUVWXYZabcdefghijklmnopqrstuvwxyz0123456789+/");
}

/// Groups of three bytes are written one after the other, each by itself.
pub proof fn base64_goes_by_threes(groups: Seq<u8>, rest: Seq<u8>)
    requires
        groups.len() % 3 == 0,
    ensures
        base64(groups + rest) == base64(groups) + base64(rest),
    decreases groups.len(),
{
    if groups.len() == 0 {
        assert(groups + rest == rest);
    } else {
        base64_goes_by_threes(groups.skip(3), rest);
        assert((groups + rest).skip(3) == groups.skip(3) + rest);
        assert(base64(groups + rest) == base64(groups) + base64(rest));
    }
}

proof fn bits_in_sixes(x: int, y: int, z: int)
    requires
        0 <= x < 256,
        0 <= y < 256,
        0 <= z < 256,
    ensures
        ({
            let all = x * 65536 + y * 256 + z;
            &&& all / 262144 == x / 4
            &&& all / 4096 % 64 == x % 4 * 16 + y / 16
            &&& all / 64 % 64 == y % 16 * 4 + z / 64
            &&& all % 64 == z % 64
        }),
        0 <= x / 4 < 64,
        0 <= x % 4 * 16 + y / 16 < 64,
        0 <= y % 16 * 4 + z / 64 < 64,
        0 <= z % 64 < 64,
{
    let all = x * 65536 + y * 256 + z;
    let first = x / 4;
    let second = x % 4 * 16 + y / 16;
    let third = y % 16 * 4 + z / 64;
    let fourth = z % 64;
    assert(all == first * 262144 + second * 4096 + third * 64 + fourth);
    digits_of_sixty_four(first, second, third, fourth);
}

proof fn digits_of_sixty_four(first: int, second: int, third: int, fourth: int)
    requires
        0 <= first < 64,
        0 <= second < 64,
        0 <= third < 64,
        0 <= fourth < 64,
    ensures
        ({
            let all = first * 262144 + second * 4096 + third * 64 + fourth;
            &&& all / 262144 == first
            &&& all / 4096 % 64 == second
            &&& all / 64 % 64 == third
            &&& all % 64 == fourth
        }),
{
    let all = first * 262144 + second * 4096 + third * 64 + fourth;
    assert(all / 262144 == first);
    assert(all / 4096 == first * 64 + second);
    assert(all / 64 == first * 4096 + second * 64 + third);
}

/// The digits of a group are its bits, six at a time from the first; where a group lacks
/// a byte there is an equals sign for it, and the bits that are missing count as zeros.
pub proof fn base64_groups_are_six_bits_each(a: u8, b: u8, c: u8)
    ensures
        ({
            let alphabet = "ABCDEFGHIJKLMNOPQRSTUVWXYZabcdefghijklmnopqrstuvwxyz0123456789+/"@;
            let three = a * 65536 + b * 256 + c;
            let two = a * 65536 + b * 256;
            let one = a * 65536;
            &&& base64(seq![a, b, c]) == seq![
                alphabet[three / 262144],
                alphabet[three / 4096 % 64],
                alphabet[three / 64 % 64],
                alphabet[three % 64],
            ]
            &&& base64(seq![a, b]) == seq![
                alphabet[two / 262144],
                alphabet[two / 4096 % 64],
                alphabet[two / 64 % 64],
                '=',
            ]
            &&& base64(seq![a]) == seq![
                alphabet[one / 262144],
                alphabet[one / 4096 % 64],
                '=',
                '=',
            ]
            &&& base64(Seq::<u8>::empty()) == Seq::<char>::empty()
        }),
{
    let x = a as int;
    let y = b as int;
    let z = c as int;
    bits_in_sixes(x, y, z);
    bits_in_sixes(x, y, 0);
    bits_in_sixes(x, 0, 0);
    base64_digits_are_the_usual(x / 4);
    base64_digits_are_the_usual(x % 4 * 16 + y / 16);
    base64_digits_are_the_usual(y % 16 * 4 + z / 64);
    base64_digits_are_the_usual(z % 64);
    base64_digits_are_the_usual(y % 16 * 4);
    base64_digits_are_the_usual(x % 4 * 16);
    let none = Seq::<u8>::empty();
    assert(base64(none) == Seq::<char>::empty());
    assert(seq![a, b, c].skip(3) == none);
    assert(base64(seq![a, b, c]) == seq![
        base64_digit(x / 4),
        base64_digit(x % 4 * 16 + y / 16),
        base64_digit(y % 16 * 4 + z / 64),
        base64_digit(z % 64),
    ] + base64(none));
}

} // verus!
