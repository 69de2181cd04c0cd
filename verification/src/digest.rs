//! Digests, and bytes in writing.

use vstd::prelude::*;
use vstd::string::*;
use vstd::utf8::encode_utf8;
use crate::text::chars_of;

verus! {

/// The SHA-256 digest of bytes.
pub uninterp spec fn sha256_digest(bytes: Seq<u8>) -> Seq<u8>;

/// Hashes bytes with `sha2::Sha256::digest`. A digest has 32 bytes.
#[verifier::external_body]
pub(crate) fn sha256(bytes: &[u8]) -> (r: Vec<u8>)
    ensures
        r@ == sha256_digest(bytes@),
        r@.len() == 32,
{
    <sha2::Sha256 as sha2::Digest>::digest(bytes).to_vec()
}

/// The digit of a number below sixteen, in lower case.
pub open spec fn hex_digit(n: int) -> char {
    if n == 0 {
        '0'
    } else if n == 1 {
        '1'
    } else if n == 2 {
        '2'
    } else if n == 3 {
        '3'
    } else if n == 4 {
        '4'
    } else if n == 5 {
        '5'
    } else if n == 6 {
        '6'
    } else if n == 7 {
        '7'
    } else if n == 8 {
        '8'
    } else if n == 9 {
        '9'
    } else if n == 10 {
        'a'
    } else if n == 11 {
        'b'
    } else if n == 12 {
        'c'
    } else if n == 13 {
        'd'
    } else if n == 14 {
        'e'
    } else {
        'f'
    }
}

fn digit_text(n: u8) -> (r: &'static str)
    requires
        n < 16,
    ensures
        r@ == seq![hex_digit(n as int)],
{
    proof {
        reveal_strlit("0");
        reveal_strlit("1");
        reveal_strlit("2");
        reveal_strlit("3");
        reveal_strlit("4");
        reveal_strlit("5");
        reveal_strlit("6");
        reveal_strlit("7");
        reveal_strlit("8");
        reveal_strlit("9");
        reveal_strlit("a");
        reveal_strlit("b");
        reveal_strlit("c");
        reveal_strlit("d");
        reveal_strlit("e");
        reveal_strlit("f");
    }
    let r = if n == 0 {
        "0"
    } else if n == 1 {
        "1"
    } else if n == 2 {
        "2"
    } else if n == 3 {
        "3"
    } else if n == 4 {
        "4"
    } else if n == 5 {
        "5"
    } else if n == 6 {
        "6"
    } else if n == 7 {
        "7"
    } else if n == 8 {
        "8"
    } else if n == 9 {
        "9"
    } else if n == 10 {
        "a"
    } else if n == 11 {
        "b"
    } else if n == 12 {
        "c"
    } else if n == 13 {
        "d"
    } else if n == 14 {
        "e"
    } else {
        "f"
    };
    assert(r@ =~= seq![hex_digit(n as int)]);
    r
}

/// Bytes in hexadecimal, in lower case.
pub open spec fn hex_text(bytes: Seq<u8>) -> Seq<char> {
    Seq::new(
        2 * bytes.len(),
        |i: int|
            if i % 2 == 0 {
                hex_digit(bytes[i / 2] as int / 16)
            } else {
                hex_digit(bytes[i / 2] as int % 16)
            },
    )
}

/// Bytes in hexadecimal, in lower case.
pub fn to_hex(bytes: &Vec<u8>) -> (r: String)
    ensures
        r@ == hex_text(bytes@),
{
    let mut r = "".to_string();
    proof {
        reveal_strlit("");
    }
    let mut i: usize = 0;
    assert(r@ =~= hex_text(bytes@.subrange(0, 0)));
    while i < bytes.len()
        invariant
            i <= bytes.len(),
            r@ == hex_text(bytes@.subrange(0, i as int)),
        decreases bytes@.len() - i,
    {
        let b: u8 = bytes[i];
        let ghost before = r@;
        r.append(digit_text(b / 16));
        r.append(digit_text(b % 16));
        i = i + 1;
        proof {
            let s = bytes@.subrange(0, i as int);
            let t = bytes@.subrange(0, i as int - 1);
            assert(r@.len() == 2 * i);
            assert forall|j: int| 0 <= j < 2 * i implies r@[j] == #[trigger] hex_text(s)[j] by {
                if j < 2 * (i - 1) {
                    assert(before[j] == hex_text(t)[j]);
                    assert(t[j / 2] == s[j / 2]);
                }
            }
            assert(r@ =~= hex_text(s));
        }
    }
    assert(bytes@.subrange(0, bytes@.len() as int) =~= bytes@);
    r
}

/// The number below sixteen that a digit stands for.
fn hex_value(c: char) -> (r: Option<u8>)
    ensures
        (match r {
            Some(n) => n < 16 && hex_digit(n as int) == c,
            None => forall|n: int| 0 <= n < 16 ==> #[trigger] hex_digit(n) != c,
        }),
{
    if c == '0' {
        Some(0)
    } else if c == '1' {
        Some(1)
    } else if c == '2' {
        Some(2)
    } else if c == '3' {
        Some(3)
    } else if c == '4' {
        Some(4)
    } else if c == '5' {
        Some(5)
    } else if c == '6' {
        Some(6)
    } else if c == '7' {
        Some(7)
    } else if c == '8' {
        Some(8)
    } else if c == '9' {
        Some(9)
    } else if c == 'a' {
        Some(10)
    } else if c == 'b' {
        Some(11)
    } else if c == 'c' {
        Some(12)
    } else if c == 'd' {
        Some(13)
    } else if c == 'e' {
        Some(14)
    } else if c == 'f' {
        Some(15)
    } else {
        None
    }
}

/// The bytes that a text gives in hexadecimal, in lower case.
pub fn from_hex(s: &str) -> (r: Option<Vec<u8>>)
    ensures
        (match r {
            Some(bytes) => hex_text(bytes@) == s@,
            None => forall|bytes: Seq<u8>| #[trigger] hex_text(bytes) != s@,
        }),
{
    let v = chars_of(s);
    if v.len() % 2 != 0 {
        return None;
    }
    let n = v.len() / 2;
    let mut r: Vec<u8> = Vec::new();
    let mut i: usize = 0;
    assert(hex_text(r@) =~= v@.subrange(0, 0));
    while i < n
        invariant
            v@ == s@,
            v@.len() == 2 * n,
            2 * n <= usize::MAX,
            i <= n,
            r@.len() == i,
            hex_text(r@) == v@.subrange(0, 2 * i),
        decreases n - i,
    {
        match (hex_value(v[2 * i]), hex_value(v[2 * i + 1])) {
            (Some(high), Some(low)) => {
                let ghost before = r@;
                r.push(high * 16 + low);
                i = i + 1;
                proof {
                    let b = r@[i as int - 1] as int;
                    assert(b / 16 == high && b % 16 == low);
                    assert forall|j: int| 0 <= j < 2 * i implies #[trigger] hex_text(r@)[j]
                        == v@[j] by {
                        if j < 2 * (i - 1) {
                            assert(hex_text(before)[j] == v@.subrange(0, 2 * (i - 1))[j]);
                            assert(before[j / 2] == r@[j / 2]);
                        }
                    }
                    assert(hex_text(r@) =~= v@.subrange(0, 2 * i as int));
                }
            },
            _ => {
                proof {
                    assert forall|bytes: Seq<u8>| #[trigger] hex_text(bytes) != s@ by {
                        if hex_text(bytes) == s@ {
                            let b = bytes[i as int] as int;
                            assert(hex_text(bytes)[2 * i as int] == hex_digit(b / 16));
                            assert(hex_text(bytes)[2 * i + 1] == hex_digit(b % 16));
                        }
                    }
                }
                return None;
            },
        }
    }
    assert(v@.subrange(0, 2 * n as int) =~= v@);
    Some(r)
}

/// Different bytes are written differently in hexadecimal.
pub proof fn law_hex_is_injective(a: Seq<u8>, b: Seq<u8>)
    requires
        hex_text(a) == hex_text(b),
    ensures
        a == b,
{
    assert(2 * a.len() == hex_text(a).len());
    assert(2 * b.len() == hex_text(b).len());
    assert forall|i: int| 0 <= i < a.len() implies a[i] == b[i] by {
        assert(2 * i / 2 == i && (2 * i + 1) / 2 == i && 2 * i % 2 == 0 && (2 * i + 1) % 2 == 1);
        assert(hex_text(a)[2 * i] == hex_digit(a[i] as int / 16));
        assert(hex_text(b)[2 * i] == hex_digit(b[i] as int / 16));
        assert(hex_text(a)[2 * i + 1] == hex_digit(a[i] as int % 16));
        assert(hex_text(b)[2 * i + 1] == hex_digit(b[i] as int % 16));
    }
    assert(a =~= b);
}

/// The SHA-256 digest of a text in UTF-8, in hexadecimal.
pub open spec fn text_digest(s: Seq<char>) -> Seq<char> {
    hex_text(sha256_digest(encode_utf8(s)))
}

/// The SHA-256 digest of a text in UTF-8, in hexadecimal: 64 digits.
pub fn hash_text(s: &str) -> (r: String)
    ensures
        r@ == text_digest(s@),
        r@.len() == 64,
{
    let digest = sha256(s.as_bytes());
    to_hex(&digest)
}

/// The digits are those of hexadecimal numbers, in order; a byte is written as
/// its upper and its lower digit.
pub proof fn law_bytes_are_written_in_hex(bytes: Seq<u8>, i: int, n: int)
    requires
        0 <= n < 16,
    ensures
        hex_digit(n) == "0123456789abcdef"@[n],
        hex_text(bytes).len() == 2 * bytes.len(),
        0 <= i < bytes.len() ==> hex_text(bytes)[2 * i] == hex_digit(bytes[i] as int / 16),
        0 <= i < bytes.len() ==> hex_text(bytes)[2 * i + 1] == hex_digit(bytes[i] as int % 16),
{
    reveal_strlit("0123456789abcdef");
}

} // verus!
