//! Bytes as text, in base 64.
use vstd::prelude::*;

verus! {

/// The digit of base 64 with the given value.
pub open spec fn digit_of(n: int) -> char {
    if n < 26 {
        (65 + n) as char
    } else if n < 52 {
        (97 + n - 26) as char
    } else if n < 62 {
        (48 + n - 52) as char
    } else if n == 62 {
        '+'
    } else {
        '/'
    }
}

/// The byte at `i`, and zero behind the end.
pub open spec fn byte_at(bytes: Seq<u8>, i: int) -> int {
    if i < bytes.len() {
        bytes[i] as int
    } else {
        0
    }
}

/// The number that the three bytes from `i` on make.
pub open spec fn group_at(bytes: Seq<u8>, i: int) -> int {
    65536 * byte_at(bytes, i) + 256 * byte_at(bytes, i + 1) + byte_at(bytes, i + 2)
}

/// Character `k` of `bytes` in base 64: every three bytes are four digits, and an equals sign
/// stands for each digit that no byte reaches.
pub open spec fn base64_char(bytes: Seq<u8>, k: int) -> char {
    let i = 3 * (k / 4);
    let place = k % 4;
    if place > 1 && i + place - 1 >= bytes.len() {
        '='
    } else {
        digit_of(
            if place == 0 {
                group_at(bytes, i) / 262144
            } else if place == 1 {
                group_at(bytes, i) / 4096 % 64
            } else if place == 2 {
                group_at(bytes, i) / 64 % 64
            } else {
                group_at(bytes, i) % 64
            },
        )
    }
}

pub open spec fn base64_of(bytes: Seq<u8>) -> Seq<char> {
    Seq::new((4 * ((bytes.len() + 2) / 3)) as nat, |k: int| base64_char(bytes, k))
}

fn digit(n: u32) -> (r: char)
    requires
        n < 64,
    ensures
        r == digit_of(n as int),
{
    if n < 26 {
        (65 + n as u8) as char
    } else if n < 52 {
        (97 + (n as u8 - 26)) as char
    } else if n < 62 {
        (48 + (n as u8 - 52)) as char
    } else if n == 62 {
        '+'
    } else {
        '/'
    }
}

fn byte_or_zero(bytes: &Vec<u8>, i: usize) -> (r: u32)
    ensures
        r == byte_at(bytes@, i as int),
{
    if i < bytes.len() {
        bytes[i] as u32
    } else {
        0
    }
}

/// Writes bytes in base 64.
pub fn encode(bytes: &Vec<u8>) -> (r: String)
    requires
        bytes@.len() <= usize::MAX - 3,
    ensures
        r@ == base64_of(bytes@),
{
    let mut out = String::new();
    assert(out@ =~= base64_of(bytes@).take(0));
    let mut i: usize = 0;
    let ghost mut n: int = 0;
    while i < bytes.len()
        invariant
            bytes@.len() <= usize::MAX - 3,
            i == 3 * n,
            0 <= n <= (bytes@.len() + 2) / 3,
            out@ == base64_of(bytes@).take(4 * n),
        decreases bytes@.len() + 3 - i,
    {
        let a: u32 = byte_or_zero(bytes, i);
        let b: u32 = byte_or_zero(bytes, i + 1);
        let c: u32 = byte_or_zero(bytes, i + 2);
        let group: u32 = 65536 * a + 256 * b + c;
        proof {
            lemma_places(bytes@, n);
        }
        out.push(digit(group / 262144));
        out.push(digit(group / 4096 % 64));
        out.push(
            if i + 1 < bytes.len() {
                digit(group / 64 % 64)
            } else {
                '='
            },
        );
        out.push(
            if i + 2 < bytes.len() {
                digit(group % 64)
            } else {
                '='
            },
        );
        proof {
            let all = base64_of(bytes@);
            assert(4 * n + 4 <= all.len());
            assert(all.take(4 * n + 4) =~= all.take(4 * n).push(all[4 * n]).push(
                all[4 * n + 1],
            ).push(all[4 * n + 2]).push(all[4 * n + 3]));
            n = n + 1;
        }
        i = i + 3;
    }
    assert(n == (bytes@.len() + 2) / 3);
    assert(base64_of(bytes@).take(4 * n) =~= base64_of(bytes@));
    out
}

proof fn lemma_places(bytes: Seq<u8>, n: int)
    requires
        0 <= n,
        3 * n < bytes.len(),
    ensures
        (4 * n) / 4 == n && (4 * n) % 4 == 0,
        (4 * n + 1) / 4 == n && (4 * n + 1) % 4 == 1,
        (4 * n + 2) / 4 == n && (4 * n + 2) % 4 == 2,
        (4 * n + 3) / 4 == n && (4 * n + 3) % 4 == 3,
        n < (bytes.len() + 2) / 3,
{
}

} // verus!
