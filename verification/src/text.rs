//! Small string and hashing helpers shared by the session mapper, the
//! cookie handling and the strategy tables.

use vstd::prelude::*;
use vstd::string::StringSliceAdditionalSpecFns;
use vstd::string::StringExecFns;
use vstd::string::StrSliceExecFns;

verus! {

/// Offset basis of the 64-bit FNV-1a hash.
pub const FNV_OFFSET: u64 = 0xcbf29ce484222325;

/// Prime of the 64-bit FNV-1a hash.
pub const FNV_PRIME: u64 = 0x100000001b3;

/// One FNV-1a round: fold one byte into the running hash.
pub open spec fn spec_fnv_step(h: u64, b: u8) -> u64 {
    vstd::wrapping::u64_specs::wrapping_mul(h ^ (b as u64), FNV_PRIME)
}

/// The running hash after folding `bytes[i..]` into `h`.
pub open spec fn spec_fnv64_from(h: u64, bytes: Seq<u8>, i: nat) -> u64
    decreases bytes.len() - i,
{
    if i >= bytes.len() {
        h
    } else {
        spec_fnv64_from(spec_fnv_step(h, bytes[i as int]), bytes, i + 1)
    }
}

/// The 64-bit FNV-1a hash of a byte sequence.
pub open spec fn spec_fnv64(bytes: Seq<u8>) -> u64 {
    spec_fnv64_from(FNV_OFFSET, bytes, 0)
}

/// Computes the 64-bit FNV-1a hash of `bytes`.
pub fn fnv64(bytes: &Vec<u8>) -> (r: u64)
    ensures
        r == spec_fnv64(bytes@),
{
    let mut h: u64 = FNV_OFFSET;
    let n = bytes.len();
    let mut i: usize = 0;
    while i < n
        invariant
            n == bytes@.len(),
            i <= n,
            spec_fnv64(bytes@) == spec_fnv64_from(h, bytes@, i as nat),
        decreases n - i,
    {
        h = (h ^ (bytes[i] as u64)).wrapping_mul(FNV_PRIME);
        i += 1;
    }
    h
}

/// The UTF-8 bytes of the ordered pair `(a, b)`, with a zero byte
/// between the two strings.
pub open spec fn spec_pair_bytes(a: Seq<char>, b: Seq<char>) -> Seq<u8> {
    vstd::utf8::encode_utf8(a).push(0u8) + vstd::utf8::encode_utf8(b)
}

/// Hashes the ordered pair `(a, b)` with 64-bit FNV-1a.
pub fn hash_pair(a: &str, b: &str) -> (r: u64)
    ensures
        r == spec_fnv64(spec_pair_bytes(a@, b@)),
{
    let mut v = a.as_bytes_vec();
    v.push(0u8);
    let mut w = b.as_bytes_vec();
    v.append(&mut w);
    proof {
        assert(v@ == spec_pair_bytes(a@, b@));
    }
    fnv64(&v)
}

/// The character of one decimal digit.
pub open spec fn spec_digit(d: nat) -> char {
    if d == 0 {
        '0'
    } else if d == 1 {
        '1'
    } else if d == 2 {
        '2'
    } else if d == 3 {
        '3'
    } else if d == 4 {
        '4'
    } else if d == 5 {
        '5'
    } else if d == 6 {
        '6'
    } else if d == 7 {
        '7'
    } else if d == 8 {
        '8'
    } else {
        '9'
    }
}

/// The decimal digits of `n`, most significant first, without sign or
/// padding.
pub open spec fn spec_decimal(n: nat) -> Seq<char>
    decreases n,
{
    if n < 10 {
        seq![spec_digit(n)]
    } else {
        spec_decimal(n / 10).push(spec_digit(n % 10))
    }
}

/// A decimal rendering holds digits only: in particular no `;` and no
/// `=`, so it can stand unescaped inside a cookie header.
pub proof fn lemma_decimal_plain(n: nat)
    ensures
        forall|i: int| 0 <= i < spec_decimal(n).len() ==> spec_decimal(n)[i] != ';'
            && spec_decimal(n)[i] != '=',
    decreases n,
{
    if n < 10 {
    } else {
        lemma_decimal_plain(n / 10);
        assert forall|i: int| 0 <= i < spec_decimal(n).len() implies spec_decimal(n)[i] != ';'
            && spec_decimal(n)[i] != '=' by {
            if i < spec_decimal(n / 10).len() {
                assert(spec_decimal(n)[i] == spec_decimal(n / 10)[i]);
            } else {
                assert(spec_decimal(n)[i] == spec_digit(n % 10));
            }
        }
    }
}

/// The string of one decimal digit.
fn digit_str(d: u64) -> (r: &'static str)
    requires
        d < 10,
    ensures
        r@ == seq![spec_digit(d as nat)],
{
    proof {
        reveal_strlit("0");
        reveal_strlit("1");
        reveal_strlit("2");
        reveal_strlit("3");
        reveal_strlit("4");
        reveal_strlit("5");
        reveal_strlit("6");
        reveal_strlit("7");
        reveal_strlit("8");
        reveal_strlit("9");
    }
    if d == 0 {
        "0"
    } else if d == 1 {
        "1"
    } else if d == 2 {
        "2"
    } else if d == 3 {
        "3"
    } else if d == 4 {
        "4"
    } else if d == 5 {
        "5"
    } else if d == 6 {
        "6"
    } else if d == 7 {
        "7"
    } else if d == 8 {
        "8"
    } else {
        "9"
    }
}

/// Renders `n` as its plain decimal digits, most significant first.
pub fn u64_to_decimal(n: u64) -> (r: String)
    ensures
        r@ == spec_decimal(n as nat),
    decreases n,
{
    if n < 10 {
        let r = digit_str(n).to_owned();
        proof {
            assert(r@ =~= spec_decimal(n as nat));
        }
        r
    } else {
        proof {
            assert(n / 10 < n) by (nonlinear_arith)
                requires
                    n >= 10,
            ;
        }
        let mut s = u64_to_decimal(n / 10);
        s.append(digit_str(n % 10));
        proof {
            assert(s@ =~= spec_decimal((n / 10) as nat).push(spec_digit((n % 10) as nat)));
        }
        s
    }
}

/// Compares two string slices by their characters.
pub fn str_eq(a: &str, b: &str) -> (r: bool)
    ensures
        r == (a@ == b@),
{
    let sa = a.to_owned();
    let sb = b.to_owned();
    sa == sb
}

/// Whether `s` begins with `prefix`.
pub open spec fn spec_starts_with(s: Seq<char>, prefix: Seq<char>) -> bool {
    s.len() >= prefix.len() && s.subrange(0, prefix.len() as int) == prefix
}

/// Checks whether `s` begins with `prefix`.
pub fn str_starts_with(s: &str, prefix: &str) -> (r: bool)
    ensures
        r == spec_starts_with(s@, prefix@),
{
    let n = prefix.unicode_len();
    if s.unicode_len() < n {
        return false;
    }
    let head = s.substring_char(0, n);
    str_eq(head, prefix)
}

} // verus!
