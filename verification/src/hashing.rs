//! Content addressing for blocks.
//!
//! A block's content string is the unambiguous, order-preserving
//! concatenation of its fields: the fixed-width hexadecimal rendering of the
//! numeric fields and, for each variable-length field but the last, a
//! fixed-width length prefix. Two distinct field tuples therefore never
//! serialize to the same content string. The content string is digested with
//! blake3 and rendered as 64 lowercase hexadecimal characters.

use vstd::prelude::*;
use vstd::string::StrSliceExecFns;
use vstd::string::StringExecFns;

verus! {

/// The hexadecimal character for one digit value below 16.
pub open spec fn hex_digit_char(d: nat) -> char {
    if d == 0 {
        '0'
    } else if d == 1 {
        '1'
    } else if d == 2 {
        '2'
    } else if d == 3 {
        '3'
    } else if d == 4 {
        '4'
    } else if d == 5 {
        '5'
    } else if d == 6 {
        '6'
    } else if d == 7 {
        '7'
    } else if d == 8 {
        '8'
    } else if d == 9 {
        '9'
    } else if d == 10 {
        'a'
    } else if d == 11 {
        'b'
    } else if d == 12 {
        'c'
    } else if d == 13 {
        'd'
    } else if d == 14 {
        'e'
    } else {
        'f'
    }
}

pub open spec fn pow16(k: nat) -> nat
    decreases k,
{
    if k == 0 {
        1
    } else {
        16 * pow16((k - 1) as nat)
    }
}

proof fn lemma_pow16_pos(k: nat)
    ensures
        pow16(k) >= 1,
    decreases k,
{
    if k > 0 {
        lemma_pow16_pos((k - 1) as nat);
    }
}

/// The fixed-width, 16-character hexadecimal rendering of a 64-bit value,
/// most significant digit first.
pub open spec fn hex_u64(n: u64) -> Seq<char> {
    Seq::new(16, |i: int| hex_digit_char(((n as nat) / pow16((15 - i) as nat)) % 16))
}

fn hex_digit_str(d: u64) -> (r: &'static str)
    requires
        d < 16,
    ensures
        r@ =~= seq![hex_digit_char(d as nat)],
{
    proof {
        reveal_strlit("0");
        reveal_strlit("1");
        reveal_strlit("2");
        reveal_strlit("3");
        reveal_strlit("4");
        reveal_strlit("5");
        reveal_strlit("6");
        reveal_strlit("7");
        reveal_strlit("8");
        reveal_strlit("9");
        reveal_strlit("a");
        reveal_strlit("b");
        reveal_strlit("c");
        reveal_strlit("d");
        reveal_strlit("e");
        reveal_strlit("f");
    }
    if d == 0 {
        "0"
    } else if d == 1 {
        "1"
    } else if d == 2 {
        "2"
    } else if d == 3 {
        "3"
    } else if d == 4 {
        "4"
    } else if d == 5 {
        "5"
    } else if d == 6 {
        "6"
    } else if d == 7 {
        "7"
    } else if d == 8 {
        "8"
    } else if d == 9 {
        "9"
    } else if d == 10 {
        "a"
    } else if d == 11 {
        "b"
    } else if d == 12 {
        "c"
    } else if d == 13 {
        "d"
    } else if d == 14 {
        "e"
    } else {
        "f"
    }
}

/// Appends the fixed-width hexadecimal rendering of `n` to `out`.
pub fn push_hex_u64(out: &mut String, n: u64)
    ensures
        final(out)@ == old(out)@ + hex_u64(n),
{
    proof {
        reveal_with_fuel(pow16, 17);
    }
    let mut i: usize = 0;
    let mut pow: u64 = 0x1000_0000_0000_0000;
    assert(pow as nat == pow16(15));
    while i < 16
        invariant
            i <= 16,
            i < 16 ==> pow as nat == pow16((15 - i) as nat),
            out@ == old(out)@ + hex_u64(n).take(i as int),
        decreases 16 - i,
    {
        proof {
            lemma_pow16_pos((15 - i) as nat);
        }
        let d: u64 = (n / pow) % 16;
        let ghost prev = out@;
        out.append(hex_digit_str(d));
        proof {
            assert(d as nat == ((n as nat) / pow16((15 - i) as nat)) % 16);
            assert(hex_u64(n)[i as int] == hex_digit_char(d as nat));
            assert(out@ =~= old(out)@ + hex_u64(n).take(i as int + 1));
            if i < 15 {
                let x = pow16((14 - i) as nat);
                assert(pow16((15 - i) as nat) == 16 * x);
                assert((16 * x) / 16 == x) by (nonlinear_arith);
            }
        }
        pow = pow / 16;
        i = i + 1;
    }
    proof {
        assert(hex_u64(n).take(16) =~= hex_u64(n));
    }
}

/// The content string over which a block's hash is computed: fixed-width
/// numeric fields, then each variable-length field preceded by its
/// fixed-width length, the final field end-delimited.
pub open spec fn content_of(
    index: u64,
    timestamp: Seq<char>,
    nonce: u64,
    previous_hash: Seq<char>,
    payload: Seq<char>,
) -> Seq<char> {
    hex_u64(index) + hex_u64(nonce) + hex_u64(timestamp.len() as u64) + timestamp + hex_u64(
        previous_hash.len() as u64,
    ) + previous_hash + payload
}

/// The hexadecimal rendering of the blake3 digest of a content string's
/// bytes. The digest is a pure function of the content alone.
pub uninterp spec fn blake3_hex(content: Seq<char>) -> Seq<char>;

/// The content hash of a block's field tuple.
pub open spec fn hash_of(
    index: u64,
    timestamp: Seq<char>,
    nonce: u64,
    previous_hash: Seq<char>,
    payload: Seq<char>,
) -> Seq<char> {
    blake3_hex(content_of(index, timestamp, nonce, previous_hash, payload))
}

/// Relies on `blake3::hash`: the 32-byte digest is a deterministic function
/// of the input bytes alone, and `blake3::Hash::to_hex` renders it as exactly
/// 64 lowercase hexadecimal characters.
#[verifier::external_body]
pub(crate) fn blake3_hex_exec(content: &str) -> (r: String)
    ensures
        r@ == blake3_hex(content@),
        r@.len() == 64,
{
    blake3::hash(content.as_bytes()).to_hex().as_str().to_string()
}

/// A digest has at least `d` leading `'0'` characters.
pub open spec fn starts_with_zeros(h: Seq<char>, d: nat) -> bool {
    &&& d <= h.len()
    &&& forall|i: int| 0 <= i < d ==> h[i] == '0'
}

/// Checks the difficulty predicate: `h` begins with at least `difficulty`
/// `'0'` characters.
pub fn has_leading_zeros(h: &str, difficulty: u64) -> (r: bool)
    ensures
        r == starts_with_zeros(h@, difficulty as nat),
{
    let len = h.unicode_len();
    if difficulty > len as u64 {
        return false;
    }
    let d = difficulty as usize;
    let mut i: usize = 0;
    while i < d
        invariant
            i <= d,
            d == difficulty,
            d <= h@.len(),
            forall|j: int| 0 <= j < i ==> h@[j] == '0',
        decreases d - i,
    {
        if h.get_char(i) != '0' {
            return false;
        }
        i = i + 1;
    }
    true
}

} // verus!
