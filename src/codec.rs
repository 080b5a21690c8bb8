use vstd::prelude::*;

verus! {

broadcast use vstd::string::is_ascii_spec_bytes, vstd::utf8::is_ascii_chars_nat_bound;

/// Whether `c` is one of `0-9`, `a-f`, `A-F`.
pub open spec fn is_hex_digit(c: char) -> bool {
    ('0' <= c && c <= '9') || ('a' <= c && c <= 'f') || ('A' <= c && c <= 'F')
}

/// The value (0 to 15) of a hex digit, in either case.
pub open spec fn digit_value(c: char) -> int {
    if '0' <= c && c <= '9' {
        c as int - '0' as int
    } else if 'a' <= c && c <= 'f' {
        c as int - 'a' as int + 10
    } else {
        c as int - 'A' as int + 10
    }
}

/// Whether `s` is hex text that decodes into a buffer of `capacity` bytes:
/// an even number of hex digits, at most two per byte of the buffer.
pub open spec fn is_valid_hex(s: Seq<char>, capacity: nat) -> bool {
    &&& s.len() % 2 == 0
    &&& s.len() <= 2 * capacity
    &&& forall|i: int| 0 <= i < s.len() ==> is_hex_digit(#[trigger] s[i])
}

/// The byte that the `k`-th pair of digits of `s` stands for, high nibble first.
pub open spec fn decoded_byte(s: Seq<char>, k: int) -> u8 {
    (16 * digit_value(s[2 * k]) + digit_value(s[2 * k + 1])) as u8
}

/// The bytes that the digit pairs of `s` stand for, in order.
pub open spec fn hex_decode(s: Seq<char>) -> Seq<u8> {
    Seq::new(s.len() / 2, |k: int| decoded_byte(s, k))
}

/// What decoding `s` into a buffer that held `t` leaves there: the decoded
/// bytes, then the rest of `t` as it was.
pub open spec fn decode_into(s: Seq<char>, t: Seq<u8>) -> Seq<u8> {
    hex_decode(s) + t.subrange((s.len() / 2) as int, t.len() as int)
}

/// Whether `a` and `b` are the same character up to the case of an ASCII letter.
pub open spec fn same_up_to_case(a: char, b: char) -> bool {
    ||| a == b
    ||| 'a' <= a && a <= 'z' && b as int == a as int - 32
    ||| 'A' <= a && a <= 'Z' && b as int == a as int + 32
}

const ASCII_ZERO: u8 = 0x30;

const ASCII_NINE: u8 = 0x39;

const ASCII_LOWER_A: u8 = 0x61;

const ASCII_LOWER_F: u8 = 0x66;

const ASCII_UPPER_A: u8 = 0x41;

const ASCII_UPPER_F: u8 = 0x46;

/// The value of the hex digit `c`, or `None` if it is not one.
fn nibble(c: u8) -> (r: Option<u8>)
    ensures
        r.is_some() == is_hex_digit(c as char),
        r.is_some() ==> r.unwrap() as int == digit_value(c as char) && r.unwrap() < 16,
{
    if ASCII_ZERO <= c && c <= ASCII_NINE {
        Some(c - ASCII_ZERO)
    } else if ASCII_LOWER_A <= c && c <= ASCII_LOWER_F {
        Some(c - ASCII_LOWER_A + 10)
    } else if ASCII_UPPER_A <= c && c <= ASCII_UPPER_F {
        Some(c - ASCII_UPPER_A + 10)
    } else {
        None
    }
}

/// An ASCII character survives the round trip through a byte.
proof fn lemma_ascii_byte(c: char)
    requires
        (c as nat) < 128,
    ensures
        (c as u8) as char == c,
{
    assert((c as u8) as u32 == c as u32);
}

/// Parses hex text into the front of `target` and returns the number of bytes
/// written. Fails, leaving `target` as it was, when the text has an odd length,
/// needs more bytes than `target` holds, or has a character that is no hex digit.
/// Bytes of `target` past the decoded ones are left as they were.
pub fn from_hex(hex: &str, target: &mut [u8]) -> (r: Result<usize, ()>)
    ensures
        r.is_ok() == is_valid_hex(hex@, old(target)@.len()),
        r.is_ok() ==> r.unwrap() == hex@.len() / 2 && final(target)@ == decode_into(
            hex@,
            old(target)@,
        ),
        r.is_err() ==> final(target)@ == old(target)@,
{
    if !hex.is_ascii() {
        assert(!is_valid_hex(hex@, target@.len())) by {
            if is_valid_hex(hex@, target@.len()) {
                assert forall|i: int| 0 <= i < hex@.len() implies '\0' <= #[trigger] hex@[i]
                    <= '\u{7f}' by {
                    assert(is_hex_digit(hex@[i]));
                }
            }
        }
        return Err(());
    }
    let bytes = hex.as_bytes();
    let len = bytes.len();
    assert(bytes@.len() == hex@.len());
    if len % 2 == 1 || len / 2 > target.len() {
        return Err(());
    }
    let mut i: usize = 0;
    while i < len
        invariant
            len == bytes@.len() == hex@.len(),
            i <= len,
            forall|j: int| 0 <= j < hex@.len() ==> bytes@[j] == hex@[j] as u8,
            forall|j: int| 0 <= j < hex@.len() ==> (hex@[j] as nat) < 128,
            forall|j: int| 0 <= j < i ==> is_hex_digit(#[trigger] hex@[j]),
        decreases len - i,
    {
        if nibble(bytes[i]).is_none() {
            proof {
                lemma_ascii_byte(hex@[i as int]);
            }
            return Err(());
        }
        proof {
            lemma_ascii_byte(hex@[i as int]);
        }
        i = i + 1;
    }
    let n = len / 2;
    let mut k: usize = 0;
    while k < n
        invariant
            len == bytes@.len() == hex@.len(),
            n == len / 2,
            len % 2 == 0,
            n <= target@.len(),
            target@.len() == old(target)@.len(),
            k <= n,
            forall|j: int| 0 <= j < hex@.len() ==> bytes@[j] == hex@[j] as u8,
            forall|j: int| 0 <= j < hex@.len() ==> (hex@[j] as nat) < 128,
            forall|j: int| 0 <= j < hex@.len() ==> is_hex_digit(#[trigger] hex@[j]),
            forall|j: int| 0 <= j < k ==> target@[j] == decoded_byte(hex@, j),
            forall|j: int| k <= j < target@.len() ==> target@[j] == old(target)@[j],
        decreases n - k,
    {
        proof {
            lemma_ascii_byte(hex@[2 * k as int]);
            lemma_ascii_byte(hex@[2 * k as int + 1]);
        }
        let hi = nibble(bytes[2 * k]).unwrap();
        let lo = nibble(bytes[2 * k + 1]).unwrap();
        target[k] = hi * 16 + lo;
        k = k + 1;
    }
    assert(target@ =~= hex_decode(hex@) + old(target)@.subrange(n as int, old(target)@.len() as int));
    Ok(n)
}

/// Decoding ignores the case of the letters: two texts that differ only in
/// the case of their letters are valid for the same buffers and decode to the
/// same bytes.
pub proof fn lemma_decode_case_insensitive(s: Seq<char>, t: Seq<char>, capacity: nat)
    requires
        s.len() == t.len(),
        forall|i: int| 0 <= i < s.len() ==> same_up_to_case(#[trigger] s[i], t[i]),
    ensures
        is_valid_hex(s, capacity) == is_valid_hex(t, capacity),
        hex_decode(s) == hex_decode(t) || !is_valid_hex(s, capacity),
{
    assert forall|i: int| 0 <= i < s.len() implies is_hex_digit(#[trigger] s[i]) == is_hex_digit(
        t[i],
    ) && (is_hex_digit(s[i]) ==> digit_value(s[i]) == digit_value(t[i])) by {
        assert(same_up_to_case(s[i], t[i]));
    }
    if is_valid_hex(s, capacity) {
        assert forall|i: int| 0 <= i < t.len() implies is_hex_digit(#[trigger] t[i]) by {
            assert(is_hex_digit(s[i]));
        }
        assert forall|k: int| 0 <= k < s.len() / 2 implies decoded_byte(s, k) == decoded_byte(
            t,
            k,
        ) by {
            assert(is_hex_digit(s[2 * k]));
            assert(is_hex_digit(s[2 * k + 1]));
        }
        assert(hex_decode(s) =~= hex_decode(t));
    } else {
        if is_valid_hex(t, capacity) {
            assert forall|i: int| 0 <= i < s.len() implies is_hex_digit(#[trigger] s[i]) by {
                assert(is_hex_digit(t[i]));
            }
        }
    }
}

/// Decoding the same text into two buffers of the same length succeeds for
/// both or for neither, and where it succeeds both start with the same
/// decoded bytes; buffers that held the same bytes end up equal.
pub proof fn lemma_decode_repeatable(s: Seq<char>, t1: Seq<u8>, t2: Seq<u8>)
    requires
        t1.len() == t2.len(),
    ensures
        is_valid_hex(s, t1.len()) == is_valid_hex(s, t2.len()),
        is_valid_hex(s, t1.len()) ==> decode_into(s, t1).subrange(0, (s.len() / 2) as int) == decode_into(
            s,
            t2,
        ).subrange(0, (s.len() / 2) as int),
        t1 == t2 ==> decode_into(s, t1) == decode_into(s, t2),
{
    if is_valid_hex(s, t1.len()) {
        assert(decode_into(s, t1).subrange(0, (s.len() / 2) as int) =~= hex_decode(s));
        assert(decode_into(s, t2).subrange(0, (s.len() / 2) as int) =~= hex_decode(s));
    }
}

} // verus!
