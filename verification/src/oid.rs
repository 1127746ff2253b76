//! The record identifier: a 12-byte value assigned by the store, carried on
//! the wire as a 24-digit hexadecimal string. Parsing validates the text form
//! before any store operation sees it.

use vstd::prelude::*;

use crate::error::TodoError;

verus! {

/// The numeric value of an ASCII hexadecimal digit, upper or lower case.
pub open spec fn hex_val(c: char) -> Option<u8> {
    let u = c as u32;
    if 48 <= u && u <= 57 {
        Some((u - 48) as u8)
    } else if 65 <= u && u <= 70 {
        Some((u - 55) as u8)
    } else if 97 <= u && u <= 102 {
        Some((u - 87) as u8)
    } else {
        None
    }
}

pub open spec fn is_hex_digit(c: char) -> bool {
    hex_val(c) is Some
}

/// The lower-case hexadecimal digit for a value below sixteen.
pub open spec fn hex_char(d: u8) -> char {
    if d == 0 { '0' }
    else if d == 1 { '1' }
    else if d == 2 { '2' }
    else if d == 3 { '3' }
    else if d == 4 { '4' }
    else if d == 5 { '5' }
    else if d == 6 { '6' }
    else if d == 7 { '7' }
    else if d == 8 { '8' }
    else if d == 9 { '9' }
    else if d == 10 { 'a' }
    else if d == 11 { 'b' }
    else if d == 12 { 'c' }
    else if d == 13 { 'd' }
    else if d == 14 { 'e' }
    else { 'f' }
}

/// A well-formed identifier string: exactly 24 hexadecimal digits.
pub open spec fn valid_hex(s: Seq<char>) -> bool {
    s.len() == 24 && forall|i: int| 0 <= i < 24 ==> is_hex_digit(#[trigger] s[i])
}

/// The byte at position `j` of a valid identifier string.
pub open spec fn byte_of_hex(s: Seq<char>, j: int) -> u8 {
    (hex_val(s[2 * j]).unwrap() * 16 + hex_val(s[2 * j + 1]).unwrap()) as u8
}

/// The twelve bytes denoted by a valid identifier string.
pub open spec fn bytes_of_hex(s: Seq<char>) -> Seq<u8> {
    Seq::new(12, |j: int| byte_of_hex(s, j))
}

/// The lower-case hexadecimal rendering of a byte sequence.
pub open spec fn hex_of_bytes(b: Seq<u8>) -> Seq<char> {
    Seq::new(b.len() * 2, |i: int| if i % 2 == 0 { hex_char(b[i / 2] / 16) } else { hex_char(b[i / 2] % 16) })
}

/// An opaque store-assigned identifier: twelve bytes.
pub struct ObjectId {
    bytes: Vec<u8>,
}

impl View for ObjectId {
    type V = Seq<u8>;

    closed spec fn view(&self) -> Seq<u8> {
        self.bytes@
    }
}

impl ObjectId {
    /// A well-formed identifier holds exactly twelve bytes.
    pub open spec fn wf(&self) -> bool {
        self@.len() == 12
    }

    /// Parses the 24-digit hexadecimal text form of an identifier. Any other
    /// string is rejected, so handlers refuse a malformed path parameter
    /// before the store is consulted.
    pub fn parse_str(s: &str) -> (r: Result<ObjectId, TodoError>)
        ensures
            r is Ok <==> valid_hex(s@),
            r matches Ok(id) ==> id.wf() && id@ == bytes_of_hex(s@),
            r matches Err(e) ==> e is InvalidId,
    {
        let n = s.unicode_len();
        if n != 24 {
            return Err(TodoError::InvalidId);
        }
        let mut bytes: Vec<u8> = Vec::new();
        let mut i: usize = 0;
        while i < 12
            invariant
                s@.len() == 24,
                i <= 12,
                bytes@.len() == i,
                forall|j: int| 0 <= j < 2 * i ==> is_hex_digit(#[trigger] s@[j]),
                forall|j: int| 0 <= j < i ==> bytes@[j] == byte_of_hex(s@, j),
            decreases 12 - i,
        {
            let hi = hex_digit_value(s.get_char(2 * i));
            let lo = hex_digit_value(s.get_char(2 * i + 1));
            match (hi, lo) {
                (Some(h), Some(l)) => {
                    bytes.push(h * 16 + l);
                }
                _ => {
                    return Err(TodoError::InvalidId);
                }
            }
            i += 1;
        }
        proof {
            assert(bytes@ =~= bytes_of_hex(s@));
        }
        Ok(ObjectId { bytes })
    }

    /// The 24-digit lower-case hexadecimal text form of this identifier.
    pub fn to_hex(&self) -> (r: String)
        requires
            self.wf(),
        ensures
            r@ == hex_of_bytes(self@),
    {
        let mut r = String::new();
        let mut i: usize = 0;
        while i < 12
            invariant
                self.wf(),
                i <= 12,
                r@ == hex_of_bytes(self@.take(i as int)),
            decreases 12 - i,
        {
            let b = self.bytes[i];
            r.append(digit_str(b / 16));
            r.append(digit_str(b % 16));
            proof {
                assert(hex_of_bytes(self@.take(i + 1 as int)) =~= hex_of_bytes(self@.take(i as int)) + seq![hex_char(b / 16), hex_char(b % 16)]);
            }
            i += 1;
        }
        proof {
            assert(self@.take(12) =~= self@);
        }
        r
    }

    /// Whether two identifiers denote the same record.
    pub fn same_id(&self, other: &ObjectId) -> (r: bool)
        ensures
            r == (self@ == other@),
    {
        if self.bytes.len() != other.bytes.len() {
            proof {
                assert(self@ != other@);
            }
            return false;
        }
        let mut i: usize = 0;
        while i < self.bytes.len()
            invariant
                self@.len() == other@.len(),
                i <= self@.len(),
                forall|j: int| 0 <= j < i ==> self@[j] == other@[j],
            decreases self@.len() - i,
        {
            if self.bytes[i] != other.bytes[i] {
                return false;
            }
            i += 1;
        }
        proof {
            assert(self@ =~= other@);
        }
        true
    }

    /// A fresh identifier derived from a store-internal counter: four zero
    /// bytes followed by the counter in big-endian order.
    pub fn from_counter(k: u64) -> (r: ObjectId)
        ensures
            r.wf(),
            r@ == counter_bytes(k),
    {
        let mut bytes: Vec<u8> = Vec::new();
        bytes.push(0);
        bytes.push(0);
        bytes.push(0);
        bytes.push(0);
        bytes.push(#[verifier::truncate] ((k >> 56) as u8));
        bytes.push(#[verifier::truncate] ((k >> 48) as u8));
        bytes.push(#[verifier::truncate] ((k >> 40) as u8));
        bytes.push(#[verifier::truncate] ((k >> 32) as u8));
        bytes.push(#[verifier::truncate] ((k >> 24) as u8));
        bytes.push(#[verifier::truncate] ((k >> 16) as u8));
        bytes.push(#[verifier::truncate] ((k >> 8) as u8));
        bytes.push(#[verifier::truncate] (k as u8));
        proof {
            assert(bytes@ =~= counter_bytes(k));
        }
        ObjectId { bytes }
    }

    /// Clones the identifier, byte for byte.
    pub fn duplicate(&self) -> (r: ObjectId)
        ensures
            r@ == self@,
    {
        let mut bytes: Vec<u8> = Vec::new();
        let mut i: usize = 0;
        while i < self.bytes.len()
            invariant
                i <= self@.len(),
                bytes@ == self@.take(i as int),
            decreases self@.len() - i,
        {
            bytes.push(self.bytes[i]);
            proof {
                assert(bytes@ =~= self@.take(i + 1 as int));
            }
            i += 1;
        }
        proof {
            assert(self@.take(self@.len() as int) =~= self@);
        }
        ObjectId { bytes }
    }
}

/// The identifier bytes derived from a counter value.
pub open spec fn counter_bytes(k: u64) -> Seq<u8> {
    seq![
        0u8,
        0u8,
        0u8,
        0u8,
        (k >> 56) as u8,
        (k >> 48) as u8,
        (k >> 40) as u8,
        (k >> 32) as u8,
        (k >> 24) as u8,
        (k >> 16) as u8,
        (k >> 8) as u8,
        k as u8,
    ]
}

/// The counter value encoded in an identifier's last eight bytes.
pub open spec fn counter_of(b: Seq<u8>) -> u64 {
    ((b[4] as u64) << 56) | ((b[5] as u64) << 48) | ((b[6] as u64) << 40) | ((b[7] as u64) << 32)
        | ((b[8] as u64) << 24) | ((b[9] as u64) << 16) | ((b[10] as u64) << 8) | (b[11] as u64)
}

/// Distinct counters yield distinct identifiers: decoding the encoded bytes
/// gives the counter back.
pub proof fn lemma_counter_round_trip(k: u64)
    ensures
        counter_of(counter_bytes(k)) == k,
{
    assert(((((k >> 56) as u8) as u64) << 56) | ((((k >> 48) as u8) as u64) << 48)
        | ((((k >> 40) as u8) as u64) << 40) | ((((k >> 32) as u8) as u64) << 32)
        | ((((k >> 24) as u8) as u64) << 24) | ((((k >> 16) as u8) as u64) << 16)
        | ((((k >> 8) as u8) as u64) << 8) | ((k as u8) as u64) == k) by (bit_vector);
}

/// Each digit character decodes to the value it was rendered from.
pub proof fn lemma_hex_char_val(d: u8)
    requires
        d < 16,
    ensures
        hex_val(hex_char(d)) == Some(d),
{
}

/// The hexadecimal text form round-trips: rendering twelve bytes gives a
/// valid identifier string, and parsing it back gives the same bytes.
pub proof fn lemma_hex_round_trip(b: Seq<u8>)
    requires
        b.len() == 12,
    ensures
        valid_hex(hex_of_bytes(b)),
        bytes_of_hex(hex_of_bytes(b)) == b,
{
    let h = hex_of_bytes(b);
    assert forall|i: int| 0 <= i < 24 implies is_hex_digit(#[trigger] h[i]) by {
        if i % 2 == 0 {
            lemma_hex_char_val(b[i / 2] / 16);
        } else {
            lemma_hex_char_val(b[i / 2] % 16);
        }
    }
    assert forall|j: int| 0 <= j < 12 implies #[trigger] bytes_of_hex(h)[j] == b[j] by {
        lemma_hex_char_val(b[j] / 16);
        lemma_hex_char_val(b[j] % 16);
        assert(h[2 * j] == hex_char(b[j] / 16));
        assert(h[2 * j + 1] == hex_char(b[j] % 16));
        assert(b[j] / 16 * 16 + b[j] % 16 == b[j]) by (nonlinear_arith);
    }
    assert(bytes_of_hex(h) =~= b);
}

/// A hexadecimal digit in the form `to_hex` renders: decimal digits and
/// lower-case letters.
pub open spec fn is_lower_hex(c: char) -> bool {
    is_hex_digit(c) && !(65 <= c as u32 <= 70)
}

proof fn lemma_lower_hex_char(c: char)
    requires
        is_lower_hex(c),
    ensures
        hex_char(hex_val(c).unwrap()) == c,
{
}

/// The round trip in the other direction: a valid identifier string already
/// in lower case parses to bytes that render back to the very same string.
pub proof fn lemma_parse_render_round_trip(s: Seq<char>)
    requires
        valid_hex(s),
        forall|i: int| 0 <= i < s.len() ==> is_lower_hex(#[trigger] s[i]),
    ensures
        hex_of_bytes(bytes_of_hex(s)) == s,
{
    let h = hex_of_bytes(bytes_of_hex(s));
    assert forall|i: int| 0 <= i < 24 implies h[i] == s[i] by {
        let j = i / 2;
        let hi = hex_val(s[2 * j]).unwrap();
        let lo = hex_val(s[2 * j + 1]).unwrap();
        let b = bytes_of_hex(s)[j];
        assert(hi < 16 && lo < 16);
        assert(b == hi * 16 + lo);
        assert(b / 16 == hi && b % 16 == lo) by (nonlinear_arith)
            requires
                hi < 16,
                lo < 16,
                b == hi * 16 + lo,
        ;
        lemma_lower_hex_char(s[i]);
    }
    assert(h =~= s);
}

/// The numeric value of an ASCII hexadecimal digit, or `None` for any other
/// character.
pub fn hex_digit_value(c: char) -> (r: Option<u8>)
    ensures
        r == hex_val(c),
{
    let u = c as u32;
    if 48 <= u && u <= 57 {
        Some((u - 48) as u8)
    } else if 65 <= u && u <= 70 {
        Some((u - 55) as u8)
    } else if 97 <= u && u <= 102 {
        Some((u - 87) as u8)
    } else {
        None
    }
}

/// The one-character string for a digit value below sixteen.
pub fn digit_str(d: u8) -> (r: &'static str)
    requires
        d < 16,
    ensures
        r@ == seq![hex_char(d)],
{
    if d == 0 {
        proof { reveal_strlit("0"); }
        "0"
    } else if d == 1 {
        proof { reveal_strlit("1"); }
        "1"
    } else if d == 2 {
        proof { reveal_strlit("2"); }
        "2"
    } else if d == 3 {
        proof { reveal_strlit("3"); }
        "3"
    } else if d == 4 {
        proof { reveal_strlit("4"); }
        "4"
    } else if d == 5 {
        proof { reveal_strlit("5"); }
        "5"
    } else if d == 6 {
        proof { reveal_strlit("6"); }
        "6"
    } else if d == 7 {
        proof { reveal_strlit("7"); }
        "7"
    } else if d == 8 {
        proof { reveal_strlit("8"); }
        "8"
    } else if d == 9 {
        proof { reveal_strlit("9"); }
        "9"
    } else if d == 10 {
        proof { reveal_strlit("a"); }
        "a"
    } else if d == 11 {
        proof { reveal_strlit("b"); }
        "b"
    } else if d == 12 {
        proof { reveal_strlit("c"); }
        "c"
    } else if d == 13 {
        proof { reveal_strlit("d"); }
        "d"
    } else if d == 14 {
        proof { reveal_strlit("e"); }
        "e"
    } else {
        proof { reveal_strlit("f"); }
        "f"
    }
}

} // verus!
