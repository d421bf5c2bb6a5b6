//! Store-style identifiers: opaque 12-byte tokens whose textual form is a
//! fixed-length (24 character) hexadecimal encoding.

use vstd::prelude::*;

use crate::DbError;

verus! {

/// A character is a hexadecimal digit (either case).
pub open spec fn is_hex_digit(c: char) -> bool {
    (48 <= c as u32 && c as u32 <= 57)  // '0'..'9'
    || (97 <= c as u32 && c as u32 <= 102)  // 'a'..'f'
    || (65 <= c as u32 && c as u32 <= 70)  // 'A'..'F'
}

/// Numeric value of a hexadecimal digit character.
pub open spec fn hex_val(c: char) -> u8
    recommends
        is_hex_digit(c),
{
    if 48 <= c as u32 && c as u32 <= 57 {
        (c as u32 - 48) as u8
    } else if 97 <= c as u32 && c as u32 <= 102 {
        (c as u32 - 87) as u8
    } else {
        (c as u32 - 55) as u8
    }
}

/// Lower-case hexadecimal digit character for a value below 16.
pub open spec fn hex_char(n: u8) -> char
    recommends
        n < 16,
{
    if n < 10 {
        ((48 + n) as u8) as char
    } else {
        ((87 + n) as u8) as char
    }
}

/// The two hexadecimal digits of one byte, high nibble first.
pub open spec fn hex_pair(x: u8) -> Seq<char> {
    seq![hex_char((x / 16) as u8), hex_char((x % 16) as u8)]
}

/// Hexadecimal text of a byte sequence, two digits per byte.
pub open spec fn hex_of(b: Seq<u8>) -> Seq<char>
    decreases b.len(),
{
    if b.len() == 0 {
        Seq::empty()
    } else {
        hex_of(b.drop_last()) + hex_pair(b.last())
    }
}

/// A string is a well-formed identifier token: exactly 24 hexadecimal digits.
pub open spec fn valid_oid_text(s: Seq<char>) -> bool {
    s.len() == 24 && (forall|i: int| 0 <= i < 24 ==> is_hex_digit(#[trigger] s[i]))
}

/// The byte decoded from two hexadecimal digit characters.
pub open spec fn byte_of_digits(hi: char, lo: char) -> u8 {
    (16 * hex_val(hi) + hex_val(lo)) as u8
}

/// The 12 bytes decoded from a well-formed identifier token.
pub open spec fn bytes_of_hex(s: Seq<char>) -> Seq<u8> {
    Seq::new(s.len() / 2, |i: int| byte_of_digits(s[2 * i], s[2 * i + 1]))
}

/// An opaque store-assigned identifier: 12 bytes, compared by equality and
/// carried textually as 24 hexadecimal digits.
#[derive(Debug)]
pub struct ObjectId {
    bytes: Vec<u8>,
}

impl View for ObjectId {
    type V = Seq<u8>;

    closed spec fn view(&self) -> Seq<u8> {
        self.bytes@
    }
}

impl ObjectId {
    /// A well-formed identifier holds exactly 12 bytes.
    pub open spec fn wf(&self) -> bool {
        self@.len() == 12
    }

    /// Builds an identifier from its raw bytes.
    pub fn from_bytes(bytes: Vec<u8>) -> (r: ObjectId)
        requires
            bytes@.len() == 12,
        ensures
            r@ == bytes@,
            r.wf(),
    {
        ObjectId { bytes }
    }

    /// A copy of this identifier.
    pub fn dup(&self) -> (r: ObjectId)
        ensures
            r@ == self@,
    {
        let bytes = self.bytes.clone();
        proof {
            assert(bytes@ =~= self.bytes@);
        }
        ObjectId { bytes }
    }

    /// Equality of two identifiers, byte for byte.
    pub fn equals(&self, other: &ObjectId) -> (r: bool)
        ensures
            r == (self@ == other@),
    {
        if self.bytes.len() != other.bytes.len() {
            proof {
                assert(self@.len() != other@.len());
            }
            return false;
        }
        let n = self.bytes.len();
        let mut i: usize = 0;
        while i < n
            invariant
                n == self@.len() == other@.len(),
                0 <= i <= n,
                forall|j: int| 0 <= j < i ==> self@[j] == other@[j],
            decreases n - i,
        {
            if self.bytes[i] != other.bytes[i] {
                return false;
            }
            i += 1;
        }
        proof {
            assert(self@ =~= other@);
        }
        true
    }

    /// Parses the textual form of an identifier. Succeeds exactly on strings
    /// of 24 hexadecimal digits; anything else is a `ValidationError`.
    pub fn with_string(s: &str) -> (r: Result<ObjectId, DbError>)
        ensures
            r is Ok <==> valid_oid_text(s@),
            r is Ok ==> r->Ok_0@ == bytes_of_hex(s@) && r->Ok_0.wf(),
            r is Err ==> r->Err_0 == DbError::ValidationError,
    {
        let n = s.unicode_len();
        if n != 24 {
            return Err(DbError::ValidationError);
        }
        let mut bytes: Vec<u8> = Vec::new();
        let mut i: usize = 0;
        while i < 12
            invariant
                s@.len() == 24,
                0 <= i <= 12,
                bytes@.len() == i,
                forall|j: int| 0 <= j < 2 * i ==> is_hex_digit(#[trigger] s@[j]),
                forall|j: int|
                    0 <= j < i ==> bytes@[j] == byte_of_digits(s@[2 * j], s@[2 * j + 1]),
            decreases 12 - i,
        {
            let hi = match hex_digit_value(s.get_char(2 * i)) {
                Some(v) => v,
                None => {
                    return Err(DbError::ValidationError);
                },
            };
            let lo = match hex_digit_value(s.get_char(2 * i + 1)) {
                Some(v) => v,
                None => {
                    return Err(DbError::ValidationError);
                },
            };
            bytes.push(16 * hi + lo);
            i += 1;
        }
        proof {
            assert(bytes@ =~= bytes_of_hex(s@));
        }
        Ok(ObjectId { bytes })
    }

    /// The textual form of this identifier: 24 lower-case hexadecimal digits.
    pub fn to_hex(&self) -> (r: String)
        requires
            self.wf(),
        ensures
            r@ == hex_of(self@),
            valid_oid_text(r@),
    {
        let digits = "0123456789abcdef";
        proof {
            reveal_strlit("0123456789abcdef");
            assert(digits@.len() == 16);
            assert(vstd::string::is_ascii(digits));
            assert(forall|k: int| 0 <= k < 16 ==> #[trigger] digits@[k] == hex_char(k as u8));
        }
        let mut out = String::new();
        let mut i: usize = 0;
        while i < 12
            invariant
                self.wf(),
                0 <= i <= 12,
                digits@.len() == 16,
                vstd::string::is_ascii(digits),
                forall|k: int| 0 <= k < 16 ==> #[trigger] digits@[k] == hex_char(k as u8),
                out@ == hex_of(self@.take(i as int)),
            decreases 12 - i,
        {
            let b = self.bytes[i];
            let hi: u8 = b / 16;
            let lo: u8 = b % 16;
            out.append(digits.substring_ascii(hi as usize, hi as usize + 1));
            out.append(digits.substring_ascii(lo as usize, lo as usize + 1));
            proof {
                assert(self@.take(i + 1 as int).drop_last() =~= self@.take(i as int));
                assert(out@ =~= hex_of(self@.take(i + 1)));
            }
            i += 1;
        }
        proof {
            assert(self@.take(12) =~= self@);
            lemma_hex_of_valid(self@);
        }
        out
    }
}

/// Numeric value of one hexadecimal digit character, or `None` for any other
/// character.
pub fn hex_digit_value(c: char) -> (r: Option<u8>)
    ensures
        r is Some <==> is_hex_digit(c),
        r is Some ==> r->0 == hex_val(c) && r->0 < 16,
{
    let v = c as u32;
    if 48 <= v && v <= 57 {
        Some((v - 48) as u8)
    } else if 97 <= v && v <= 102 {
        Some((v - 87) as u8)
    } else if 65 <= v && v <= 70 {
        Some((v - 55) as u8)
    } else {
        None
    }
}

/// The hexadecimal text of a byte sequence has two digits per byte, and every
/// character of it is a (lower-case) hexadecimal digit.
pub proof fn lemma_hex_of_valid(b: Seq<u8>)
    ensures
        hex_of(b).len() == 2 * b.len(),
        forall|i: int| 0 <= i < 2 * b.len() ==> is_hex_digit(#[trigger] hex_of(b)[i]),
        forall|i: int|
            0 <= i < b.len() ==> #[trigger] hex_of(b)[2 * i] == hex_char((b[i] / 16) as u8)
                && hex_of(b)[2 * i + 1] == hex_char((b[i] % 16) as u8),
    decreases b.len(),
{
    if b.len() > 0 {
        lemma_hex_of_valid(b.drop_last());
        assert forall|i: int| 0 <= i < b.len() implies #[trigger] hex_of(b)[2 * i]
            == hex_char((b[i] / 16) as u8) && hex_of(b)[2 * i + 1] == hex_char(
            (b[i] % 16) as u8,
        ) by {
            if i < b.len() - 1 {
                assert(b.drop_last()[i] == b[i]);
                assert(hex_of(b)[2 * i] == hex_of(b.drop_last())[2 * i]);
                assert(hex_of(b)[2 * i + 1] == hex_of(b.drop_last())[2 * i + 1]);
            }
        }
    }
}

/// Decoding undoes encoding: the hexadecimal text of any 12 bytes is a
/// well-formed identifier token, and parsing it gives back those bytes.
pub proof fn lemma_hex_round_trip(b: Seq<u8>)
    requires
        b.len() == 12,
    ensures
        valid_oid_text(hex_of(b)),
        bytes_of_hex(hex_of(b)) == b,
{
    lemma_hex_of_valid(b);
    assert forall|i: int| 0 <= i < 12 implies #[trigger] bytes_of_hex(hex_of(b))[i] == b[i] by {
        let x = b[i];
        assert(hex_of(b)[2 * i] == hex_char((x / 16) as u8));
        assert(hex_of(b)[2 * i + 1] == hex_char((x % 16) as u8));
        assert(hex_val(hex_char((x / 16) as u8)) == x / 16);
        assert(hex_val(hex_char((x % 16) as u8)) == x % 16);
    }
    assert(bytes_of_hex(hex_of(b)) =~= b);
}

} // verus!
