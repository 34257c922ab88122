use vstd::prelude::*;

use crate::errors::ChunkError;

verus! {

/// True when `b` is the code of an ASCII uppercase letter.
pub open spec fn is_upper_byte(b: u8) -> bool {
    65 <= b <= 90
}

/// True when `b` is the code of an ASCII lowercase letter.
pub open spec fn is_lower_byte(b: u8) -> bool {
    97 <= b <= 122
}

/// True when `b` is the code of an ASCII letter.
pub open spec fn is_alpha_byte(b: u8) -> bool {
    is_upper_byte(b) || is_lower_byte(b)
}

/// A four-byte tag is valid when every byte is an ASCII letter and the
/// third (reserved) byte is uppercase.
pub open spec fn is_valid_tag(bytes: Seq<u8>) -> bool {
    &&& bytes.len() == 4
    &&& forall|i: int| 0 <= i < 4 ==> is_alpha_byte(#[trigger] bytes[i])
    &&& is_upper_byte(bytes[2])
}

/// True when `c` is an ASCII uppercase letter.
pub open spec fn is_upper_char(c: char) -> bool {
    'A' <= c <= 'Z'
}

/// True when `c` is an ASCII lowercase letter.
pub open spec fn is_lower_char(c: char) -> bool {
    'a' <= c <= 'z'
}

/// True when `c` is an ASCII letter.
pub open spec fn is_alpha_char(c: char) -> bool {
    is_upper_char(c) || is_lower_char(c)
}

/// A tag text is valid when it is exactly four ASCII letters and the
/// third is uppercase.
pub open spec fn is_valid_tag_text(s: Seq<char>) -> bool {
    &&& s.len() == 4
    &&& forall|i: int| 0 <= i < 4 ==> is_alpha_char(#[trigger] s[i])
    &&& is_upper_char(s[2])
}

/// Reserved-bit law over bytes: a tag whose third byte is lowercase is
/// never valid, whatever the other three bytes hold, so
/// [`ChunkType::parse`] always rejects it.
pub proof fn lemma_reserved_bit_rejected(bytes: Seq<u8>)
    requires
        bytes.len() == 4,
        is_lower_byte(bytes[2]),
    ensures
        !is_valid_tag(bytes),
{
}

/// Reserved-bit law over text: a tag text whose third character is
/// lowercase is never valid, whatever the other three characters hold,
/// so [`ChunkType::parse_text`] always rejects it.
pub proof fn lemma_reserved_bit_rejected_text(s: Seq<char>)
    requires
        s.len() == 4,
        is_lower_char(s[2]),
    ensures
        !is_valid_tag_text(s),
{
}

/// A chunk's four-byte type tag.
///
/// Each byte carries a format flag in its case: byte 0 critical/ancillary,
/// byte 1 public/private, byte 2 the reserved bit (must be uppercase for a
/// valid tag), byte 3 safe-to-copy. The flag accessors are computable on
/// any tag, valid or not; only [`ChunkType::parse`] and
/// [`ChunkType::parse_text`] enforce validity.
#[derive(Clone, Copy, Debug, PartialEq, Eq, Structural)]
pub struct ChunkType {
    ancilliary: u8,
    private: u8,
    reserved: u8,
    safe_to_copy: u8,
}

impl View for ChunkType {
    type V = Seq<u8>;

    closed spec fn view(&self) -> Seq<u8> {
        seq![self.ancilliary, self.private, self.reserved, self.safe_to_copy]
    }
}

impl ChunkType {
    /// Unconditional construction from four raw bytes; validity is a
    /// separate query, so tags found in untrusted input can be carried
    /// around for diagnostics.
    pub fn new(ancilliary: u8, private: u8, reserved: u8, safe_to_copy: u8) -> (r: Self)
        ensures
            r@ == seq![ancilliary, private, reserved, safe_to_copy],
    {
        ChunkType { ancilliary, private, reserved, safe_to_copy }
    }

    /// The four raw tag bytes, in order.
    pub fn bytes(&self) -> (r: [u8; 4])
        ensures
            r@ == self@,
    {
        let r = [self.ancilliary, self.private, self.reserved, self.safe_to_copy];
        proof {
            assert(r@ =~= self@);
        }
        r
    }

    /// Uppercase first byte means the chunk is critical.
    pub fn is_critical(&self) -> (r: bool)
        ensures
            r == is_upper_byte(self@[0]),
    {
        self.ancilliary >= 65 && self.ancilliary <= 90
    }

    /// Uppercase second byte means the chunk is public.
    pub fn is_public(&self) -> (r: bool)
        ensures
            r == is_upper_byte(self@[1]),
    {
        self.private >= 65 && self.private <= 90
    }

    /// Uppercase third byte means the reserved bit is as the format demands.
    pub fn is_reserved_bit_valid(&self) -> (r: bool)
        ensures
            r == is_upper_byte(self@[2]),
    {
        self.reserved >= 65 && self.reserved <= 90
    }

    /// Lowercase fourth byte means the chunk is safe to copy.
    pub fn is_safe_to_copy(&self) -> (r: bool)
        ensures
            r == is_lower_byte(self@[3]),
    {
        self.safe_to_copy >= 97 && self.safe_to_copy <= 122
    }

    /// The whole-tag validity check: all four bytes ASCII letters and the
    /// reserved byte uppercase.
    pub fn is_valid(&self) -> (r: bool)
        ensures
            r == is_valid_tag(self@),
    {
        let r = Self::byte_is_alpha(self.ancilliary) && Self::byte_is_alpha(self.private)
            && Self::byte_is_alpha(self.safe_to_copy) && self.reserved >= 65
            && self.reserved <= 90;
        proof {
            if r {
                assert forall|i: int| 0 <= i < 4 implies is_alpha_byte(self@[i]) by {
                    assert(self@[0] == self.ancilliary);
                    assert(self@[1] == self.private);
                    assert(self@[2] == self.reserved);
                    assert(self@[3] == self.safe_to_copy);
                }
            }
        }
        r
    }

    /// The checked constructor: accepts exactly the valid tags and fails
    /// with [`ChunkError::InvalidTag`] on every other input.
    pub fn parse(bytes: [u8; 4]) -> (r: Result<Self, ChunkError>)
        ensures
            r is Ok <==> is_valid_tag(bytes@),
            r is Ok ==> r.unwrap()@ == bytes@ && is_valid_tag(r.unwrap()@),
            r is Err ==> r.unwrap_err() == ChunkError::InvalidTag,
    {
        let t = ChunkType {
            ancilliary: bytes[0],
            private: bytes[1],
            reserved: bytes[2],
            safe_to_copy: bytes[3],
        };
        proof {
            assert(t@ =~= bytes@);
        }
        if t.is_valid() {
            Ok(t)
        } else {
            Err(ChunkError::InvalidTag)
        }
    }

    fn byte_is_alpha(b: u8) -> (r: bool)
        ensures
            r == is_alpha_byte(b),
    {
        (b >= 65 && b <= 90) || (b >= 97 && b <= 122)
    }

    /// The checked constructor from text: accepts exactly the texts of
    /// four ASCII letters whose third letter is uppercase, and fails with
    /// [`ChunkError::InvalidTag`] on every other input.
    pub fn parse_text(s: &str) -> (r: Result<Self, ChunkError>)
        ensures
            r is Ok <==> is_valid_tag_text(s@),
            r is Ok ==> {
                &&& is_valid_tag(r.unwrap()@)
                &&& forall|i: int| 0 <= i < 4 ==> #[trigger] r.unwrap()@[i] == (s@[i] as u8)
            },
            r is Err ==> r.unwrap_err() == ChunkError::InvalidTag,
    {
        broadcast use vstd::string::is_ascii_spec_bytes;

        if !s.is_ascii() {
            proof {
                if is_valid_tag_text(s@) {
                    assert forall|i: int| 0 <= i < s@.len() implies '\0' <= #[trigger] s@[i]
                        <= '\u{7f}' by {
                        assert(is_alpha_char(s@[i]));
                    }
                    assert(vstd::utf8::is_ascii_chars(s@));
                }
            }
            return Err(ChunkError::InvalidTag);
        }
        let bytes = s.as_bytes();
        if bytes.len() != 4 {
            return Err(ChunkError::InvalidTag);
        }
        let t = ChunkType {
            ancilliary: bytes[0],
            private: bytes[1],
            reserved: bytes[2],
            safe_to_copy: bytes[3],
        };
        proof {
            assert(vstd::utf8::is_ascii_chars(s@));
            assert(s@.len() == 4);
            assert forall|i: int| 0 <= i < 4 implies t@[i] == (s@[i] as u8) by {
                assert(bytes@[i] == s@[i] as u8);
            }
            assert forall|i: int| 0 <= i < 4 implies (is_alpha_byte(t@[i]) <==> is_alpha_char(
                s@[i],
            )) && (is_upper_byte(t@[i]) <==> is_upper_char(s@[i])) by {
                let c = s@[i];
                assert('\0' <= c <= '\u{7f}');
                assert((c as u8) as int == c as int);
            }
        }
        if t.is_valid() {
            Ok(t)
        } else {
            Err(ChunkError::InvalidTag)
        }
    }

    /// The tag as text: each byte reinterpreted as the character with
    /// that code point.
    pub fn to_text(&self) -> (r: String)
        ensures
            r@ == seq![
                self@[0] as char,
                self@[1] as char,
                self@[2] as char,
                self@[3] as char,
            ],
    {
        chars_to_string(
            self.ancilliary as char,
            self.private as char,
            self.reserved as char,
            self.safe_to_copy as char,
        )
    }
}

/// Relies on `String`'s `FromIterator` over `char`: collecting four
/// characters yields the string of exactly those four characters.
#[verifier::external_body]
fn chars_to_string(c0: char, c1: char, c2: char, c3: char) -> (r: String)
    ensures
        r@ == seq![c0, c1, c2, c3],
{
    [c0, c1, c2, c3].iter().collect()
}

} // verus!
