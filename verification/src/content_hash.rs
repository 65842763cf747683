//! Content hashes that identify package versions.

use vstd::prelude::*;
use vstd::string::*;

use crate::text::{digit_text, digits};

verus! {

/// Content hash that identifies a package version.
#[derive(Clone, Copy, Debug, PartialEq, Eq, Hash)]
pub struct ContentHash {
    /// The 32 bytes of the hash.
    pub bytes: [u8; 32],
}

/// Bytes in lower-case hexadecimal, two digits each, high digit first.
pub open spec fn hex(bytes: Seq<u8>) -> Seq<char> {
    Seq::new(
        2 * bytes.len(),
        |i: int|
            digits()[if i % 2 == 0 {
                bytes[i / 2] as int / 16
            } else {
                bytes[i / 2] as int % 16
            }],
    )
}

/// The canonical text of a content hash.
pub open spec fn hash_text(hash: ContentHash) -> Seq<char> {
    hex(hash.bytes@)
}

/// Different hexadecimal digits have different characters.
proof fn lemma_digits_distinct()
    ensures
        forall|a: int, b: int|
            0 <= a < 16 && 0 <= b < 16 && #[trigger] digits()[a] == #[trigger] digits()[b] ==> a
                == b,
{
}

/// Different byte strings have different hexadecimal texts.
pub proof fn lemma_hex_injective(a: Seq<u8>, b: Seq<u8>)
    requires
        hex(a) == hex(b),
    ensures
        a == b,
{
    assert(hex(a).len() == 2 * a.len());
    assert(hex(b).len() == 2 * b.len());
    assert forall|k: int| 0 <= k < a.len() implies a[k] == b[k] by {
        lemma_digits_distinct();
        let i = 2 * k;
        assert(hex(a)[i] == digits()[a[k] as int / 16]);
        assert(hex(b)[i] == digits()[b[k] as int / 16]);
        assert((i + 1) / 2 == k);
        assert(hex(a)[i + 1] == digits()[a[k] as int % 16]);
        assert(hex(b)[i + 1] == digits()[b[k] as int % 16]);
    }
    assert(a =~= b);
}

/// A content hash is determined by its canonical text.
pub proof fn canonical_text_determines_the_hash(a: ContentHash, b: ContentHash)
    requires
        hash_text(a) == hash_text(b),
    ensures
        a == b,
{
    lemma_hex_injective(a.bytes@, b.bytes@);
    assert(a.bytes =~= b.bytes);
}

/// The value of a lower-case hexadecimal digit.
fn digit_value(digit: char) -> (value: Option<u8>)
    ensures
        match value {
            Some(value) => value < 16 && digits()[value as int] == digit,
            None => forall|v: int| 0 <= v < 16 ==> #[trigger] digits()[v] != digit,
        },
{
    match digit {
        '0' => Some(0),
        '1' => Some(1),
        '2' => Some(2),
        '3' => Some(3),
        '4' => Some(4),
        '5' => Some(5),
        '6' => Some(6),
        '7' => Some(7),
        '8' => Some(8),
        '9' => Some(9),
        'a' => Some(10),
        'b' => Some(11),
        'c' => Some(12),
        'd' => Some(13),
        'e' => Some(14),
        'f' => Some(15),
        _ => None,
    }
}

impl ContentHash {
    /// Wraps the bytes of a hash.
    pub fn from_bytes(bytes: [u8; 32]) -> (hash: Self)
        ensures
            hash.bytes == bytes,
    {
        ContentHash { bytes }
    }

    /// Whether two hashes are the same.
    pub fn same(&self, other: &ContentHash) -> (same: bool)
        ensures
            same == (*self == *other),
    {
        let mut i: usize = 0;
        while i < 32
            invariant
                0 <= i <= 32,
                forall|j: int| 0 <= j < i ==> self.bytes@[j] == other.bytes@[j],
            decreases 32 - i,
        {
            if self.bytes[i] != other.bytes[i] {
                return false;
            }
            i = i + 1;
        }
        assert(self.bytes =~= other.bytes);
        true
    }

    /// The canonical text of the hash.
    pub fn text(&self) -> (text: String)
        ensures
            text@ == hash_text(*self),
    {
        let mut text = String::new();
        let mut i: usize = 0;
        assert(text@ =~= hex(self.bytes@.take(0)));
        while i < 32
            invariant
                0 <= i <= 32,
                text@ == hex(self.bytes@.take(i as int)),
            decreases 32 - i,
        {
            let byte: u8 = self.bytes[i];
            let ghost before = text@;
            text.append(digit_text(byte / 16));
            text.append(digit_text(byte % 16));
            proof {
                assert(text@ =~= hex(self.bytes@.take(i + 1)));
            }
            i = i + 1;
        }
        proof {
            assert(self.bytes@.take(32) =~= self.bytes@);
        }
        text
    }

    /// Reads a hash from its canonical text.
    pub fn parse(text: &str) -> (hash: Option<ContentHash>)
        ensures
            match hash {
                Some(hash) => text@ == hash_text(hash),
                None => forall|h: ContentHash| text@ != #[trigger] hash_text(h),
            },
    {
        if text.unicode_len() != 64 {
            return None;
        }
        let mut bytes: [u8; 32] = [0u8; 32];
        let mut i: usize = 0;
        while i < 32
            invariant
                0 <= i <= 32,
                text@.len() == 64,
                text@.take(2 * i) == hex(bytes@.take(i as int)),
            decreases 32 - i,
        {
            let high: u8 = match digit_value(text.get_char(2 * i)) {
                Some(value) => value,
                None => {
                    proof {
                        assert forall|h: ContentHash| text@ != #[trigger] hash_text(h) by {
                            assert(hash_text(h)[2 * i] == digits()[h.bytes@[i as int] as int / 16]);
                        }
                    }
                    return None;
                },
            };
            let low: u8 = match digit_value(text.get_char(2 * i + 1)) {
                Some(value) => value,
                None => {
                    proof {
                        assert forall|h: ContentHash| text@ != #[trigger] hash_text(h) by {
                            assert((2 * i + 1) / 2 == i);
                            assert(hash_text(h)[2 * i + 1] == digits()[h.bytes@[i as int] as int
                                % 16]);
                        }
                    }
                    return None;
                },
            };
            let ghost before = bytes@;
            bytes[i] = high * 16 + low;
            proof {
                let longer = bytes@.take(i + 1);
                assert(longer.take(i as int) =~= before.take(i as int));
                assert(hex(longer).len() == 2 * (i + 1));
                assert forall|k: int| 0 <= k < 2 * (i + 1) implies text@.take(2 * (i + 1))[k]
                    == hex(longer)[k] by {
                    if k < 2 * i {
                        assert(text@.take(2 * i)[k] == hex(before.take(i as int))[k]);
                        assert(before.take(i as int)[k / 2] == longer[k / 2]);
                    }
                }
                assert(text@.take(2 * (i + 1)) =~= hex(longer));
            }
            i = i + 1;
        }
        proof {
            assert(text@.take(64) =~= text@);
            assert(bytes@.take(32) =~= bytes@);
        }
        Some(ContentHash { bytes })
    }
}

} // verus!
