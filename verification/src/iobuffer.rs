//! Typed I/O buffer capability.
//!
//! A value that implements [`SizedIoBuffer`] can be used as the target of a
//! raw byte read without the call site doing any pointer or length
//! bookkeeping: every byte content of the right length denotes a legal value
//! of the type, and `from_byte_slice` performs that decoding. The broader
//! [`IoBuffer`] capability only promises a byte length and is implemented for
//! every sized buffer type.

use vstd::prelude::*;

verus! {

/// A capability for values that stand for a raw I/O buffer of known length.
pub trait IoBuffer {
    /// The length in bytes of the raw buffer this value stands for.
    spec fn spec_buffer_len(&self) -> nat;

    /// Returns the length in bytes of the raw buffer this value stands for.
    fn buffer_len(&self) -> (n: usize)
        ensures
            n == self.spec_buffer_len(),
    ;
}

/// A capability for fixed-size values that can be decoded from raw bytes.
///
/// Implementing types promise that any byte content of length `spec_size()`
/// denotes a legal value, so a read from storage never needs validation
/// before the value is formed. `parsed_from` is the decoding relation: it
/// holds exactly of the value that a given byte content denotes.
pub trait SizedIoBuffer: Sized {
    /// The number of bytes a value of this type occupies.
    spec fn spec_size() -> nat;

    /// Holds when `self` is the value that the byte content `bytes` denotes.
    spec fn parsed_from(&self, bytes: Seq<u8>) -> bool;

    /// Returns the number of bytes a value of this type occupies.
    fn byte_size() -> (n: usize)
        ensures
            n == Self::spec_size(),
    ;

    /// Decodes a value from the prefix of a byte slice.
    ///
    /// Fails exactly when the slice is shorter than the type's size.
    fn from_byte_slice(buf: &[u8]) -> (r: Option<Self>)
        ensures
            r is Some <==> buf@.len() >= Self::spec_size(),
            (r matches Some(v) ==> v.parsed_from(buf@.take(Self::spec_size() as int))),
    ;
}

impl<T: SizedIoBuffer> IoBuffer for T {
    open spec fn spec_buffer_len(&self) -> nat {
        T::spec_size()
    }

    fn buffer_len(&self) -> usize {
        T::byte_size()
    }
}

impl SizedIoBuffer for u8 {
    open spec fn spec_size() -> nat {
        1
    }

    open spec fn parsed_from(&self, bytes: Seq<u8>) -> bool {
        *self == bytes[0]
    }

    fn byte_size() -> usize {
        1
    }

    fn from_byte_slice(buf: &[u8]) -> (r: Option<u8>) {
        if buf.len() >= 1 {
            Some(*vstd::slice::slice_index_get(buf, 0))
        } else {
            None
        }
    }
}

impl SizedIoBuffer for u16 {
    open spec fn spec_size() -> nat {
        2
    }

    open spec fn parsed_from(&self, bytes: Seq<u8>) -> bool {
        *self == vstd::bytes::spec_u16_from_le_bytes(bytes)
    }

    fn byte_size() -> usize {
        2
    }

    fn from_byte_slice(buf: &[u8]) -> (r: Option<u16>) {
        if buf.len() >= 2 {
            let prefix = vstd::slice::slice_subrange(buf, 0, 2);
            proof {
                assert(prefix@ =~= buf@.take(2));
            }
            Some(vstd::bytes::u16_from_le_bytes(prefix))
        } else {
            None
        }
    }
}

impl SizedIoBuffer for u32 {
    open spec fn spec_size() -> nat {
        4
    }

    open spec fn parsed_from(&self, bytes: Seq<u8>) -> bool {
        *self == vstd::bytes::spec_u32_from_le_bytes(bytes)
    }

    fn byte_size() -> usize {
        4
    }

    fn from_byte_slice(buf: &[u8]) -> (r: Option<u32>) {
        if buf.len() >= 4 {
            let prefix = vstd::slice::slice_subrange(buf, 0, 4);
            proof {
                assert(prefix@ =~= buf@.take(4));
            }
            Some(vstd::bytes::u32_from_le_bytes(prefix))
        } else {
            None
        }
    }
}

impl SizedIoBuffer for u64 {
    open spec fn spec_size() -> nat {
        8
    }

    open spec fn parsed_from(&self, bytes: Seq<u8>) -> bool {
        *self == vstd::bytes::spec_u64_from_le_bytes(bytes)
    }

    fn byte_size() -> usize {
        8
    }

    fn from_byte_slice(buf: &[u8]) -> (r: Option<u64>) {
        if buf.len() >= 8 {
            let prefix = vstd::slice::slice_subrange(buf, 0, 8);
            proof {
                assert(prefix@ =~= buf@.take(8));
            }
            Some(vstd::bytes::u64_from_le_bytes(prefix))
        } else {
            None
        }
    }
}

/// Compares two byte slices for equality.
pub fn eq_bytes(a: &[u8], b: &[u8]) -> (r: bool)
    ensures
        r <==> a@ == b@,
{
    if a.len() != b.len() {
        return false;
    }
    let n = a.len();
    let mut i: usize = 0;
    while i < n
        invariant
            n == a@.len() && n == b@.len(),
            i <= n,
            forall|j: int| 0 <= j < i ==> a@[j] == b@[j],
        decreases n - i,
    {
        if *vstd::slice::slice_index_get(a, i) != *vstd::slice::slice_index_get(b, i) {
            return false;
        }
        i = i + 1;
    }
    proof {
        assert(a@ =~= b@);
    }
    true
}

} // verus!
