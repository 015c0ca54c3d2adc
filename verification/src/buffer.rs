//! The append-only text sink that one serialization call writes into.

use vstd::prelude::*;
use vstd::string::StringSliceAdditionalSpecFns;

verus! {

/// An append-only growable text buffer.
///
/// Content already written is never rewritten or truncated: every
/// operation only extends the underlying bytes. Its view is the sequence
/// of bytes written so far.
pub struct CodeBuffer {
    bytes: Vec<u8>,
}

impl CodeBuffer {
    /// The bytes written so far.
    pub closed spec fn view(&self) -> Seq<u8> {
        self.bytes@
    }

    /// Create an empty buffer.
    pub fn new() -> (r: Self)
        ensures
            r@ == Seq::<u8>::empty(),
    {
        CodeBuffer { bytes: Vec::new() }
    }

    /// Append a single byte.
    pub fn push_byte(&mut self, b: u8)
        ensures
            final(self)@ == old(self)@.push(b),
    {
        self.bytes.push(b);
    }

    /// Append a slice of bytes.
    pub fn push_bytes(&mut self, s: &[u8])
        ensures
            final(self)@ == old(self)@ + s@,
    {
        let mut i: usize = 0;
        while i < s.len()
            invariant
                i <= s@.len(),
                self.bytes@ == old(self).bytes@ + s@.subrange(0, i as int),
            decreases s@.len() - i,
        {
            let b = s[i];
            self.bytes.push(b);
            proof {
                assert(old(self).bytes@ + s@.subrange(0, i as int) + seq![s@[i as int]] =~= old(
                    self,
                ).bytes@ + s@.subrange(0, i + 1));
            }
            i += 1;
        }
        proof {
            assert(s@.subrange(0, s@.len() as int) =~= s@);
        }
    }

    /// Append the UTF-8 bytes of a string.
    pub fn push_str(&mut self, s: &str)
        ensures
            final(self)@ == old(self)@ + s.spec_bytes(),
    {
        self.bytes.extend_from_slice(s.as_bytes());
    }

    /// Consume the buffer and hand back the accumulated bytes.
    pub fn into_bytes(self) -> (r: Vec<u8>)
        ensures
            r@ == self@,
    {
        self.bytes
    }
}

} // verus!
