//! The serialization context: one buffer and one formatter, owned for the
//! lifetime of one top-level serialization call.

use vstd::prelude::*;
use crate::buffer::CodeBuffer;
use crate::formatter::{CompactFormatter, Formatter, PrettyFormatter};
use crate::sequences::{ESTreeSequenceSerializer, SequenceSerializer};
use crate::structs::{ESTreeStructSerializer, StructSerializer};

verus! {

/// The serializer: owns the output buffer and the layout strategy.
/// Builders created from it borrow it exclusively; nested builders share
/// the one buffer and the one formatter through it.
pub struct ESTreeSerializer<F: Formatter> {
    pub buffer: CodeBuffer,
    pub formatter: F,
}

/// A serializer producing compact output.
pub type CompactSerializer = ESTreeSerializer<CompactFormatter>;

/// A serializer producing pretty (indented) output.
pub type PrettySerializer = ESTreeSerializer<PrettyFormatter>;

impl<F: Formatter> ESTreeSerializer<F> {
    /// The bytes written so far.
    pub open spec fn out(&self) -> Seq<u8> {
        self.buffer@
    }

    /// The formatter's current nesting depth.
    pub open spec fn depth(&self) -> nat {
        self.formatter.depth()
    }

    /// The formatter's internal consistency.
    pub open spec fn wf(&self) -> bool {
        self.formatter.wf()
    }

    /// Begin serializing a sequence: writes the opening bracket and hands
    /// back the builder that writes its elements.
    pub fn serialize_sequence<'s>(&'s mut self) -> (r: ESTreeSequenceSerializer<'s, F>)
        requires
            old(self).wf(),
        ensures
            r.inv(),
            r.elems() == Seq::<crate::json::JsonValue>::empty(),
            r.prefix() == old(self).out(),
            r.depth() == old(self).depth(),
            *final(self) == *final(r.serializer),
    {
        ESTreeSequenceSerializer::new(self)
    }

    /// Begin serializing a struct: writes the opening brace and hands
    /// back the builder that writes its fields.
    pub fn serialize_struct<'s>(&'s mut self) -> (r: ESTreeStructSerializer<'s, F>)
        requires
            old(self).wf(),
        ensures
            r.inv(),
            r.fields() == Seq::<crate::json::JsonField>::empty(),
            r.prefix() == old(self).out(),
            r.depth() == old(self).depth(),
            *final(self) == *final(r.serializer),
    {
        ESTreeStructSerializer::new(self)
    }

    /// Consume the serializer and hand back the accumulated output bytes.
    pub fn into_bytes(self) -> (r: Vec<u8>)
        ensures
            r@ == self.out(),
    {
        self.buffer.into_bytes()
    }
}

impl ESTreeSerializer<CompactFormatter> {
    /// Create a serializer producing compact output.
    pub fn new() -> (r: Self)
        ensures
            r.wf(),
            r.out() == Seq::<u8>::empty(),
            r.depth() == 0,
    {
        ESTreeSerializer { buffer: CodeBuffer::new(), formatter: CompactFormatter::new() }
    }
}

impl ESTreeSerializer<PrettyFormatter> {
    /// Create a serializer producing pretty output.
    pub fn new() -> (r: Self)
        ensures
            r.wf(),
            r.out() == Seq::<u8>::empty(),
            r.depth() == 0,
    {
        ESTreeSerializer { buffer: CodeBuffer::new(), formatter: PrettyFormatter::new() }
    }
}

} // verus!
