//! The struct builder: writes one keyed, braced list of name/value
//! pairs, one field at a time, in call order.

use vstd::prelude::*;
use vstd::string::StringSliceAdditionalSpecFns;
use crate::estree::ESTree;
use crate::formatter::Formatter;
use crate::json::{depth_in, field_text, field_value_sep, lemma_depth_out_in,
    lemma_obj_fields_text_push, obj_fields_text, text_of, ws, JsonField, JsonValue};
use crate::sequences::SequenceState;
use crate::serializer::ESTreeSerializer;

verus! {

/// Trait for struct serializers.
pub trait StructSerializer: Sized {
    /// The builder is ready to take a write: its bookkeeping agrees with
    /// the state of the serializer it borrows.
    spec fn inv(&self) -> bool;

    /// Serialize one field: the name, a colon, and the value's own
    /// representation.
    fn serialize_field<T: ESTree>(&mut self, name: &str, value: &T)
        requires
            old(self).inv(),
    ;

    /// Finish serializing the struct: the only point at which the closing
    /// brace is written. Consuming the builder makes writing after the
    /// finish impossible to express.
    fn end(self)
        requires
            self.inv(),
    ;
}

/// Serializer for structs.
///
/// This is returned by `ESTreeSerializer::serialize_struct`. It writes
/// the opening brace at construction, each field on demand with its
/// separator and formatting hooks, and the closing brace when consumed by
/// `end`. Fields appear in the output in exactly the order they are
/// written: no reordering is performed.
pub struct ESTreeStructSerializer<'s, F: Formatter> {
    /// The serializer, borrowed exclusively until `end`.
    pub serializer: &'s mut ESTreeSerializer<F>,
    /// State of the struct: same two-state machine as a sequence.
    pub state: SequenceState,
    /// The abstract fields written so far, in call order.
    pub entries: Ghost<Seq<JsonField>>,
    /// The buffer content when this builder was created.
    pub start: Ghost<Seq<u8>>,
    /// The nesting depth at which this struct sits.
    pub d: Ghost<nat>,
}

impl<'s, F: Formatter> ESTreeStructSerializer<'s, F> {
    /// The abstract fields written so far, in call order.
    pub closed spec fn fields(&self) -> Seq<JsonField> {
        self.entries@
    }

    /// The buffer content written before this builder's opening brace.
    pub closed spec fn prefix(&self) -> Seq<u8> {
        self.start@
    }

    /// The nesting depth at which this struct sits.
    pub closed spec fn depth(&self) -> nat {
        self.d@
    }

    /// Create a new struct builder: writes the opening brace.
    pub fn new(serializer: &'s mut ESTreeSerializer<F>) -> (r: Self)
        requires
            old(serializer).wf(),
        ensures
            r.inv(),
            r.fields() == Seq::<JsonField>::empty(),
            r.prefix() == old(serializer).out(),
            r.depth() == old(serializer).depth(),
            *final(serializer) == *final(r.serializer),
    {
        let ghost start = serializer.out();
        let ghost d = serializer.depth();
        serializer.buffer.push_byte('{' as u8);
        let r = ESTreeStructSerializer {
            serializer,
            state: SequenceState::Empty,
            entries: Ghost(Seq::empty()),
            start: Ghost(start),
            d: Ghost(d),
        };
        proof {
            assert((*r.serializer).out() =~= start + seq![('{' as u8)] + Seq::<u8>::empty());
        }
        r
    }
}

impl<'s, F: Formatter> StructSerializer for ESTreeStructSerializer<'s, F> {
    /// The builder's invariant: the buffer holds the prefix, the opening
    /// brace and the rendering of the fields written so far, and the
    /// formatter's depth mirrors whether the builder has entered the
    /// struct.
    closed spec fn inv(&self) -> bool {
        &&& (*self.serializer).wf()
        &&& (*self.serializer).depth() == if self.entries@.len() == 0 {
            self.d@
        } else {
            depth_in(F::mode(), self.d@)
        }
        &&& (self.state == SequenceState::Empty <==> self.entries@.len() == 0)
        &&& (*self.serializer).out() == self.start@ + seq![('{' as u8)] + (if self.entries@.len()
            == 0 {
            Seq::<u8>::empty()
        } else {
            ws(F::mode(), depth_in(F::mode(), self.d@)) + obj_fields_text(
                self.entries@,
                0,
                F::mode(),
                depth_in(F::mode(), self.d@),
            )
        })
    }

    /// Serialize one field: the separator and formatting hook for its
    /// position, the quoted name and colon, the mode's spacing, then the
    /// value's own representation, written through the same serializer.
    #[verifier::rlimit(50)]
    fn serialize_field<T: ESTree>(&mut self, name: &str, value: &T)
        ensures
            final(self).inv(),
            final(self).fields() == old(self).fields().push(
                JsonField { name: name.spec_bytes(), value: value.view_json() },
            ),
            final(self).prefix() == old(self).prefix(),
            final(self).depth() == old(self).depth(),
            *final(old(self).serializer) == *final(final(self).serializer),
    {
        let ghost m = F::mode();
        let ghost d = self.d@;
        let ghost din = depth_in(m, d);
        let ghost entries0 = self.entries@;
        if self.state == SequenceState::Empty {
            self.state = SequenceState::HasEntries;
            self.serializer.formatter.before_first_field(&mut self.serializer.buffer);
        } else {
            self.serializer.buffer.push_byte(',' as u8);
            self.serializer.formatter.before_later_field(&mut self.serializer.buffer);
        }
        self.serializer.buffer.push_byte('"' as u8);
        self.serializer.buffer.push_str(name);
        self.serializer.buffer.push_byte('"' as u8);
        self.serializer.buffer.push_byte(':' as u8);
        self.serializer.formatter.before_field_value(&mut self.serializer.buffer);
        value.serialize(&mut *self.serializer);
        let ghost fld = JsonField { name: name.spec_bytes(), value: value.view_json() };
        self.entries = Ghost(entries0.push(fld));
        proof {
            lemma_obj_fields_text_push(entries0, fld, 0, m, din);
            assert(field_text(fld, m, din) =~= seq![('"' as u8)] + name.spec_bytes() + seq![
                ('"' as u8),
                (':' as u8),
            ] + field_value_sep(m) + text_of(value.view_json(), m, din));
            assert((*self.serializer).out() =~= self.start@ + seq![('{' as u8)] + (ws(m, din)
                + obj_fields_text(entries0.push(fld), 0, m, din)));
        }
    }

    /// Finish serializing the struct: the closing formatting hook if any
    /// field was written, then the closing brace.
    fn end(self)
        ensures
            (*final(self.serializer)).out() == self.prefix() + text_of(
                JsonValue::Obj(self.fields()),
                F::mode(),
                self.depth(),
            ),
            (*final(self.serializer)).depth() == self.depth(),
            (*final(self.serializer)).wf(),
    {
        let mut this = self;
        let ghost m = F::mode();
        let ghost d = this.d@;
        let ghost entries0 = this.entries@;
        if this.state == SequenceState::HasEntries {
            this.serializer.formatter.after_last_field(&mut this.serializer.buffer);
        }
        this.serializer.buffer.push_byte('}' as u8);
        proof {
            lemma_depth_out_in(m, d);
            assert((*this.serializer).out() =~= this.start@ + text_of(JsonValue::Obj(entries0), m, d));
        }
    }
}

} // verus!
