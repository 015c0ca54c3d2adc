//! The sequence builder: writes one ordered, bracketed list, one element
//! at a time.

use vstd::prelude::*;
use crate::estree::ESTree;
use crate::formatter::Formatter;
use crate::json::{arr_items_text, depth_in, lemma_arr_items_text_push, lemma_depth_out_in, text_of,
    ws, JsonValue};
use crate::serializer::ESTreeSerializer;

verus! {

/// State of a sequence builder: no element written yet, or at least one.
/// The transition happens at most once, on the first write, and never
/// reverts.
#[derive(Clone, Copy, PartialEq, Eq, Structural)]
pub enum SequenceState {
    Empty,
    HasEntries,
}

/// Trait for sequence serializers.
pub trait SequenceSerializer: Sized {
    /// The builder is ready to take a write: its bookkeeping agrees with
    /// the state of the serializer it borrows.
    spec fn inv(&self) -> bool;

    /// Serialize one sequence element.
    fn serialize_element<T: ESTree>(&mut self, value: &T)
        requires
            old(self).inv(),
    ;

    /// Finish serializing the sequence: the only point at which the
    /// closing bracket is written. Consuming the builder makes writing
    /// after the finish impossible to express.
    fn end(self)
        requires
            self.inv(),
    ;
}

/// Serializer for sequences.
///
/// This is returned by `ESTreeSerializer::serialize_sequence`. It writes
/// the opening bracket at construction, each element on demand with its
/// separator and formatting hooks, and the closing bracket when consumed
/// by `end`.
pub struct ESTreeSequenceSerializer<'s, F: Formatter> {
    /// The serializer, borrowed exclusively until `end`.
    pub serializer: &'s mut ESTreeSerializer<F>,
    /// State of the sequence.
    pub state: SequenceState,
    /// The abstract elements written so far.
    pub items: Ghost<Seq<JsonValue>>,
    /// The buffer content when this builder was created.
    pub start: Ghost<Seq<u8>>,
    /// The nesting depth at which this sequence sits.
    pub d: Ghost<nat>,
}

impl<'s, F: Formatter> ESTreeSequenceSerializer<'s, F> {
    /// The abstract elements written so far.
    pub closed spec fn elems(&self) -> Seq<JsonValue> {
        self.items@
    }

    /// The buffer content written before this builder's opening bracket.
    pub closed spec fn prefix(&self) -> Seq<u8> {
        self.start@
    }

    /// The nesting depth at which this sequence sits.
    pub closed spec fn depth(&self) -> nat {
        self.d@
    }

    /// Create a new sequence builder: writes the opening bracket.
    pub fn new(serializer: &'s mut ESTreeSerializer<F>) -> (r: Self)
        requires
            old(serializer).wf(),
        ensures
            r.inv(),
            r.elems() == Seq::<JsonValue>::empty(),
            r.prefix() == old(serializer).out(),
            r.depth() == old(serializer).depth(),
            *final(serializer) == *final(r.serializer),
    {
        let ghost start = serializer.out();
        let ghost d = serializer.depth();
        serializer.buffer.push_byte('[' as u8);
        let r = ESTreeSequenceSerializer {
            serializer,
            state: SequenceState::Empty,
            items: Ghost(Seq::empty()),
            start: Ghost(start),
            d: Ghost(d),
        };
        proof {
            assert((*r.serializer).out() =~= start + seq![('[' as u8)] + Seq::<u8>::empty());
        }
        r
    }
}

impl<'s, F: Formatter> SequenceSerializer for ESTreeSequenceSerializer<'s, F> {
    /// The builder's invariant: the buffer holds the prefix, the opening
    /// bracket and the rendering of the elements written so far, and the
    /// formatter's depth mirrors whether the builder has entered the
    /// sequence.
    closed spec fn inv(&self) -> bool {
        &&& (*self.serializer).wf()
        &&& (*self.serializer).depth() == if self.items@.len() == 0 {
            self.d@
        } else {
            depth_in(F::mode(), self.d@)
        }
        &&& (self.state == SequenceState::Empty <==> self.items@.len() == 0)
        &&& (*self.serializer).out() == self.start@ + seq![('[' as u8)] + (if self.items@.len()
            == 0 {
            Seq::<u8>::empty()
        } else {
            ws(F::mode(), depth_in(F::mode(), self.d@)) + arr_items_text(
                self.items@,
                0,
                F::mode(),
                depth_in(F::mode(), self.d@),
            )
        })
    }

    /// Serialize one sequence element: the separator and formatting hook
    /// for its position, then the element's own representation, written
    /// through the same serializer.
    fn serialize_element<T: ESTree>(&mut self, value: &T)
        ensures
            final(self).inv(),
            final(self).elems() == old(self).elems().push(value.view_json()),
            final(self).prefix() == old(self).prefix(),
            final(self).depth() == old(self).depth(),
            *final(old(self).serializer) == *final(final(self).serializer),
    {
        let ghost m = F::mode();
        let ghost d = self.d@;
        let ghost din = depth_in(m, d);
        let ghost items0 = self.items@;
        if self.state == SequenceState::Empty {
            self.state = SequenceState::HasEntries;
            self.serializer.formatter.before_first_element(&mut self.serializer.buffer);
        } else {
            self.serializer.buffer.push_byte(',' as u8);
            self.serializer.formatter.before_later_element(&mut self.serializer.buffer);
        }
        value.serialize(&mut *self.serializer);
        self.items = Ghost(items0.push(value.view_json()));
        proof {
            let v = value.view_json();
            lemma_arr_items_text_push(items0, v, 0, m, din);
            assert((*self.serializer).out() =~= self.start@ + seq![('[' as u8)] + (ws(m, din)
                + arr_items_text(items0.push(v), 0, m, din)));
        }
    }

    /// Finish serializing the sequence: the closing formatting hook if any
    /// element was written, then the closing bracket.
    fn end(self)
        ensures
            (*final(self.serializer)).out() == self.prefix() + text_of(
                JsonValue::Arr(self.elems()),
                F::mode(),
                self.depth(),
            ),
            (*final(self.serializer)).depth() == self.depth(),
            (*final(self.serializer)).wf(),
    {
        let mut this = self;
        let ghost m = F::mode();
        let ghost d = this.d@;
        let ghost items0 = this.items@;
        if this.state == SequenceState::HasEntries {
            this.serializer.formatter.after_last_element(&mut this.serializer.buffer);
        }
        this.serializer.buffer.push_byte(']' as u8);
        proof {
            lemma_depth_out_in(m, d);
            assert((*this.serializer).out() =~= this.start@ + text_of(JsonValue::Arr(items0), m, d));
        }
    }
}

} // verus!
