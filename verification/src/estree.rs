//! The serializable-value capability: every participating value writes
//! its own complete representation through a given serializer.

use vstd::prelude::*;
use vstd::string::StringSliceAdditionalSpecFns;
use crate::formatter::Formatter;
use crate::json::{text_of, JsonValue};
use crate::sequences::{ESTreeSequenceSerializer, SequenceSerializer};
use crate::serializer::ESTreeSerializer;

verus! {

/// The uniform serialization operation. A value's abstract tree is its
/// `view_json`; `serialize` appends exactly that tree's text in the
/// serializer's layout mode at the serializer's current depth, leaving
/// the depth as it found it.
pub trait ESTree {
    /// The abstract tree this value writes.
    spec fn view_json(&self) -> JsonValue;

    /// Write this value's complete representation through `serializer`.
    fn serialize<F: Formatter>(&self, serializer: &mut ESTreeSerializer<F>)
        requires
            old(serializer).wf(),
        ensures
            final(serializer).wf(),
            final(serializer).depth() == old(serializer).depth(),
            final(serializer).out() == old(serializer).out() + text_of(
                self.view_json(),
                F::mode(),
                old(serializer).depth(),
            ),
    ;
}

/// [`ESTree`] implementation for strings: a quoted literal. The content
/// is written as it stands; a value whose text needs escaping is expected
/// to render itself.
impl<'a> ESTree for &'a str {
    open spec fn view_json(&self) -> JsonValue {
        JsonValue::Atom(seq![('"' as u8)] + self.spec_bytes() + seq![('"' as u8)])
    }

    fn serialize<F: Formatter>(&self, serializer: &mut ESTreeSerializer<F>) {
        serializer.buffer.push_byte('"' as u8);
        serializer.buffer.push_str(self);
        serializer.buffer.push_byte('"' as u8);
        proof {
            assert(serializer.out() =~= old(serializer).out() + (seq![('"' as u8)]
                + self.spec_bytes() + seq![('"' as u8)]));
        }
    }
}

/// [`ESTree`] implementation for booleans.
impl ESTree for bool {
    open spec fn view_json(&self) -> JsonValue {
        if *self {
            JsonValue::Atom("true".spec_bytes())
        } else {
            JsonValue::Atom("false".spec_bytes())
        }
    }

    fn serialize<F: Formatter>(&self, serializer: &mut ESTreeSerializer<F>) {
        if *self {
            serializer.buffer.push_str("true");
        } else {
            serializer.buffer.push_str("false");
        }
    }
}

/// The abstract trees of a sequence of values, in order.
pub open spec fn views_of<T: ESTree>(s: Seq<T>) -> Seq<JsonValue> {
    s.map_values(|t: T| t.view_json())
}

/// Write every element of a slice, in order, into an open sequence
/// builder.
fn serialize_slice_elems<'s, T: ESTree, F: Formatter>(
    seq: &mut ESTreeSequenceSerializer<'s, F>,
    elems: &[T],
)
    requires
        old(seq).inv(),
    ensures
        final(seq).inv(),
        final(seq).elems() == old(seq).elems() + views_of(elems@),
        final(seq).prefix() == old(seq).prefix(),
        final(seq).depth() == old(seq).depth(),
        *final(old(seq).serializer) == *final(final(seq).serializer),
{
    let mut i: usize = 0;
    while i < elems.len()
        invariant
            i <= elems@.len(),
            seq.inv(),
            seq.elems() == old(seq).elems() + views_of(elems@.subrange(0, i as int)),
            seq.prefix() == old(seq).prefix(),
            seq.depth() == old(seq).depth(),
            *final(seq.serializer) == *final(old(seq).serializer),
        decreases elems@.len() - i,
    {
        seq.serialize_element(&elems[i]);
        proof {
            assert(views_of(elems@.subrange(0, i as int + 1)) =~= views_of(
                elems@.subrange(0, i as int),
            ).push(elems@[i as int].view_json()));
            assert(old(seq).elems() + views_of(elems@.subrange(0, i as int + 1)) =~= (old(
                seq,
            ).elems() + views_of(elems@.subrange(0, i as int))).push(elems@[i as int].view_json()));
        }
        i += 1;
    }
    proof {
        assert(elems@.subrange(0, elems@.len() as int) =~= elems@);
    }
}

/// [`ESTree`] implementation for slices: a sequence of the elements in
/// order.
impl<'a, T: ESTree> ESTree for &'a [T] {
    open spec fn view_json(&self) -> JsonValue {
        JsonValue::Arr(views_of(self@))
    }

    fn serialize<F: Formatter>(&self, serializer: &mut ESTreeSerializer<F>) {
        let mut seq = ESTreeSequenceSerializer::new(serializer);
        serialize_slice_elems(&mut seq, self);
        seq.end();
        proof {
            assert(Seq::<JsonValue>::empty() + views_of(self@) =~= views_of(self@));
        }
    }
}

/// [`ESTree`] implementation for vectors: a sequence of the elements in
/// order.
impl<T: ESTree> ESTree for Vec<T> {
    open spec fn view_json(&self) -> JsonValue {
        JsonValue::Arr(views_of(self@))
    }

    fn serialize<F: Formatter>(&self, serializer: &mut ESTreeSerializer<F>) {
        let mut seq = ESTreeSequenceSerializer::new(serializer);
        serialize_slice_elems(&mut seq, self.as_slice());
        seq.end();
        proof {
            assert(Seq::<JsonValue>::empty() + views_of(self@) =~= views_of(self@));
        }
    }
}

/// [`ESTree`] implementation for arrays: a sequence of the elements in
/// order.
impl<T: ESTree, const N: usize> ESTree for [T; N] {
    open spec fn view_json(&self) -> JsonValue {
        JsonValue::Arr(views_of(self@))
    }

    fn serialize<F: Formatter>(&self, serializer: &mut ESTreeSerializer<F>) {
        let mut seq = ESTreeSequenceSerializer::new(serializer);
        serialize_slice_elems(&mut seq, self.as_slice());
        seq.end();
        proof {
            assert(Seq::<JsonValue>::empty() + views_of(self@) =~= views_of(self@));
        }
    }
}

} // verus!
