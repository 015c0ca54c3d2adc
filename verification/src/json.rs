//! The mathematical model: an abstract JSON-like tree and the exact text
//! that the serializer produces for it in each layout mode.

use vstd::prelude::*;

verus! {

/// One field of an abstract object: a name and a value.
pub struct JsonField {
    pub name: Seq<u8>,
    pub value: JsonValue,
}

/// An abstract JSON-like tree: the structure one serialization call writes.
///
/// `Atom` holds the literal bytes that a primitive value renders itself
/// as (quotes included, for a string): how primitives encode themselves
/// is the concern of each value, not of the serializer.
pub enum JsonValue {
    Atom(Seq<u8>),
    Arr(Seq<JsonValue>),
    Obj(Seq<JsonField>),
}

/// The two layout modes.
pub enum Mode {
    Compact,
    Pretty,
}

/// Number of spaces of one indentation step in pretty mode.
pub open spec fn indent_unit() -> nat {
    2
}

/// `n` space bytes.
pub open spec fn spaces(n: nat) -> Seq<u8>
    decreases n,
{
    if n == 0 {
        Seq::empty()
    } else {
        spaces((n - 1) as nat) + seq![(' ' as u8)]
    }
}

/// A line break followed by the indentation of nesting depth `d`.
pub open spec fn newline_indent(d: nat) -> Seq<u8> {
    seq![('\n' as u8)] + spaces(d * indent_unit())
}

/// The whitespace a formatter emits at a container boundary when its
/// nesting depth, after any transition the boundary makes, is `d`:
/// nothing in compact mode, a line break plus indentation in pretty mode.
pub open spec fn ws(m: Mode, d: nat) -> Seq<u8> {
    match m {
        Mode::Compact => Seq::empty(),
        Mode::Pretty => newline_indent(d),
    }
}

/// The nesting depth after entering a container at depth `d`.
pub open spec fn depth_in(m: Mode, d: nat) -> nat {
    match m {
        Mode::Compact => d,
        Mode::Pretty => d + 1,
    }
}

/// The nesting depth after leaving a container whose entries sat at
/// depth `d`.
pub open spec fn depth_out(m: Mode, d: nat) -> nat {
    match m {
        Mode::Compact => d,
        Mode::Pretty => if d > 0 {
            (d - 1) as nat
        } else {
            0
        },
    }
}

/// The bytes a formatter emits between a field name's colon and the
/// field's value.
pub open spec fn field_value_sep(m: Mode) -> Seq<u8> {
    match m {
        Mode::Compact => Seq::empty(),
        Mode::Pretty => seq![(' ' as u8)],
    }
}

/// The exact text that serializing `v` appends when `v` is written at
/// nesting depth `d` (for a top-level value, the formatter's depth, 0).
pub open spec fn text_of(v: JsonValue, m: Mode, d: nat) -> Seq<u8>
    decreases v,
{
    match v {
        JsonValue::Atom(s) => s,
        JsonValue::Arr(es) => if es.len() == 0 {
            seq![('[' as u8), (']' as u8)]
        } else {
            seq![('[' as u8)] + ws(m, depth_in(m, d)) + arr_items_text(es, 0, m, depth_in(m, d)) + ws(
                m,
                d,
            ) + seq![(']' as u8)]
        },
        JsonValue::Obj(fs) => if fs.len() == 0 {
            seq![('{' as u8), ('}' as u8)]
        } else {
            seq![('{' as u8)] + ws(m, depth_in(m, d)) + obj_fields_text(fs, 0, m, depth_in(m, d)) + ws(
                m,
                d,
            ) + seq![('}' as u8)]
        },
    }
}

/// The text of elements `i..` of an array whose elements sit at depth
/// `d`, with the separator (comma plus whitespace) before every element
/// but the first of the whole array.
pub open spec fn arr_items_text(es: Seq<JsonValue>, i: int, m: Mode, d: nat) -> Seq<u8>
    decreases es, es.len() - i,
{
    if 0 <= i < es.len() {
        let sep: Seq<u8> = if i > 0 {
            seq![(',' as u8)] + ws(m, d)
        } else {
            Seq::empty()
        };
        sep + text_of(es[i], m, d) + arr_items_text(es, i + 1, m, d)
    } else {
        Seq::empty()
    }
}

/// The text of one field: quoted name, colon, the mode's spacing, value.
pub open spec fn field_text(f: JsonField, m: Mode, d: nat) -> Seq<u8>
    decreases f,
{
    seq![('"' as u8)] + f.name + seq![('"' as u8), (':' as u8)] + field_value_sep(m) + text_of(f.value, m, d)
}

/// The text of fields `i..` of an object whose fields sit at depth `d`,
/// with the separator before every field but the first.
pub open spec fn obj_fields_text(fs: Seq<JsonField>, i: int, m: Mode, d: nat) -> Seq<u8>
    decreases fs, fs.len() - i,
{
    if 0 <= i < fs.len() {
        let sep: Seq<u8> = if i > 0 {
            seq![(',' as u8)] + ws(m, d)
        } else {
            Seq::empty()
        };
        sep + field_text(fs[i], m, d) + obj_fields_text(fs, i + 1, m, d)
    } else {
        Seq::empty()
    }
}

/// Leaving a container returns to exactly the depth at which it was
/// entered, in both modes.
pub proof fn lemma_depth_out_in(m: Mode, d: nat)
    ensures
        depth_out(m, depth_in(m, d)) == d,
{
}

/// Appending one element to an array extends its rendered items by the
/// element's text, with the separator exactly when the element is not
/// the first.
pub proof fn lemma_arr_items_text_push(es: Seq<JsonValue>, v: JsonValue, i: int, m: Mode, d: nat)
    requires
        0 <= i <= es.len(),
    ensures
        arr_items_text(es.push(v), i, m, d) == arr_items_text(es, i, m, d) + (if es.len() > 0 || i
            > 0 {
            seq![(',' as u8)] + ws(m, d)
        } else {
            Seq::<u8>::empty()
        }) + text_of(v, m, d),
    decreases es.len() - i,
{
    let esv = es.push(v);
    if i < es.len() {
        assert(esv[i] == es[i]);
        lemma_arr_items_text_push(es, v, i + 1, m, d);
        assert(arr_items_text(esv, i, m, d) == arr_items_text(es, i, m, d) + (if es.len() > 0 || i
            > 0 {
            seq![(',' as u8)] + ws(m, d)
        } else {
            Seq::<u8>::empty()
        }) + text_of(v, m, d)) by {
            assert(esv.len() - (i + 1) >= 0);
        };
    } else {
        assert(i == es.len());
        assert(esv[i] == v);
        assert(arr_items_text(esv, i + 1, m, d) == Seq::<u8>::empty());
        assert(arr_items_text(es, i, m, d) == Seq::<u8>::empty());
        if i > 0 {
            assert(arr_items_text(esv, i, m, d) =~= Seq::<u8>::empty() + (seq![(',' as u8)] + ws(m, d))
                + text_of(v, m, d));
        } else {
            assert(arr_items_text(esv, i, m, d) =~= Seq::<u8>::empty() + Seq::<u8>::empty()
                + text_of(v, m, d));
        }
    }
}

/// The same, for object fields.
pub proof fn lemma_obj_fields_text_push(fs: Seq<JsonField>, f: JsonField, i: int, m: Mode, d: nat)
    requires
        0 <= i <= fs.len(),
    ensures
        obj_fields_text(fs.push(f), i, m, d) == obj_fields_text(fs, i, m, d) + (if fs.len() > 0 || i
            > 0 {
            seq![(',' as u8)] + ws(m, d)
        } else {
            Seq::<u8>::empty()
        }) + field_text(f, m, d),
    decreases fs.len() - i,
{
    let fsf = fs.push(f);
    if i < fs.len() {
        assert(fsf[i] == fs[i]);
        lemma_obj_fields_text_push(fs, f, i + 1, m, d);
    } else {
        assert(i == fs.len());
        assert(fsf[i] == f);
        assert(obj_fields_text(fsf, i + 1, m, d) == Seq::<u8>::empty());
        assert(obj_fields_text(fs, i, m, d) == Seq::<u8>::empty());
        if i > 0 {
            assert(obj_fields_text(fsf, i, m, d) =~= Seq::<u8>::empty() + (seq![(',' as u8)] + ws(m, d))
                + field_text(f, m, d));
        } else {
            assert(obj_fields_text(fsf, i, m, d) =~= Seq::<u8>::empty() + Seq::<u8>::empty()
                + field_text(f, m, d));
        }
    }
}

} // verus!
