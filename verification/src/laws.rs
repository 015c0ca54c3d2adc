//! Laws of the output text, proved over the rendering specification that
//! the serializer's contracts are stated against.

use vstd::prelude::*;
use crate::formatter::lemma_spaces_len;
use crate::json::{arr_items_text, depth_in, depth_out, field_text, field_value_sep, indent_unit,
    newline_indent, obj_fields_text, spaces, text_of, ws, JsonField, JsonValue, Mode};

verus! {

/// An empty sequence or struct renders as exactly `[]` or `{}` in both
/// layout modes: no interior whitespace, never expanded across lines.
pub proof fn lemma_empty_containers(m: Mode, d: nat)
    ensures
        text_of(JsonValue::Arr(Seq::empty()), m, d) == seq![('[' as u8), (']' as u8)],
        text_of(JsonValue::Obj(Seq::empty()), m, d) == seq![('{' as u8), ('}' as u8)],
{
}

/// The number of comma bytes in `s`.
pub open spec fn comma_count(s: Seq<u8>) -> nat
    decreases s.len(),
{
    if s.len() == 0 {
        0
    } else {
        comma_count(s.drop_last()) + (if s.last() == (',' as u8) {
            1nat
        } else {
            0nat
        })
    }
}

/// The comma count of a one-byte text.
pub proof fn lemma_comma_count_single(b: u8)
    ensures
        comma_count(seq![b]) == (if b == (',' as u8) {
            1nat
        } else {
            0nat
        }),
{
    let s = seq![b];
    assert(s.last() == b);
    assert(s.drop_last() =~= Seq::<u8>::empty());
    assert(comma_count(Seq::<u8>::empty()) == 0);
    assert(comma_count(s) == comma_count(s.drop_last()) + (if s.last() == (',' as u8) {
        1nat
    } else {
        0nat
    }));
}

/// Comma counting distributes over concatenation.
pub proof fn lemma_comma_count_add(a: Seq<u8>, b: Seq<u8>)
    ensures
        comma_count(a + b) == comma_count(a) + comma_count(b),
    decreases b.len(),
{
    if b.len() == 0 {
        assert(a + b =~= a);
    } else {
        assert((a + b).drop_last() =~= a + b.drop_last());
        assert((a + b).last() == b.last());
        lemma_comma_count_add(a, b.drop_last());
    }
}

/// The whitespace a formatter emits never contains a comma.
pub proof fn lemma_ws_no_comma(m: Mode, d: nat)
    ensures
        comma_count(ws(m, d)) == 0,
{
    lemma_spaces_no_comma(d * indent_unit());
    match m {
        Mode::Compact => {},
        Mode::Pretty => {
            lemma_comma_count_add(seq![('\n' as u8)], spaces(d * indent_unit()));
            lemma_comma_count_single('\n' as u8);
        },
    }
}

/// Indentation never contains a comma.
pub proof fn lemma_spaces_no_comma(n: nat)
    ensures
        comma_count(spaces(n)) == 0,
    decreases n,
{
    if n > 0 {
        lemma_spaces_no_comma((n - 1) as nat);
        lemma_comma_count_add(spaces((n - 1) as nat), seq![(' ' as u8)]);
        lemma_comma_count_single(' ' as u8);
    }
}

/// The total comma count of the texts of elements `i..`, each rendered on
/// its own.
pub open spec fn elems_comma_sum(es: Seq<JsonValue>, i: int, m: Mode, d: nat) -> nat
    decreases es, es.len() - i,
{
    if 0 <= i < es.len() {
        comma_count(text_of(es[i], m, d)) + elems_comma_sum(es, i + 1, m, d)
    } else {
        0
    }
}

/// The rendered items of a sequence carry exactly one separating comma
/// before each element after the first, besides the commas inside the
/// elements themselves.
proof fn lemma_items_commas(es: Seq<JsonValue>, i: int, m: Mode, d: nat)
    requires
        0 <= i <= es.len(),
    ensures
        comma_count(arr_items_text(es, i, m, d)) == elems_comma_sum(es, i, m, d) + (if i > 0 {
            es.len() - i
        } else if es.len() > 0 {
            es.len() - 1
        } else {
            0
        }),
    decreases es.len() - i,
{
    if i < es.len() {
        lemma_items_commas(es, i + 1, m, d);
        let sep: Seq<u8> = if i > 0 {
            seq![(',' as u8)] + ws(m, d)
        } else {
            Seq::<u8>::empty()
        };
        if i > 0 {
            lemma_ws_no_comma(m, d);
            lemma_comma_count_add(seq![(',' as u8)], ws(m, d));
            lemma_comma_count_single(',' as u8);
        }
        lemma_comma_count_add(sep, text_of(es[i], m, d));
        lemma_comma_count_add(sep + text_of(es[i], m, d), arr_items_text(es, i + 1, m, d));
    }
}

/// For any sequence of `n >= 0` values, the output begins with `[`, ends
/// with `]`, and contains exactly `n - 1` top-level separating commas:
/// its comma count exceeds the sum of its elements' own comma counts by
/// exactly `n - 1`.
pub proof fn lemma_sequence_shape(es: Seq<JsonValue>, m: Mode, d: nat)
    ensures
        text_of(JsonValue::Arr(es), m, d).len() >= 2,
        text_of(JsonValue::Arr(es), m, d).first() == ('[' as u8),
        text_of(JsonValue::Arr(es), m, d).last() == (']' as u8),
        es.len() == 0 ==> comma_count(text_of(JsonValue::Arr(es), m, d)) == 0,
        es.len() > 0 ==> comma_count(text_of(JsonValue::Arr(es), m, d)) == (es.len() - 1)
            + elems_comma_sum(es, 0, m, depth_in(m, d)),
{
    let t = text_of(JsonValue::Arr(es), m, d);
    if es.len() == 0 {
        assert(t =~= seq![('[' as u8)] + seq![(']' as u8)]);
        lemma_comma_count_add(seq![('[' as u8)], seq![(']' as u8)]);
        lemma_comma_count_single('[' as u8);
        lemma_comma_count_single(']' as u8);
    } else {
        let din = depth_in(m, d);
        let body = seq![('[' as u8)] + ws(m, din) + arr_items_text(es, 0, m, din) + ws(m, d);
        assert(t == body + seq![(']' as u8)]);
        assert(t.first() == ('[' as u8));
        assert(t.last() == (']' as u8));
        lemma_items_commas(es, 0, m, din);
        lemma_ws_no_comma(m, din);
        lemma_ws_no_comma(m, d);
        lemma_comma_count_single('[' as u8);
        lemma_comma_count_single(']' as u8);
        lemma_comma_count_add(seq![('[' as u8)], ws(m, din));
        lemma_comma_count_add(seq![('[' as u8)] + ws(m, din), arr_items_text(es, 0, m, din));
        lemma_comma_count_add(seq![('[' as u8)] + ws(m, din) + arr_items_text(es, 0, m, din), ws(m, d));
        lemma_comma_count_add(body, seq![(']' as u8)]);
    }
}

/// Pretty-mode indentation grows by exactly one fixed unit per nesting
/// level on entry, and the matching close returns to exactly the
/// enclosing level's indentation.
pub proof fn lemma_pretty_indentation(d: nat)
    ensures
        depth_in(Mode::Pretty, d) == d + 1,
        depth_out(Mode::Pretty, depth_in(Mode::Pretty, d)) == d,
        ws(Mode::Pretty, d) == seq![('\n' as u8)] + spaces(d * indent_unit()),
        ws(Mode::Pretty, d + 1).len() == ws(Mode::Pretty, d).len() + indent_unit(),
{
    lemma_spaces_len(d * indent_unit());
    lemma_spaces_len((d + 1) * indent_unit());
    assert((d + 1) * indent_unit() == d * indent_unit() + indent_unit());
}

/// Compact output carries no whitespace of its own: every separator the
/// compact formatter emits is empty.
pub proof fn lemma_compact_no_whitespace(d: nat)
    ensures
        ws(Mode::Compact, d) == Seq::<u8>::empty(),
        depth_in(Mode::Compact, d) == d,
        depth_out(Mode::Compact, d) == d,
{
}

/// A byte the formatters emit as whitespace.
pub open spec fn is_ws_byte(b: u8) -> bool {
    b == (' ' as u8) || b == ('\n' as u8)
}

/// Whether a byte toggles the inside-a-string-literal state.
pub open spec fn next_q(b: u8, inq: bool) -> bool {
    if b == ('"' as u8) {
        !inq
    } else {
        inq
    }
}

/// `s` with every whitespace byte outside string literals removed, when
/// scanning starts with the inside-a-literal state `inq`.
pub open spec fn strip_q(s: Seq<u8>, inq: bool) -> Seq<u8>
    decreases s.len(),
{
    if s.len() == 0 {
        Seq::empty()
    } else {
        let b = s.first();
        let rest = strip_q(s.drop_first(), next_q(b, inq));
        if !inq && is_ws_byte(b) {
            rest
        } else {
            seq![b] + rest
        }
    }
}

/// The inside-a-literal state after scanning `s` from state `inq`.
pub open spec fn q_after(s: Seq<u8>, inq: bool) -> bool
    decreases s.len(),
{
    if s.len() == 0 {
        inq
    } else {
        q_after(s.drop_first(), next_q(s.first(), inq))
    }
}

/// `s` with every whitespace byte outside string literals removed: what a
/// reader that ignores such whitespace sees of `s`.
pub open spec fn strip(s: Seq<u8>) -> Seq<u8> {
    strip_q(s, false)
}

/// Stripping and the literal state distribute over concatenation.
pub proof fn lemma_strip_append(a: Seq<u8>, b: Seq<u8>, q: bool)
    ensures
        strip_q(a + b, q) == strip_q(a, q) + strip_q(b, q_after(a, q)),
        q_after(a + b, q) == q_after(b, q_after(a, q)),
    decreases a.len(),
{
    if a.len() == 0 {
        assert(a + b =~= b);
        assert(strip_q(a, q) + strip_q(b, q) =~= strip_q(b, q));
    } else {
        assert((a + b).first() == a.first());
        assert((a + b).drop_first() =~= a.drop_first() + b);
        lemma_strip_append(a.drop_first(), b, next_q(a.first(), q));
        if !q && is_ws_byte(a.first()) {
        } else {
            assert(seq![a.first()] + (strip_q(a.drop_first(), next_q(a.first(), q)) + strip_q(
                b,
                q_after(a, q),
            )) =~= (seq![a.first()] + strip_q(a.drop_first(), next_q(a.first(), q))) + strip_q(
                b,
                q_after(a, q),
            ));
        }
    }
}

/// A text with no quote and no whitespace passes through stripping
/// unchanged and leaves the literal state alone.
pub proof fn lemma_strip_plain(s: Seq<u8>, q: bool)
    requires
        forall|i: int| 0 <= i < s.len() ==> s[i] != ('"' as u8) && !is_ws_byte(s[i]),
    ensures
        strip_q(s, q) == s,
        q_after(s, q) == q,
    decreases s.len(),
{
    if s.len() > 0 {
        lemma_strip_plain(s.drop_first(), q);
        assert(seq![s.first()] + s.drop_first() =~= s);
    }
}

/// Inside a string literal every byte up to the closing quote is kept.
pub proof fn lemma_strip_quoted(s: Seq<u8>, q: bool)
    requires
        forall|i: int| 0 <= i < s.len() ==> s[i] != ('"' as u8),
        q,
    ensures
        strip_q(s, q) == s,
        q_after(s, q) == q,
    decreases s.len(),
{
    if s.len() > 0 {
        lemma_strip_quoted(s.drop_first(), q);
        assert(seq![s.first()] + s.drop_first() =~= s);
    }
}

/// The whitespace a formatter emits strips away entirely.
pub proof fn lemma_strip_ws(m: Mode, d: nat, q: bool)
    requires
        !q,
    ensures
        strip_q(ws(m, d), q) == Seq::<u8>::empty(),
        q_after(ws(m, d), q) == q,
{
    match m {
        Mode::Compact => {},
        Mode::Pretty => {
            lemma_spaces_all_ws(d * indent_unit());
            assert forall|i: int| 0 <= i < newline_indent(d).len() implies is_ws_byte(
                #[trigger] newline_indent(d)[i],
            ) by {
                if i == 0 {
                    assert(newline_indent(d)[0] == ('\n' as u8));
                } else {
                    assert(newline_indent(d)[i] == spaces(d * indent_unit())[i - 1]);
                }
            }
            lemma_strip_ws_run(newline_indent(d), q);
        },
    }
}

/// A run of whitespace bytes strips away entirely outside a literal.
pub proof fn lemma_strip_ws_run(s: Seq<u8>, q: bool)
    requires
        forall|i: int| 0 <= i < s.len() ==> is_ws_byte(s[i]),
        !q,
    ensures
        strip_q(s, q) == Seq::<u8>::empty(),
        q_after(s, q) == q,
    decreases s.len(),
{
    if s.len() > 0 {
        lemma_strip_ws_run(s.drop_first(), q);
    }
}

/// Indentation is made of whitespace bytes only.
pub proof fn lemma_spaces_all_ws(n: nat)
    ensures
        forall|i: int| 0 <= i < spaces(n).len() ==> is_ws_byte(#[trigger] spaces(n)[i]),
    decreases n,
{
    if n > 0 {
        lemma_spaces_all_ws((n - 1) as nat);
        assert forall|i: int| 0 <= i < spaces(n).len() implies is_ws_byte(#[trigger] spaces(n)[i]) by {
            if i < spaces(n).len() - 1 {
                assert(spaces(n)[i] == spaces((n - 1) as nat)[i]);
            } else {
                assert(spaces(n)[i] == (' ' as u8));
            }
        }
    }
}

/// A well-formed atom: either a bare literal free of quotes and
/// whitespace, or a quoted literal whose interior is free of quotes. The
/// serializer writes atoms as they stand, so only such atoms read back as
/// one token.
pub open spec fn atom_wf(s: Seq<u8>) -> bool {
    ||| (forall|i: int| 0 <= i < s.len() ==> s[i] != ('"' as u8) && !is_ws_byte(s[i]))
    ||| (s.len() >= 2 && s.first() == ('"' as u8) && s.last() == ('"' as u8) && (forall|i: int|
        0 < i < s.len() - 1 ==> s[i] != ('"' as u8)))
}

/// A well-formed tree: every atom is well formed and every field name is
/// free of quote bytes.
pub open spec fn json_wf(v: JsonValue) -> bool
    decreases v,
{
    match v {
        JsonValue::Atom(s) => atom_wf(s),
        JsonValue::Arr(es) => arr_wf(es, 0),
        JsonValue::Obj(fs) => obj_wf(fs, 0),
    }
}

/// Elements `i..` are all well formed.
pub open spec fn arr_wf(es: Seq<JsonValue>, i: int) -> bool
    decreases es, es.len() - i,
{
    if 0 <= i < es.len() {
        json_wf(es[i]) && arr_wf(es, i + 1)
    } else {
        true
    }
}

/// Fields `i..` are all well formed.
pub open spec fn obj_wf(fs: Seq<JsonField>, i: int) -> bool
    decreases fs, fs.len() - i,
{
    if 0 <= i < fs.len() {
        &&& (forall|j: int| 0 <= j < fs[i].name.len() ==> fs[i].name[j] != ('"' as u8))
        &&& json_wf(fs[i].value)
        &&& obj_wf(fs, i + 1)
    } else {
        true
    }
}

/// Stripping one byte keeps it unless it is whitespace outside a
/// literal, and advances the literal state by that byte.
pub proof fn lemma_strip_single(b: u8, q: bool)
    ensures
        strip_q(seq![b], q) == (if !q && is_ws_byte(b) {
            Seq::<u8>::empty()
        } else {
            seq![b]
        }),
        q_after(seq![b], q) == next_q(b, q),
{
    let s = seq![b];
    assert(s.first() == b);
    assert(s.drop_first() =~= Seq::<u8>::empty());
    assert(strip_q(Seq::<u8>::empty(), next_q(b, q)) == Seq::<u8>::empty());
    assert(q_after(Seq::<u8>::empty(), next_q(b, q)) == next_q(b, q));
    if !(!q && is_ws_byte(b)) {
        assert(strip_q(s, q) == seq![b] + strip_q(Seq::<u8>::empty(), next_q(b, q)));
        assert(seq![b] + Seq::<u8>::empty() =~= seq![b]);
    }
}

/// A well-formed atom passes through stripping unchanged and leaves the
/// literal state closed.
pub proof fn lemma_strip_atom(s: Seq<u8>, q: bool)
    requires
        atom_wf(s),
        !q,
    ensures
        strip_q(s, q) == s,
        q_after(s, q) == q,
{
    let qb = '"' as u8;
    if forall|i: int| 0 <= i < s.len() ==> s[i] != ('"' as u8) && !is_ws_byte(s[i]) {
        lemma_strip_plain(s, q);
    } else {
        let mid = s.subrange(1, s.len() - 1);
        assert(forall|j: int| 0 <= j < mid.len() ==> mid[j] != ('"' as u8)) by {
            assert forall|j: int| 0 <= j < mid.len() implies mid[j] != ('"' as u8) by {
                assert(mid[j] == s[j + 1]);
            }
        }
        let tail = mid + seq![qb];
        lemma_strip_single(qb, false);
        lemma_strip_single(qb, true);
        lemma_strip_quoted(mid, true);
        lemma_strip_append(mid, seq![qb], true);
        lemma_strip_append(seq![qb], tail, false);
        assert(seq![qb] + tail =~= s);
        assert(strip_q(s, false) == strip_q(seq![qb], false) + (strip_q(mid, true) + strip_q(
            seq![qb],
            true,
        )));
        assert(seq![qb] + (mid + seq![qb]) =~= s);
    }
}

/// A quote byte followed by a colon, scanned from inside a literal:
/// closes the literal and keeps both bytes.
proof fn lemma_strip_quote_colon()
    ensures
        strip_q(seq![('"' as u8), (':' as u8)], true) == seq![('"' as u8), (':' as u8)],
        q_after(seq![('"' as u8), (':' as u8)], true) == false,
{
    let qb = '"' as u8;
    let cl = ':' as u8;
    lemma_strip_single(qb, true);
    lemma_strip_single(cl, false);
    lemma_strip_append(seq![qb], seq![cl], true);
    assert(seq![qb] + seq![cl] =~= seq![qb, cl]);
    assert(seq![qb] + seq![cl] =~= strip_q(seq![qb] + seq![cl], true));
}

/// The spacing after a field colon strips away entirely.
proof fn lemma_strip_field_value_sep(m: Mode)
    ensures
        strip_q(field_value_sep(m), false) == Seq::<u8>::empty(),
        q_after(field_value_sep(m), false) == false,
{
    match m {
        Mode::Compact => {},
        Mode::Pretty => {
            lemma_strip_single(' ' as u8, false);
        },
    }
}

/// Stripping the formatters' whitespace from the text of a well-formed
/// tree in either mode yields the compact text, at any pair of depths.
pub proof fn lemma_strip_text(v: JsonValue, m: Mode, dp: nat, dc: nat)
    requires
        json_wf(v),
    ensures
        strip_q(text_of(v, m, dp), false) == text_of(v, Mode::Compact, dc),
        q_after(text_of(v, m, dp), false) == false,
    decreases v,
{
    match v {
        JsonValue::Atom(a) => {
            lemma_strip_atom(a, false);
        },
        JsonValue::Arr(es) => {
            if es.len() == 0 {
                lemma_strip_single('[' as u8, false);
                lemma_strip_single(']' as u8, false);
                lemma_strip_append(seq![('[' as u8)], seq![(']' as u8)], false);
                assert(seq![('[' as u8)] + seq![(']' as u8)] =~= seq![('[' as u8), (']' as u8)]);
                assert(strip_q(seq![('[' as u8)] + seq![(']' as u8)], false) =~= seq![
                    ('[' as u8),
                    (']' as u8),
                ]);
            } else {
                let din_p = depth_in(m, dp);
                let din_c = depth_in(Mode::Compact, dc);
                let items_p = arr_items_text(es, 0, m, din_p);
                let items_c = arr_items_text(es, 0, Mode::Compact, din_c);
                lemma_strip_items(es, 0, m, din_p, din_c);
                lemma_strip_single('[' as u8, false);
                lemma_strip_single(']' as u8, false);
                lemma_strip_ws(m, din_p, false);
                lemma_strip_ws(m, dp, false);
                let p1 = seq![('[' as u8)] + ws(m, din_p);
                lemma_strip_append(seq![('[' as u8)], ws(m, din_p), false);
                assert(strip_q(p1, false) =~= seq![('[' as u8)]);
                let p2 = p1 + items_p;
                lemma_strip_append(p1, items_p, false);
                let p3 = p2 + ws(m, dp);
                lemma_strip_append(p2, ws(m, dp), false);
                assert(strip_q(p3, false) =~= seq![('[' as u8)] + items_c);
                let p4 = p3 + seq![(']' as u8)];
                lemma_strip_append(p3, seq![(']' as u8)], false);
                assert(p4 == text_of(v, m, dp));
                assert(strip_q(p4, false) =~= seq![('[' as u8)] + items_c + seq![(']' as u8)]);
                assert(text_of(v, Mode::Compact, dc) =~= seq![('[' as u8)] + items_c + seq![
                    (']' as u8),
                ]);
            }
        },
        JsonValue::Obj(fs) => {
            if fs.len() == 0 {
                lemma_strip_single('{' as u8, false);
                lemma_strip_single('}' as u8, false);
                lemma_strip_append(seq![('{' as u8)], seq![('}' as u8)], false);
                assert(seq![('{' as u8)] + seq![('}' as u8)] =~= seq![('{' as u8), ('}' as u8)]);
                assert(strip_q(seq![('{' as u8)] + seq![('}' as u8)], false) =~= seq![
                    ('{' as u8),
                    ('}' as u8),
                ]);
            } else {
                let din_p = depth_in(m, dp);
                let din_c = depth_in(Mode::Compact, dc);
                let items_p = obj_fields_text(fs, 0, m, din_p);
                let items_c = obj_fields_text(fs, 0, Mode::Compact, din_c);
                lemma_strip_fields(fs, 0, m, din_p, din_c);
                lemma_strip_single('{' as u8, false);
                lemma_strip_single('}' as u8, false);
                lemma_strip_ws(m, din_p, false);
                lemma_strip_ws(m, dp, false);
                let p1 = seq![('{' as u8)] + ws(m, din_p);
                lemma_strip_append(seq![('{' as u8)], ws(m, din_p), false);
                assert(strip_q(p1, false) =~= seq![('{' as u8)]);
                let p2 = p1 + items_p;
                lemma_strip_append(p1, items_p, false);
                let p3 = p2 + ws(m, dp);
                lemma_strip_append(p2, ws(m, dp), false);
                assert(strip_q(p3, false) =~= seq![('{' as u8)] + items_c);
                let p4 = p3 + seq![('}' as u8)];
                lemma_strip_append(p3, seq![('}' as u8)], false);
                assert(p4 == text_of(v, m, dp));
                assert(strip_q(p4, false) =~= seq![('{' as u8)] + items_c + seq![('}' as u8)]);
                assert(text_of(v, Mode::Compact, dc) =~= seq![('{' as u8)] + items_c + seq![
                    ('}' as u8),
                ]);
            }
        },
    }
}

/// The same, for the items of a sequence.
proof fn lemma_strip_items(es: Seq<JsonValue>, i: int, m: Mode, dp: nat, dc: nat)
    requires
        0 <= i <= es.len(),
        arr_wf(es, i),
    ensures
        strip_q(arr_items_text(es, i, m, dp), false) == arr_items_text(es, i, Mode::Compact, dc),
        q_after(arr_items_text(es, i, m, dp), false) == false,
    decreases es, es.len() - i,
{
    if i < es.len() {
        lemma_strip_text(es[i], m, dp, dc);
        lemma_strip_items(es, i + 1, m, dp, dc);
        let sep_p: Seq<u8> = if i > 0 {
            seq![(',' as u8)] + ws(m, dp)
        } else {
            Seq::<u8>::empty()
        };
        let sep_c: Seq<u8> = if i > 0 {
            seq![(',' as u8)] + ws(Mode::Compact, dc)
        } else {
            Seq::<u8>::empty()
        };
        if i > 0 {
            lemma_strip_single(',' as u8, false);
            lemma_strip_ws(m, dp, false);
            lemma_strip_append(seq![(',' as u8)], ws(m, dp), false);
            assert(strip_q(sep_p, false) =~= sep_c);
        }
        let t_p = text_of(es[i], m, dp);
        let t_c = text_of(es[i], Mode::Compact, dc);
        let p1 = sep_p + t_p;
        lemma_strip_append(sep_p, t_p, false);
        assert(strip_q(p1, false) =~= sep_c + t_c);
        let p2 = p1 + arr_items_text(es, i + 1, m, dp);
        lemma_strip_append(p1, arr_items_text(es, i + 1, m, dp), false);
        assert(p2 == arr_items_text(es, i, m, dp));
        assert(strip_q(p2, false) =~= sep_c + t_c + arr_items_text(es, i + 1, Mode::Compact, dc));
    }
}

/// The same, for one field: name, colon, spacing and value.
proof fn lemma_strip_field(f: JsonField, m: Mode, dp: nat, dc: nat)
    requires
        forall|j: int| 0 <= j < f.name.len() ==> f.name[j] != ('"' as u8),
        json_wf(f.value),
    ensures
        strip_q(field_text(f, m, dp), false) == field_text(f, Mode::Compact, dc),
        q_after(field_text(f, m, dp), false) == false,
    decreases f,
{
    let qb = '"' as u8;
    lemma_strip_text(f.value, m, dp, dc);
    lemma_strip_single(qb, false);
    lemma_strip_quoted(f.name, true);
    lemma_strip_quote_colon();
    lemma_strip_field_value_sep(m);
    let p1 = seq![qb] + f.name;
    lemma_strip_append(seq![qb], f.name, false);
    assert(strip_q(p1, false) =~= p1);
    let p2 = p1 + seq![qb, (':' as u8)];
    lemma_strip_append(p1, seq![qb, (':' as u8)], false);
    assert(strip_q(p2, false) =~= p2);
    let p3 = p2 + field_value_sep(m);
    lemma_strip_append(p2, field_value_sep(m), false);
    assert(strip_q(p3, false) =~= p2);
    let p4 = p3 + text_of(f.value, m, dp);
    lemma_strip_append(p3, text_of(f.value, m, dp), false);
    assert(p4 == field_text(f, m, dp));
    assert(strip_q(p4, false) =~= p2 + text_of(f.value, Mode::Compact, dc));
    assert(field_text(f, Mode::Compact, dc) =~= p2 + text_of(f.value, Mode::Compact, dc));
}

/// The same, for the fields of a struct.
proof fn lemma_strip_fields(fs: Seq<JsonField>, i: int, m: Mode, dp: nat, dc: nat)
    requires
        0 <= i <= fs.len(),
        obj_wf(fs, i),
    ensures
        strip_q(obj_fields_text(fs, i, m, dp), false) == obj_fields_text(fs, i, Mode::Compact, dc),
        q_after(obj_fields_text(fs, i, m, dp), false) == false,
    decreases fs, fs.len() - i,
{
    if i < fs.len() {
        lemma_strip_field(fs[i], m, dp, dc);
        lemma_strip_fields(fs, i + 1, m, dp, dc);
        let sep_p: Seq<u8> = if i > 0 {
            seq![(',' as u8)] + ws(m, dp)
        } else {
            Seq::<u8>::empty()
        };
        let sep_c: Seq<u8> = if i > 0 {
            seq![(',' as u8)] + ws(Mode::Compact, dc)
        } else {
            Seq::<u8>::empty()
        };
        if i > 0 {
            lemma_strip_single(',' as u8, false);
            lemma_strip_ws(m, dp, false);
            lemma_strip_append(seq![(',' as u8)], ws(m, dp), false);
            assert(strip_q(sep_p, false) =~= sep_c);
        }
        let t_p = field_text(fs[i], m, dp);
        let t_c = field_text(fs[i], Mode::Compact, dc);
        let p1 = sep_p + t_p;
        lemma_strip_append(sep_p, t_p, false);
        assert(strip_q(p1, false) =~= sep_c + t_c);
        let p2 = p1 + obj_fields_text(fs, i + 1, m, dp);
        lemma_strip_append(p1, obj_fields_text(fs, i + 1, m, dp), false);
        assert(p2 == obj_fields_text(fs, i, m, dp));
        assert(strip_q(p2, false) =~= sep_c + t_c + obj_fields_text(fs, i + 1, Mode::Compact, dc));
    }
}

/// Re-reading the compact output and the pretty output of one well-formed
/// tree with a reader that ignores whitespace outside string literals
/// yields the same text: the two renderings differ only in the whitespace
/// the pretty formatter inserts.
pub proof fn lemma_modes_agree_after_strip(v: JsonValue, d: nat)
    requires
        json_wf(v),
    ensures
        strip(text_of(v, Mode::Pretty, d)) == text_of(v, Mode::Compact, d),
        strip(text_of(v, Mode::Compact, d)) == text_of(v, Mode::Compact, d),
{
    lemma_strip_text(v, Mode::Pretty, d, d);
    lemma_strip_text(v, Mode::Compact, d, d);
}

/// The tree a string value writes is well formed whenever the string's
/// bytes hold no quote byte: its quoted rendering reads back as one
/// string literal.
pub proof fn lemma_quoted_atom_wf(bytes: Seq<u8>)
    requires
        forall|i: int| 0 <= i < bytes.len() ==> bytes[i] != ('"' as u8),
    ensures
        atom_wf(seq![('"' as u8)] + bytes + seq![('"' as u8)]),
{
    let a = seq![('"' as u8)] + bytes + seq![('"' as u8)];
    assert(a.first() == ('"' as u8));
    assert(a.last() == ('"' as u8));
    assert forall|i: int| 0 < i < a.len() - 1 implies a[i] != ('"' as u8) by {
        assert(a[i] == bytes[i - 1]);
    }
}

/// A sequence of well-formed trees makes a well-formed sequence tree.
pub proof fn lemma_arr_wf(es: Seq<JsonValue>, i: int)
    requires
        0 <= i <= es.len(),
        forall|j: int| 0 <= j < es.len() ==> json_wf(#[trigger] es[j]),
    ensures
        arr_wf(es, i),
    decreases es.len() - i,
{
    if i < es.len() {
        lemma_arr_wf(es, i + 1);
    }
}

/// Well-formed values under quote-free names make a well-formed object
/// tree.
pub proof fn lemma_obj_wf(fs: Seq<JsonField>, i: int)
    requires
        0 <= i <= fs.len(),
        forall|j: int, k: int|
            0 <= j < fs.len() && 0 <= k < fs[j].name.len() ==> #[trigger] fs[j].name[k] != (
            '"' as u8),
        forall|j: int| 0 <= j < fs.len() ==> json_wf(#[trigger] fs[j].value),
    ensures
        obj_wf(fs, i),
    decreases fs.len() - i,
{
    if i < fs.len() {
        lemma_obj_wf(fs, i + 1);
    }
}

} // verus!
