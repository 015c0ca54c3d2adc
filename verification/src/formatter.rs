//! The layout strategies: a trait of lifecycle hooks that builders invoke
//! around element and field boundaries, with a compact and a pretty
//! implementation.

use vstd::prelude::*;
use crate::buffer::CodeBuffer;
use crate::json::{depth_in, depth_out, field_value_sep, indent_unit, newline_indent, spaces, ws,
    Mode};

verus! {

/// `spaces(n)` has exactly `n` bytes.
pub proof fn lemma_spaces_len(n: nat)
    ensures
        spaces(n).len() == n,
    decreases n,
{
    if n > 0 {
        lemma_spaces_len((n - 1) as nat);
    }
}

/// A layout strategy. Its hooks are invoked by the sequence and struct
/// builders around element and field boundaries and may append whitespace
/// to the buffer; the depth they track is shared by every builder of one
/// serialization call.
///
/// Each hook's contract pins down the exact bytes it appends — `ws` of
/// the mode at the depth the hook transitions to — and the exact depth
/// transition it makes, so the builders' contracts follow for either
/// mode from one proof.
pub trait Formatter: Sized {
    /// The layout this formatter produces.
    spec fn mode() -> Mode;

    /// The current nesting depth.
    spec fn depth(&self) -> nat;

    /// The formatter's internal consistency.
    spec fn wf(&self) -> bool;

    /// Called before the first element of a sequence: enters one nesting
    /// level.
    fn before_first_element(&mut self, buffer: &mut CodeBuffer)
        requires
            old(self).wf(),
        ensures
            final(self).wf(),
            final(self).depth() == depth_in(Self::mode(), old(self).depth()),
            final(buffer)@ == old(buffer)@ + ws(
                Self::mode(),
                depth_in(Self::mode(), old(self).depth()),
            ),
    ;

    /// Called after the comma before every later element of a sequence.
    fn before_later_element(&mut self, buffer: &mut CodeBuffer)
        requires
            old(self).wf(),
        ensures
            final(self).wf(),
            final(self).depth() == old(self).depth(),
            final(buffer)@ == old(buffer)@ + ws(Self::mode(), old(self).depth()),
    ;

    /// Called before the closing bracket of a non-empty sequence: leaves
    /// one nesting level.
    fn after_last_element(&mut self, buffer: &mut CodeBuffer)
        requires
            old(self).wf(),
        ensures
            final(self).wf(),
            final(self).depth() == depth_out(Self::mode(), old(self).depth()),
            final(buffer)@ == old(buffer)@ + ws(
                Self::mode(),
                depth_out(Self::mode(), old(self).depth()),
            ),
    ;

    /// Called before the first field of a struct: enters one nesting
    /// level.
    fn before_first_field(&mut self, buffer: &mut CodeBuffer)
        requires
            old(self).wf(),
        ensures
            final(self).wf(),
            final(self).depth() == depth_in(Self::mode(), old(self).depth()),
            final(buffer)@ == old(buffer)@ + ws(
                Self::mode(),
                depth_in(Self::mode(), old(self).depth()),
            ),
    ;

    /// Called after the comma before every later field of a struct.
    fn before_later_field(&mut self, buffer: &mut CodeBuffer)
        requires
            old(self).wf(),
        ensures
            final(self).wf(),
            final(self).depth() == old(self).depth(),
            final(buffer)@ == old(buffer)@ + ws(Self::mode(), old(self).depth()),
    ;

    /// Called before the closing brace of a non-empty struct: leaves one
    /// nesting level.
    fn after_last_field(&mut self, buffer: &mut CodeBuffer)
        requires
            old(self).wf(),
        ensures
            final(self).wf(),
            final(self).depth() == depth_out(Self::mode(), old(self).depth()),
            final(buffer)@ == old(buffer)@ + ws(
                Self::mode(),
                depth_out(Self::mode(), old(self).depth()),
            ),
    ;

    /// Called between a field name's colon and the field's value.
    fn before_field_value(&mut self, buffer: &mut CodeBuffer)
        requires
            old(self).wf(),
        ensures
            final(self).wf(),
            final(self).depth() == old(self).depth(),
            final(buffer)@ == old(buffer)@ + field_value_sep(Self::mode()),
    ;
}

/// The compact layout: every hook is a no-op, so the output carries no
/// whitespace beyond the structural commas and colons.
pub struct CompactFormatter;

impl CompactFormatter {
    /// Create a compact formatter.
    pub fn new() -> (r: Self)
        ensures
            r.wf(),
            r.depth() == 0,
    {
        CompactFormatter
    }
}

impl Formatter for CompactFormatter {
    closed spec fn mode() -> Mode {
        Mode::Compact
    }

    closed spec fn depth(&self) -> nat {
        0
    }

    closed spec fn wf(&self) -> bool {
        true
    }

    fn before_first_element(&mut self, buffer: &mut CodeBuffer) {
        proof {
            assert(buffer@ =~= buffer@ + ws(Mode::Compact, depth_in(Mode::Compact, 0)));
        }
    }

    fn before_later_element(&mut self, buffer: &mut CodeBuffer) {
        proof {
            assert(buffer@ =~= buffer@ + ws(Mode::Compact, 0));
        }
    }

    fn after_last_element(&mut self, buffer: &mut CodeBuffer) {
        proof {
            assert(buffer@ =~= buffer@ + ws(Mode::Compact, depth_out(Mode::Compact, 0)));
        }
    }

    fn before_first_field(&mut self, buffer: &mut CodeBuffer) {
        proof {
            assert(buffer@ =~= buffer@ + ws(Mode::Compact, depth_in(Mode::Compact, 0)));
        }
    }

    fn before_later_field(&mut self, buffer: &mut CodeBuffer) {
        proof {
            assert(buffer@ =~= buffer@ + ws(Mode::Compact, 0));
        }
    }

    fn after_last_field(&mut self, buffer: &mut CodeBuffer) {
        proof {
            assert(buffer@ =~= buffer@ + ws(Mode::Compact, depth_out(Mode::Compact, 0)));
        }
    }

    fn before_field_value(&mut self, buffer: &mut CodeBuffer) {
        proof {
            assert(buffer@ =~= buffer@ + field_value_sep(Mode::Compact));
        }
    }
}

/// The pretty layout: one fixed indentation unit per nesting level, a
/// line break after every opening token of a non-empty container, before
/// its closing token, and after every separating comma, plus one space
/// after every field name's colon.
///
/// The current indentation is cached as the literal bytes to emit; the
/// nesting depth is that cache's length in indentation units.
pub struct PrettyFormatter {
    indent: Vec<u8>,
}

impl PrettyFormatter {
    /// Create a pretty formatter at depth zero.
    pub fn new() -> (r: Self)
        ensures
            r.wf(),
            r.depth() == 0,
    {
        PrettyFormatter { indent: Vec::new() }
    }

    /// One step in and one step out of a nesting level, shared by the
    /// element and field hooks.
    fn enter(&mut self)
        requires
            old(self).wf(),
        ensures
            final(self).wf(),
            final(self).depth() == old(self).depth() + 1,
    {
        proof {
            lemma_spaces_len(self.depth() * indent_unit());
        }
        self.indent.push(' ' as u8);
        self.indent.push(' ' as u8);
        proof {
            let d = old(self).depth();
            assert(spaces((d + 1) * indent_unit()) =~= spaces(d * indent_unit()).push(
                ' ' as u8,
            ).push(' ' as u8)) by {
                assert((d + 1) * indent_unit() == d * indent_unit() + 2);
                assert(spaces(d * indent_unit() + 2) == spaces(d * indent_unit() + 1) + seq![
                    ' ' as u8,
                ]);
                assert(spaces(d * indent_unit() + 1) == spaces(d * indent_unit()) + seq![' ' as u8]);
            }
            lemma_spaces_len((d + 1) * indent_unit());
            assert(self.indent@.len() == (d + 1) * indent_unit());
            assert(self.depth() == ((d + 1) * indent_unit()) / indent_unit());
            assert(((d + 1) * indent_unit()) / indent_unit() == d + 1) by (nonlinear_arith)
                requires
                    indent_unit() == 2,
            ;
        }
    }

    /// Leave a nesting level, if inside one.
    fn leave(&mut self)
        requires
            old(self).wf(),
        ensures
            final(self).wf(),
            final(self).depth() == if old(self).depth() > 0 {
                old(self).depth() - 1
            } else {
                0
            },
    {
        proof {
            lemma_spaces_len(self.depth() * indent_unit());
        }
        let _ = self.indent.pop();
        let _ = self.indent.pop();
        proof {
            let d = old(self).depth();
            if d > 0 {
                assert(old(self).indent@.len() == d * indent_unit());
                assert(d * indent_unit() >= 2) by (nonlinear_arith)
                    requires
                        d >= 1,
                        indent_unit() == 2,
                ;
                assert(spaces(d * indent_unit()) == spaces((d * indent_unit() - 1) as nat) + seq![
                    ' ' as u8,
                ]);
                assert(spaces((d * indent_unit() - 1) as nat) == spaces(
                    (d * indent_unit() - 2) as nat,
                ) + seq![' ' as u8]);
                lemma_spaces_len((d * indent_unit() - 1) as nat);
                lemma_spaces_len((d * indent_unit() - 2) as nat);
                assert(self.indent@ =~= spaces((d * indent_unit() - 2) as nat));
                assert((d - 1) * indent_unit() == d * indent_unit() - 2);
                assert(((d - 1) as nat * indent_unit()) / indent_unit() == d - 1)
                    by (nonlinear_arith)
                    requires
                        d >= 1,
                        indent_unit() == 2,
                ;
            } else {
                assert(old(self).indent@.len() == 0) by {
                    lemma_spaces_len(0);
                }
            }
        }
    }

    /// Emit a line break and the current indentation.
    fn break_line(&mut self, buffer: &mut CodeBuffer)
        requires
            old(self).wf(),
        ensures
            *final(self) == *old(self),
            final(buffer)@ == old(buffer)@ + newline_indent(old(self).depth()),
    {
        buffer.push_byte('\n' as u8);
        buffer.push_bytes(self.indent.as_slice());
        proof {
            assert(old(buffer)@.push('\n' as u8) + self.indent@ =~= old(buffer)@ + newline_indent(
                self.depth(),
            ));
        }
    }
}

impl Formatter for PrettyFormatter {
    closed spec fn mode() -> Mode {
        Mode::Pretty
    }

    closed spec fn depth(&self) -> nat {
        self.indent@.len() / indent_unit()
    }

    closed spec fn wf(&self) -> bool {
        self.indent@ == spaces(self.depth() * indent_unit())
    }

    fn before_first_element(&mut self, buffer: &mut CodeBuffer) {
        self.enter();
        self.break_line(buffer);
    }

    fn before_later_element(&mut self, buffer: &mut CodeBuffer) {
        self.break_line(buffer);
    }

    fn after_last_element(&mut self, buffer: &mut CodeBuffer) {
        self.leave();
        self.break_line(buffer);
    }

    fn before_first_field(&mut self, buffer: &mut CodeBuffer) {
        self.enter();
        self.break_line(buffer);
    }

    fn before_later_field(&mut self, buffer: &mut CodeBuffer) {
        self.break_line(buffer);
    }

    fn after_last_field(&mut self, buffer: &mut CodeBuffer) {
        self.leave();
        self.break_line(buffer);
    }

    fn before_field_value(&mut self, buffer: &mut CodeBuffer) {
        buffer.push_byte(' ' as u8);
        proof {
            assert(old(buffer)@.push(' ' as u8) =~= old(buffer)@ + field_value_sep(Mode::Pretty));
        }
    }
}

} // verus!
