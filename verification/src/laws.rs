//! The general laws of the interpreter, stated and proved once and for all
//! inputs: decoder line counting, the fetch guard on the program counter,
//! the string bias of addition, the deliberate equality quirks, truthiness
//! of numbers, and the idempotence of stepping an exited machine.

use vstd::prelude::*;

use crate::decode::{line_len, opcodes_of};
use crate::value::{spec_add, spec_eq, spec_truthy, ValueModel};
use crate::vm::{spec_build, spec_step, BuilderModel, ErrorKind, VMModel};

verus! {

/// The number of line feeds in a text.
pub open spec fn newline_count(s: Seq<char>) -> nat
    decreases s.len(),
{
    if s.len() == 0 {
        0
    } else {
        (if s[0] == '\n' {
            1nat
        } else {
            0nat
        }) + newline_count(s.skip(1))
    }
}

proof fn lemma_line_len_props(s: Seq<char>)
    ensures
        line_len(s) <= s.len(),
        forall|j: int| 0 <= j < line_len(s) ==> s[j] != '\n',
        line_len(s) < s.len() ==> s[line_len(s) as int] == '\n',
    decreases s.len(),
{
    if s.len() > 0 && s[0] != '\n' {
        lemma_line_len_props(s.skip(1));
        assert forall|j: int| 0 <= j < line_len(s) implies s[j] != '\n' by {
            if j > 0 {
                assert(s.skip(1)[j - 1] == s[j]);
            }
        }
        if line_len(s) < s.len() {
            assert(s.skip(1)[line_len(s) - 1] == s[line_len(s) as int]);
        }
    }
}

proof fn lemma_no_newline_count(s: Seq<char>)
    requires
        forall|j: int| 0 <= j < s.len() ==> s[j] != '\n',
    ensures
        newline_count(s) == 0,
    decreases s.len(),
{
    if s.len() > 0 {
        assert forall|j: int| 0 <= j < s.skip(1).len() implies s.skip(1)[j] != '\n' by {
            assert(s.skip(1)[j] == s[j + 1]);
        }
        lemma_no_newline_count(s.skip(1));
    }
}

proof fn lemma_newline_count_split(s: Seq<char>, e: int)
    requires
        0 <= e < s.len(),
        s[e] == '\n',
        forall|j: int| 0 <= j < e ==> s[j] != '\n',
    ensures
        newline_count(s) == 1 + newline_count(s.skip(e + 1)),
    decreases e,
{
    if e == 0 {
        assert(s.skip(1) =~= s.skip(e + 1));
    } else {
        let u = s.skip(1);
        assert forall|j: int| 0 <= j < e - 1 implies u[j] != '\n' by {
            assert(u[j] == s[j + 1]);
        }
        assert(u[e - 1] == s[e]);
        lemma_newline_count_split(u, e - 1);
        assert(u.skip(e) =~= s.skip(e + 1));
    }
}

/// After decoding, the opcode vector has exactly one opcode per
/// line-feed-delimited line of the source.
pub proof fn lemma_decode_line_count(s: Seq<char>)
    ensures
        opcodes_of(s).len() == newline_count(s) + 1,
    decreases s.len(),
{
    lemma_line_len_props(s);
    let e = line_len(s) as int;
    if e == s.len() {
        lemma_no_newline_count(s);
    } else {
        lemma_newline_count_split(s, e);
        lemma_decode_line_count(s.skip(e + 1));
    }
}

/// A freshly built machine starts with its program counter inside the stack.
pub proof fn lemma_build_pc_in_range(b: BuilderModel)
    ensures
        spec_build(b).pc < spec_build(b).stack.len(),
        !spec_build(b).exited,
{
}

/// Before each step, either the machine has exited, or the program counter
/// names a stack cell, or the step is caught at once by the fall-off-end
/// error path.
pub proof fn lemma_pc_in_range_or_caught(m: VMModel)
    ensures
        m.exited || m.pc < m.stack.len() || (spec_step(m) is Err && spec_step(m)->Err_0.kind
            == ErrorKind::InvalidOpcode),
{
}

/// Addition yields a string exactly when one side is a string; otherwise it
/// yields a number or `NaN`.
pub proof fn lemma_add_string_biased(a: ValueModel, b: ValueModel)
    ensures
        (spec_add(a, b) is Str) <==> (a is Str || b is Str),
        !(a is Str || b is Str) ==> (spec_add(a, b) is Num || spec_add(a, b) is NaN),
{
}

/// `NaN` equals `NaN` and `Undefined` equals `Undefined`, and neither equals
/// anything else, in either position.
pub proof fn lemma_nan_undefined_equality()
    ensures
        spec_eq(ValueModel::NaN, ValueModel::NaN),
        spec_eq(ValueModel::Undefined, ValueModel::Undefined),
        forall|v: ValueModel| #[trigger] spec_eq(ValueModel::NaN, v) ==> v is NaN,
        forall|v: ValueModel| #[trigger] spec_eq(v, ValueModel::NaN) ==> v is NaN,
        forall|v: ValueModel| #[trigger] spec_eq(ValueModel::Undefined, v) ==> v is Undefined,
        forall|v: ValueModel| #[trigger] spec_eq(v, ValueModel::Undefined) ==> v is Undefined,
{
}

/// A number is truthy exactly when it is positive: zero and every negative
/// number are falsy.
pub proof fn lemma_truthy_num(n: int)
    ensures
        spec_truthy(ValueModel::Num(n)) == (n > 0),
{
}

/// Stepping a machine that has exited changes nothing: re-running is safe.
pub proof fn lemma_step_exited(m: VMModel)
    requires
        m.exited,
    ensures
        spec_step(m) == Ok::<VMModel, crate::vm::ErrModel>(m),
{
}

} // verus!
