//! The Chicken virtual machine: one growable stack holding a self-pointer,
//! the user input, the program body and all working data, a program counter
//! naming the next cell to fetch, and the ten instructions. The whole
//! transition relation is stated mathematically by [`spec_step`], and the
//! executable [`VMState::step`] is proved to follow it exactly.

use vstd::prelude::*;
use vstd::string::StrSliceExecFns;
use vstd::string::StringExecFns;

use crate::decode;
use crate::decode::{opcodes_of, to_ints};
use crate::shims;
use crate::value::{
    spec_add, spec_display, spec_eq, spec_mul, spec_sub, spec_to_num, spec_truthy, Value,
    ValueModel,
};

verus! {

/// What went wrong, as a kind a caller can match on.
#[derive(Clone, Copy, Debug, PartialEq, Eq, Structural)]
pub enum ErrorKind {
    /// The fetched cell is not a recognized opcode, or not a number at all.
    InvalidOpcode,
    /// An operand expected to name a stack slot did not, or named none.
    InvalidAddress,
    /// A jump offset did not coerce to a signed integer.
    InvalidOffset,
    /// Adding a jump offset to the program counter left the unsigned range.
    JumpOverflow,
    /// A pop was required but the stack was empty.
    StackUnderflow,
    /// On normal exit the top of the stack was not a string.
    InvalidFinalValue,
    /// The character instruction was given a value with no character.
    InvalidCharacter,
    /// The run gave up after the largest representable number of steps.
    StepLimit,
}

/// The mathematical shape of a [`ChickenError`].
#[verifier::ext_equal]
pub struct ErrModel {
    pub kind: ErrorKind,
    pub pc: nat,
    pub stack: Seq<ValueModel>,
}

/// An error thrown by the interpreter: a human-readable message, the program
/// counter at the point of failure, and a snapshot of the whole stack.
#[derive(Debug, PartialEq)]
pub struct ChickenError {
    /// The error message.
    pub message: String,
    /// The value of the program counter when the error was thrown.
    pub program_counter: usize,
    /// A copy of the stack for debugging purposes.
    pub stack: Vec<Value>,
    /// The kind of failure.
    pub kind: ErrorKind,
}

/// The stack as a sequence of value models.
pub open spec fn stack_model(s: Seq<Value>) -> Seq<ValueModel> {
    s.map_values(|v: Value| v@)
}

impl View for ChickenError {
    type V = ErrModel;

    open spec fn view(&self) -> ErrModel {
        ErrModel { kind: self.kind, pc: self.program_counter as nat, stack: stack_model(self.stack@) }
    }
}

/// The mathematical shape of a [`VMState`].
#[verifier::ext_equal]
pub struct VMModel {
    pub stack: Seq<ValueModel>,
    pub pc: nat,
    pub exited: bool,
    pub debug: bool,
    pub normal_char: bool,
}

/// The state of the Chicken VM.
pub struct VMState {
    /// The stack of the VM.
    pub stack: Vec<Value>,
    /// The program counter: the index of the next cell to fetch.
    pub program_counter: usize,
    /// Whether a front end should single-step this VM.
    pub debug: bool,
    /// Whether the character instruction produces an actual character
    /// instead of an HTML entity string.
    pub normal_char: bool,
    /// Whether this VM has finished execution.
    pub exited: bool,
}

impl View for VMState {
    type V = VMModel;

    open spec fn view(&self) -> VMModel {
        VMModel {
            stack: stack_model(self.stack@),
            pc: self.program_counter as nat,
            exited: self.exited,
            debug: self.debug,
            normal_char: self.normal_char,
        }
    }
}

/// The stack after one pop: one value shorter, or unchanged when empty.
pub open spec fn popped(s: Seq<ValueModel>) -> Seq<ValueModel> {
    if s.len() > 0 {
        s.drop_last()
    } else {
        s
    }
}

/// The popped value: the top of the stack, or `Undefined` when empty.
pub open spec fn top_or_undef(s: Seq<ValueModel>) -> ValueModel {
    if s.len() > 0 {
        s.last()
    } else {
        ValueModel::Undefined
    }
}

/// Coercion of an operand to a stack index: a numeric coercion that yields a
/// non-negative machine number.
pub open spec fn index_of(v: ValueModel) -> Option<int> {
    match spec_to_num(v) {
        ValueModel::Num(n) => if n >= 0 {
            Some(n)
        } else {
            None
        },
        _ => None,
    }
}

/// The program counter advanced by one cell, wrapping at the top of the
/// unsigned range as the machine's counter does.
pub open spec fn pc_next(pc: nat) -> nat {
    if pc + 1 > usize::MAX {
        0
    } else {
        pc + 1
    }
}

/// Whether a number is a Unicode scalar value.
pub open spec fn is_scalar_code(n: int) -> bool {
    0 <= n && (n < 0xD800 || (0xE000 <= n && n <= 0x10FFFF))
}

/// One step of the machine, mathematically: fetch the opcode named by the
/// program counter, advance the counter, dispatch. Every error carries the
/// advanced counter and a snapshot of the stack as it stood at the failure.
pub open spec fn spec_step(m: VMModel) -> Result<VMModel, ErrModel> {
    if m.exited {
        Ok(m)
    } else {
        let pc1 = pc_next(m.pc);
        let s = m.stack;
        if m.pc >= s.len() || !(s[m.pc as int] is Num) {
            Err(ErrModel { kind: ErrorKind::InvalidOpcode, pc: pc1, stack: s })
        } else {
            let op = s[m.pc as int]->Num_0;
            if op == 0 {
                Ok(VMModel { pc: pc1, exited: true, ..m })
            } else if op == 1 {
                Ok(VMModel { pc: pc1, stack: s.push(ValueModel::Str("chicken"@)), ..m })
            } else if op == 2 || op == 3 || op == 4 {
                let b = top_or_undef(s);
                let s1 = popped(s);
                let a = top_or_undef(s1);
                let s2 = popped(s1);
                let rv = if op == 2 {
                    spec_add(a, b)
                } else if op == 3 {
                    spec_sub(a, b)
                } else {
                    spec_mul(a, b)
                };
                Ok(VMModel { pc: pc1, stack: s2.push(rv), ..m })
            } else if op == 5 {
                let cmp = if s.len() == 0 {
                    true
                } else if s.len() == 1 {
                    false
                } else {
                    spec_eq(s.last(), s.drop_last().last())
                };
                let s2 = popped(popped(s));
                let rv = if cmp {
                    ValueModel::True
                } else {
                    ValueModel::False
                };
                Ok(VMModel { pc: pc1, stack: s2.push(rv), ..m })
            } else if op == 6 {
                spec_load(m, pc1)
            } else if op == 7 {
                spec_store(m, pc1)
            } else if op == 8 {
                spec_jump(m, pc1)
            } else if op == 9 {
                spec_char(m, pc1)
            } else if op >= 10 {
                Ok(VMModel { pc: pc1, stack: s.push(ValueModel::Num(op - 10)), ..m })
            } else {
                Err(ErrModel { kind: ErrorKind::InvalidOpcode, pc: pc1, stack: s })
            }
        }
    }
}

/// The double-wide load: the cell after the opcode names an address, the
/// popped value an index into it. Every soft failure pushes `Undefined`.
pub open spec fn spec_load(m: VMModel, pc1: nat) -> Result<VMModel, ErrModel> {
    let s = m.stack;
    let addr_cell = if pc1 < s.len() {
        s[pc1 as int]
    } else {
        ValueModel::Undefined
    };
    let pc2 = pc_next(pc1);
    match index_of(addr_cell) {
        None => Ok(VMModel { pc: pc2, stack: s.push(ValueModel::Undefined), ..m }),
        Some(addr) => {
            let idx_v = top_or_undef(s);
            let s1 = popped(s);
            match index_of(idx_v) {
                None => Ok(VMModel { pc: pc2, stack: s1.push(ValueModel::Undefined), ..m }),
                Some(ix) => {
                    let target = if addr < s1.len() {
                        s1[addr]
                    } else {
                        ValueModel::Undefined
                    };
                    let rv = match target {
                        ValueModel::Str(t) => if ix < t.len() {
                            ValueModel::Str(seq![t[ix]])
                        } else {
                            ValueModel::Undefined
                        },
                        ValueModel::Ptr(p) => if p + ix < s1.len() {
                            s1[p + ix]
                        } else {
                            ValueModel::Undefined
                        },
                        _ => ValueModel::Undefined,
                    };
                    Ok(VMModel { pc: pc2, stack: s1.push(rv), ..m })
                },
            }
        },
    }
}

/// The store: the first pop names the address, the second the value written
/// there. A bad address, a missing value or an out-of-range slot fails.
pub open spec fn spec_store(m: VMModel, pc1: nat) -> Result<VMModel, ErrModel> {
    let s = m.stack;
    if s.len() == 0 {
        Err(ErrModel { kind: ErrorKind::InvalidAddress, pc: pc1, stack: s })
    } else {
        let addr_v = s.last();
        let s1 = s.drop_last();
        match index_of(addr_v) {
            None => Err(ErrModel { kind: ErrorKind::InvalidAddress, pc: pc1, stack: s1 }),
            Some(addr) => {
                if s1.len() == 0 {
                    Err(ErrModel { kind: ErrorKind::StackUnderflow, pc: pc1, stack: s1 })
                } else {
                    let val = s1.last();
                    let s2 = s1.drop_last();
                    if addr < s2.len() {
                        Ok(VMModel { pc: pc1, stack: s2.update(addr, val), ..m })
                    } else {
                        Err(ErrModel { kind: ErrorKind::InvalidAddress, pc: pc1, stack: s2 })
                    }
                }
            },
        }
    }
}

/// The jump: the first pop is a signed relative offset, the second the
/// condition; on a truthy condition the offset is added to the advanced
/// counter, with overflow checked.
pub open spec fn spec_jump(m: VMModel, pc1: nat) -> Result<VMModel, ErrModel> {
    let s = m.stack;
    if s.len() == 0 {
        Err(ErrModel { kind: ErrorKind::InvalidOffset, pc: pc1, stack: s })
    } else {
        let off_v = s.last();
        let s1 = s.drop_last();
        match spec_to_num(off_v) {
            ValueModel::Num(rel) => {
                let cond = top_or_undef(s1);
                let s2 = popped(s1);
                if spec_truthy(cond) {
                    if 0 <= pc1 + rel <= usize::MAX {
                        Ok(VMModel { pc: (pc1 + rel) as nat, stack: s2, ..m })
                    } else {
                        Err(ErrModel { kind: ErrorKind::JumpOverflow, pc: pc1, stack: s2 })
                    }
                } else {
                    Ok(VMModel { pc: pc1, stack: s2, ..m })
                }
            },
            _ => Err(ErrModel { kind: ErrorKind::InvalidOffset, pc: pc1, stack: s1 }),
        }
    }
}

/// The character instruction: by default the popped value's display form is
/// wrapped as an HTML numeric character reference, decoded only on exit;
/// with `normal_char` set the value must name a Unicode scalar, which is
/// pushed as a one-character string.
pub open spec fn spec_char(m: VMModel, pc1: nat) -> Result<VMModel, ErrModel> {
    let s = m.stack;
    let v = top_or_undef(s);
    let s1 = popped(s);
    if m.normal_char {
        match spec_to_num(v) {
            ValueModel::Num(n) => if is_scalar_code(n) {
                Ok(
                    VMModel {
                        pc: pc1,
                        stack: s1.push(ValueModel::Str(seq![shims::char_from_code(n as u32)])),
                        ..m
                    },
                )
            } else {
                Err(ErrModel { kind: ErrorKind::InvalidCharacter, pc: pc1, stack: s1 })
            },
            _ => Err(ErrModel { kind: ErrorKind::InvalidCharacter, pc: pc1, stack: s1 }),
        }
    } else {
        Ok(VMModel { pc: pc1, stack: s1.push(ValueModel::Str("&#"@ + spec_display(v) + ";"@)), ..m })
    }
}

pub proof fn lemma_stack_model_push(s: Seq<Value>, v: Value)
    ensures
        stack_model(s.push(v)) == stack_model(s).push(v@),
{
    assert(stack_model(s.push(v)) =~= stack_model(s).push(v@));
}

pub proof fn lemma_stack_model_drop(s: Seq<Value>)
    requires
        s.len() > 0,
    ensures
        stack_model(s.drop_last()) == stack_model(s).drop_last(),
{
    assert(stack_model(s.drop_last()) =~= stack_model(s).drop_last());
}

pub proof fn lemma_stack_model_update(s: Seq<Value>, i: int, v: Value)
    requires
        0 <= i < s.len(),
    ensures
        stack_model(s.update(i, v)) == stack_model(s).update(i, v@),
{
    assert(stack_model(s.update(i, v)) =~= stack_model(s).update(i, v@));
}

/// Pops the stack, handing back `Undefined` where it was empty.
fn pop_or_undef(stack: &mut Vec<Value>) -> (r: Value)
    ensures
        stack_model(final(stack)@) == popped(stack_model(old(stack)@)),
        r@ == top_or_undef(stack_model(old(stack)@)),
{
    match stack.pop() {
        Some(v) => {
            proof {
                lemma_stack_model_drop(old(stack)@);
            }
            v
        },
        None => Value::Undefined,
    }
}

/// An exact copy of the stack, for error snapshots.
fn snapshot(stack: &Vec<Value>) -> (r: Vec<Value>)
    ensures
        stack_model(r@) == stack_model(stack@),
{
    let mut r: Vec<Value> = Vec::new();
    let n = stack.len();
    let mut i: usize = 0;
    while i < n
        invariant
            n == stack@.len(),
            i <= n,
            r@.len() == i,
            forall|j: int| 0 <= j < i ==> r@[j]@ == stack@[j]@,
        decreases n - i,
    {
        r.push(stack[i].duplicate());
        i = i + 1;
    }
    proof {
        assert(stack_model(r@) =~= stack_model(stack@));
    }
    r
}

impl VMState {
    /// Builds the error value for a failure at the current point.
    fn fail(&self, kind: ErrorKind, message: String) -> (r: ChickenError)
        ensures
            r@ == (ErrModel { kind, pc: self.program_counter as nat, stack: stack_model(self.stack@) }),
    {
        ChickenError {
            message,
            program_counter: self.program_counter,
            stack: snapshot(&self.stack),
            kind,
        }
    }

    /// Runs a single instruction: a no-op once the machine has exited,
    /// otherwise exactly the transition [`spec_step`] describes.
    pub fn step(&mut self) -> (r: Result<(), ChickenError>)
        ensures
            spec_step(old(self)@) is Ok ==> (r is Ok && final(self)@ == spec_step(old(self)@)->Ok_0),
            spec_step(old(self)@) is Err ==> (r is Err && r->Err_0@ == spec_step(old(self)@)->Err_0
                && final(self)@.stack == r->Err_0@.stack && final(self)@.pc == r->Err_0@.pc
                && final(self)@.exited == old(self)@.exited && final(self)@.debug == old(self)@.debug
                && final(self)@.normal_char == old(self)@.normal_char),
    {
        if self.exited {
            return Ok(());
        }
        let pc0 = self.program_counter;
        let op: isize;
        if pc0 < self.stack.len() {
            match &self.stack[pc0] {
                Value::Num(n) => {
                    op = *n;
                },
                _ => {
                    let message = String::from_str("invalid opcode ").concat(
                        self.stack[pc0].to_display_string().as_str(),
                    );
                    self.program_counter = pc0.wrapping_add(1);
                    return Err(self.fail(ErrorKind::InvalidOpcode, message));
                },
            }
        } else {
            self.program_counter = pc0.wrapping_add(1);
            return Err(self.fail(ErrorKind::InvalidOpcode, String::from_str(
                "invalid opcode none",
            )));
        }
        self.program_counter = pc0.wrapping_add(1);
        if op == 0 {
            self.exited = true;
            Ok(())
        } else if op == 1 {
            let v = Value::Str(String::from_str("chicken"));
            proof {
                lemma_stack_model_push(self.stack@, v);
            }
            self.stack.push(v);
            Ok(())
        } else if op == 2 || op == 3 || op == 4 {
            let b = pop_or_undef(&mut self.stack);
            let a = pop_or_undef(&mut self.stack);
            let rv = if op == 2 {
                a.add(b)
            } else if op == 3 {
                a.sub(b)
            } else {
                a.mul(b)
            };
            proof {
                lemma_stack_model_push(self.stack@, rv);
            }
            self.stack.push(rv);
            Ok(())
        } else if op == 5 {
            let opt1 = self.stack.pop();
            let opt2 = self.stack.pop();
            let cmp = match (&opt1, &opt2) {
                (Some(v1), Some(v2)) => v1 == v2,
                (None, None) => true,
                _ => false,
            };
            proof {
                if old(self).stack@.len() > 0 {
                    lemma_stack_model_drop(old(self).stack@);
                    if old(self).stack@.len() > 1 {
                        lemma_stack_model_drop(old(self).stack@.drop_last());
                    }
                }
            }
            let rv = if cmp {
                Value::True
            } else {
                Value::False
            };
            proof {
                lemma_stack_model_push(self.stack@, rv);
            }
            self.stack.push(rv);
            Ok(())
        } else if op == 6 {
            self.step_load()
        } else if op == 7 {
            self.step_store()
        } else if op == 8 {
            self.step_jump()
        } else if op == 9 {
            self.step_char()
        } else if op >= 10 {
            let v = Value::Num(op - 10);
            proof {
                lemma_stack_model_push(self.stack@, v);
            }
            self.stack.push(v);
            Ok(())
        } else {
            Err(self.fail(ErrorKind::InvalidOpcode, String::from_str("invalid opcode ").concat(
                crate::numtext::num_to_string(op).as_str(),
            )))
        }
    }

    /// The load instruction, after the opcode fetch.
    fn step_load(&mut self) -> (r: Result<(), ChickenError>)
        requires
            !old(self).exited,
        ensures
            r is Ok,
            final(self)@ == spec_load(old(self)@, old(self)@.pc)->Ok_0,
    {
        let pc1 = self.program_counter;
        let addr_opt: Option<usize> = if pc1 < self.stack.len() {
            match self.stack[pc1].to_num_option() {
                Some(n) => if n >= 0 {
                    Some(n as usize)
                } else {
                    None
                },
                None => None,
            }
        } else {
            None
        };
        self.program_counter = pc1.wrapping_add(1);
        match addr_opt {
            None => {
                let v = Value::Undefined;
                proof {
                    lemma_stack_model_push(self.stack@, v);
                }
                self.stack.push(v);
                Ok(())
            },
            Some(addr) => {
                let idx = pop_or_undef(&mut self.stack);
                let ix_opt: Option<usize> = match idx.to_num_option() {
                    Some(n) => if n >= 0 {
                        Some(n as usize)
                    } else {
                        None
                    },
                    None => None,
                };
                match ix_opt {
                    None => {
                        let v = Value::Undefined;
                        proof {
                            lemma_stack_model_push(self.stack@, v);
                        }
                        self.stack.push(v);
                        Ok(())
                    },
                    Some(ix) => {
                        let to_push: Value;
                        if addr < self.stack.len() {
                            match &self.stack[addr] {
                                Value::Str(t) => {
                                    let l = t.as_str().unicode_len();
                                    if ix < l {
                                        let c = t.as_str().get_char(ix);
                                        let mut one = String::new();
                                        one.push(c);
                                        to_push = Value::Str(one);
                                    } else {
                                        to_push = Value::Undefined;
                                    }
                                },
                                Value::Ptr(p) => {
                                    let p = *p;
                                    match p.checked_add(ix) {
                                        Some(k) => {
                                            if k < self.stack.len() {
                                                to_push = self.stack[k].duplicate();
                                            } else {
                                                to_push = Value::Undefined;
                                            }
                                        },
                                        None => {
                                            to_push = Value::Undefined;
                                        },
                                    }
                                },
                                _ => {
                                    to_push = Value::Undefined;
                                },
                            }
                        } else {
                            to_push = Value::Undefined;
                        }
                        proof {
                            lemma_stack_model_push(self.stack@, to_push);
                            assert(to_push@ == spec_load(old(self)@, old(self)@.pc)->Ok_0.stack.last());
                        }
                        self.stack.push(to_push);
                        Ok(())
                    },
                }
            },
        }
    }

    /// The store instruction, after the opcode fetch.
    fn step_store(&mut self) -> (r: Result<(), ChickenError>)
        requires
            !old(self).exited,
        ensures
            spec_store(old(self)@, old(self)@.pc) is Ok ==> (r is Ok && final(self)@ == spec_store(
                old(self)@,
                old(self)@.pc,
            )->Ok_0),
            spec_store(old(self)@, old(self)@.pc) is Err ==> (r is Err && r->Err_0@ == spec_store(
                old(self)@,
                old(self)@.pc,
            )->Err_0 && final(self)@.stack == r->Err_0@.stack && final(self)@.pc == r->Err_0@.pc
                && final(self)@.exited == old(self)@.exited && final(self)@.debug == old(self)@.debug
                && final(self)@.normal_char == old(self)@.normal_char),
    {
        let addr_v = match self.stack.pop() {
            Some(v) => v,
            None => {
                return Err(self.fail(ErrorKind::InvalidAddress, String::from_str(
                    "invalid address none",
                )));
            },
        };
        proof {
            lemma_stack_model_drop(old(self).stack@);
        }
        let addr: usize = match addr_v.to_num_option() {
            Some(n) => if n >= 0 {
                n as usize
            } else {
                return Err(self.fail(ErrorKind::InvalidAddress, String::from_str(
                    "invalid address ",
                ).concat(addr_v.to_display_string().as_str())));
            },
            None => {
                return Err(self.fail(ErrorKind::InvalidAddress, String::from_str(
                    "invalid address ",
                ).concat(addr_v.to_display_string().as_str())));
            },
        };
        let val = match self.stack.pop() {
            Some(v) => v,
            None => {
                return Err(self.fail(ErrorKind::StackUnderflow, String::from_str(
                    "no more items in stack",
                )));
            },
        };
        proof {
            lemma_stack_model_drop(old(self).stack@.drop_last());
        }
        if addr < self.stack.len() {
            proof {
                lemma_stack_model_update(self.stack@, addr as int, val);
            }
            self.stack.set(addr, val);
            Ok(())
        } else {
            Err(self.fail(ErrorKind::InvalidAddress, String::from_str(
                "store out of range at ",
            ).concat(addr_v.to_display_string().as_str())))
        }
    }

    /// The jump instruction, after the opcode fetch.
    fn step_jump(&mut self) -> (r: Result<(), ChickenError>)
        requires
            !old(self).exited,
        ensures
            spec_jump(old(self)@, old(self)@.pc) is Ok ==> (r is Ok && final(self)@ == spec_jump(
                old(self)@,
                old(self)@.pc,
            )->Ok_0),
            spec_jump(old(self)@, old(self)@.pc) is Err ==> (r is Err && r->Err_0@ == spec_jump(
                old(self)@,
                old(self)@.pc,
            )->Err_0 && final(self)@.stack == r->Err_0@.stack && final(self)@.pc == r->Err_0@.pc
                && final(self)@.exited == old(self)@.exited && final(self)@.debug == old(self)@.debug
                && final(self)@.normal_char == old(self)@.normal_char),
    {
        let off_v = match self.stack.pop() {
            Some(v) => v,
            None => {
                return Err(self.fail(ErrorKind::InvalidOffset, String::from_str(
                    "invalid relative address none",
                )));
            },
        };
        proof {
            lemma_stack_model_drop(old(self).stack@);
        }
        let rel: isize = match off_v.to_num_option() {
            Some(n) => n,
            None => {
                return Err(self.fail(ErrorKind::InvalidOffset, String::from_str(
                    "invalid relative address ",
                ).concat(off_v.to_display_string().as_str())));
            },
        };
        let cond = pop_or_undef(&mut self.stack);
        if cond.is_truthy() {
            match self.program_counter.checked_add_signed(rel) {
                Some(npc) => {
                    self.program_counter = npc;
                    Ok(())
                },
                None => Err(self.fail(ErrorKind::JumpOverflow, String::from_str(
                    "jump to relative address ",
                ).concat(crate::numtext::num_to_string(rel).as_str()).concat(" overflowed"))),
            }
        } else {
            Ok(())
        }
    }

    /// The character instruction, after the opcode fetch.
    fn step_char(&mut self) -> (r: Result<(), ChickenError>)
        requires
            !old(self).exited,
        ensures
            spec_char(old(self)@, old(self)@.pc) is Ok ==> (r is Ok && final(self)@ == spec_char(
                old(self)@,
                old(self)@.pc,
            )->Ok_0),
            spec_char(old(self)@, old(self)@.pc) is Err ==> (r is Err && r->Err_0@ == spec_char(
                old(self)@,
                old(self)@.pc,
            )->Err_0 && final(self)@.stack == r->Err_0@.stack && final(self)@.pc == r->Err_0@.pc
                && final(self)@.exited == old(self)@.exited && final(self)@.debug == old(self)@.debug
                && final(self)@.normal_char == old(self)@.normal_char),
    {
        let v = pop_or_undef(&mut self.stack);
        if self.normal_char {
            let n: isize = match v.to_num_option() {
                Some(n) => n,
                None => {
                    return Err(self.fail(ErrorKind::InvalidCharacter, v.to_display_string().concat(
                        " not a number",
                    )));
                },
            };
            if n < 0 {
                return Err(self.fail(ErrorKind::InvalidCharacter, v.to_display_string().concat(
                    " not a number",
                )));
            }
            let wide = n as u64;
            if wide > 0xFFFF_FFFF {
                return Err(self.fail(ErrorKind::InvalidCharacter, v.to_display_string().concat(
                    " not a number",
                )));
            }
            let code = wide as u32;
            match char::from_u32(code) {
                Some(c) => {
                    let mut one = String::new();
                    one.push(c);
                    let to_push = Value::Str(one);
                    proof {
                        lemma_stack_model_push(self.stack@, to_push);
                    }
                    self.stack.push(to_push);
                    Ok(())
                },
                None => Err(self.fail(ErrorKind::InvalidCharacter, v.to_display_string().concat(
                    " not a number",
                ))),
            }
        } else {
            let d = v.to_display_string();
            let text = String::from_str("&#").concat(d.as_str()).concat(";");
            let to_push = Value::Str(text);
            proof {
                lemma_stack_model_push(self.stack@, to_push);
                assert(to_push@ == spec_char(old(self)@, old(self)@.pc)->Ok_0.stack.last());
            }
            self.stack.push(to_push);
            Ok(())
        }
    }

    /// Runs the VM until it exits, then pops the final stack value. A string
    /// result has its HTML character references decoded and is handed back;
    /// anything else is an error naming the offending value. The run also
    /// gives up after the largest representable number of steps — but only
    /// where the machine neither exits nor faults within that many steps, so
    /// every halting or faulting program is owed its outcome.
    pub fn run(&mut self) -> (r: Result<String, ChickenError>)
        ensures
            r is Ok ==> exists|n: nat, m: VMModel|
                reaches(old(self)@, m, n) && m.exited && m.stack.len() > 0 && m.stack.last() is Str
                    && r->Ok_0@ == shims::decoded_entities(m.stack.last()->Str_0)
                    && (!m.stack.last()->Str_0.contains('&') ==> !has_numeric_reference(r->Ok_0@))
                    && final(self)@.stack == m.stack.drop_last() && final(self)@.pc == m.pc
                    && final(self)@.exited,
            r is Err ==> r->Err_0@.kind == ErrorKind::StepLimit || exists|n: nat, m: VMModel|
                reaches(old(self)@, m, n) && ((spec_step(m) is Err && spec_step(m)->Err_0 == r->Err_0@)
                    || (m.exited && r->Err_0@.kind == ErrorKind::InvalidFinalValue
                        && !(m.stack.len() > 0 && m.stack.last() is Str)
                        && r->Err_0@.stack == popped(m.stack) && r->Err_0@.pc == m.pc)),
            r is Err && r->Err_0@.kind == ErrorKind::StepLimit ==> (forall|n: nat, m: VMModel|
                n <= usize::MAX && reaches(old(self)@, m, n) ==> !m.exited && (n < usize::MAX
                    ==> spec_step(m) is Ok)),
            r is Err ==> (final(self)@.stack == r->Err_0@.stack && final(self)@.pc == r->Err_0@.pc
                && final(self)@.debug == old(self)@.debug && final(self)@.normal_char == old(
                self,
            )@.normal_char && final(self)@.exited == (r->Err_0@.kind
                == ErrorKind::InvalidFinalValue)),
    {
        let mut fuel: usize = usize::MAX;
        let ghost mut k: nat = 0nat;
        proof {
            assert(reaches(old(self)@, old(self)@, 0nat));
        }
        while !self.exited && fuel > 0
            invariant
                reaches(old(self)@, self@, k),
                k + fuel == usize::MAX,
                self@.debug == old(self)@.debug,
                self@.normal_char == old(self)@.normal_char,
                forall|n: nat, mm: VMModel|
                    n < k && reaches(old(self)@, mm, n) ==> !mm.exited && spec_step(mm) is Ok,
            decreases fuel,
        {
            let ghost pre = self@;
            match self.step() {
                Ok(()) => {
                    proof {
                        lemma_reaches_snoc(old(self)@, pre, k);
                        lemma_step_flags(pre);
                        assert forall|n: nat, mm: VMModel|
                            n < k + 1 && reaches(old(self)@, mm, n) implies !mm.exited
                            && spec_step(mm) is Ok by {
                            if n == k {
                                lemma_reaches_deterministic(old(self)@, mm, pre, n);
                            }
                        }
                        k = k + 1;
                    }
                },
                Err(e) => {
                    proof {
                        lemma_step_err_kind(pre);
                    }
                    return Err(e);
                },
            }
            fuel = fuel - 1;
        }
        if !self.exited {
            proof {
                assert forall|n: nat, mm: VMModel|
                    n <= usize::MAX && reaches(old(self)@, mm, n) implies !mm.exited && (n
                    < usize::MAX ==> spec_step(mm) is Ok) by {
                    if n == usize::MAX {
                        lemma_reaches_deterministic(old(self)@, mm, self@, n);
                    }
                }
            }
            return Err(self.fail(ErrorKind::StepLimit, String::from_str("step budget exhausted")));
        }
        let ghost fin = self@;
        let ghost pre_stack = self.stack@;
        match self.stack.pop() {
            Some(Value::Str(s)) => {
                proof {
                    lemma_stack_model_drop(pre_stack);
                    assert(stack_model(self.stack@) =~= fin.stack.drop_last());
                    assert(fin.stack.last() == ValueModel::Str(s@));
                }
                let out = shims::decode_entities(s.as_str());
                proof {
                    if !s@.contains('&') && has_numeric_reference(out@) {
                        lemma_reference_needs_ampersand(out@);
                    }
                }
                Ok(out)
            },
            other => {
                proof {
                    if fin.stack.len() > 0 {
                        lemma_stack_model_drop(pre_stack);
                    }
                }
                let message = match &other {
                    Some(v) => String::from_str("invalid value ").concat(
                        v.to_display_string().as_str(),
                    ).concat(" on exit"),
                    None => String::from_str("invalid value on exit"),
                };
                proof {
                    assert(stack_model(self.stack@) =~= popped(fin.stack));
                }
                Err(self.fail(ErrorKind::InvalidFinalValue, message))
            },
        }
    }
}

/// A numeric character reference `&#N;` standing at positions `i..=j`, with
/// `N` a non-empty run of decimal digits.
pub open spec fn numeric_reference_at(s: Seq<char>, i: int, j: int) -> bool {
    &&& 0 <= i
    &&& i + 3 <= j < s.len()
    &&& s[i] == '&'
    &&& s[i + 1] == '#'
    &&& s[j] == ';'
    &&& forall|k: int| i + 2 <= k < j ==> crate::numtext::is_digit(s[k])
}

/// Whether the text holds a numeric character reference anywhere.
pub open spec fn has_numeric_reference(s: Seq<char>) -> bool {
    exists|i: int, j: int| #[trigger] numeric_reference_at(s, i, j)
}

/// A numeric character reference begins with an ampersand, so a text without
/// one holds no reference.
pub proof fn lemma_reference_needs_ampersand(s: Seq<char>)
    requires
        has_numeric_reference(s),
    ensures
        s.contains('&'),
{
    let (i, j) = choose|i: int, j: int| #[trigger] numeric_reference_at(s, i, j);
    assert(s[i] == '&');
}

/// The machine `m1` lies `n` steps of successful execution after `m0`.
pub open spec fn reaches(m0: VMModel, m1: VMModel, n: nat) -> bool
    decreases n,
{
    if n == 0 {
        m0 == m1
    } else {
        spec_step(m0) is Ok && reaches(spec_step(m0)->Ok_0, m1, (n - 1) as nat)
    }
}

/// Reachability extends by one successful step at the end.
pub proof fn lemma_reaches_snoc(m0: VMModel, m1: VMModel, n: nat)
    requires
        reaches(m0, m1, n),
        spec_step(m1) is Ok,
    ensures
        reaches(m0, spec_step(m1)->Ok_0, n + 1),
    decreases n,
{
    if n == 0 {
        assert(reaches(spec_step(m1)->Ok_0, spec_step(m1)->Ok_0, 0nat));
    } else {
        lemma_reaches_snoc(spec_step(m0)->Ok_0, m1, (n - 1) as nat);
    }
}

/// Successive steps are a function of the starting machine: two runs of the
/// same length from the same machine end in the same state.
pub proof fn lemma_reaches_deterministic(m0: VMModel, m1: VMModel, m2: VMModel, n: nat)
    requires
        reaches(m0, m1, n),
        reaches(m0, m2, n),
    ensures
        m1 == m2,
    decreases n,
{
    if n > 0 {
        lemma_reaches_deterministic(spec_step(m0)->Ok_0, m1, m2, (n - 1) as nat);
    }
}

/// A successful step never changes the configuration flags.
pub proof fn lemma_step_flags(m: VMModel)
    ensures
        spec_step(m) is Ok ==> (spec_step(m)->Ok_0.debug == m.debug
            && spec_step(m)->Ok_0.normal_char == m.normal_char),
{
}

/// A failing step reports one of the fetch-and-dispatch error kinds, never
/// the final-value or the step-budget kind.
pub proof fn lemma_step_err_kind(m: VMModel)
    ensures
        spec_step(m) is Err ==> (spec_step(m)->Err_0.kind != ErrorKind::InvalidFinalValue
            && spec_step(m)->Err_0.kind != ErrorKind::StepLimit),
{
}

/// The mathematical shape of a [`VMBuilder`].
#[verifier::ext_equal]
pub struct BuilderModel {
    pub opcodes: Seq<int>,
    pub input: ValueModel,
    pub debug: bool,
    pub normal_char: bool,
}

/// Step-by-step construction of a Chicken VM: a program, an optional input
/// value and the two configuration flags.
pub struct VMBuilder {
    opcodes: Vec<isize>,
    input: Value,
    debug: bool,
    normal_char: bool,
}

impl View for VMBuilder {
    type V = BuilderModel;

    closed spec fn view(&self) -> BuilderModel {
        BuilderModel {
            opcodes: to_ints(self.opcodes@),
            input: self.input@,
            debug: self.debug,
            normal_char: self.normal_char,
        }
    }
}

/// The initial machine a builder produces: a self-pointer at the stack base,
/// the input above it, the program body as numbers, a sentinel exit opcode,
/// and the program counter at the start of the body.
pub open spec fn spec_build(b: BuilderModel) -> VMModel {
    VMModel {
        stack: seq![ValueModel::Ptr(0), b.input] + b.opcodes.map_values(|o: int| ValueModel::Num(o))
            + seq![ValueModel::Num(0)],
        pc: 2,
        exited: false,
        debug: b.debug,
        normal_char: b.normal_char,
    }
}

impl VMBuilder {
    /// Starts building a VM from Chicken source text: each line-feed-delimited
    /// line decodes to the count of `chicken` occurrences on it.
    pub fn from_chicken(source: &str) -> (r: Self)
        ensures
            r@ == (BuilderModel {
                opcodes: opcodes_of(source@),
                input: ValueModel::Undefined,
                debug: false,
                normal_char: false,
            }),
    {
        Self::from_opcodes(decode::decode_source(source))
    }

    /// Starts building a VM from the raw opcodes of a Chicken program.
    pub fn from_opcodes(opcodes: Vec<isize>) -> (r: Self)
        ensures
            r@ == (BuilderModel {
                opcodes: to_ints(opcodes@),
                input: ValueModel::Undefined,
                debug: false,
                normal_char: false,
            }),
    {
        VMBuilder { opcodes, input: Value::Undefined, debug: false, normal_char: false }
    }

    /// Sets the debug flag, asking a front end to single-step the program.
    pub fn debug(self) -> (r: Self)
        ensures
            r@ == (BuilderModel { debug: true, ..self@ }),
    {
        VMBuilder { debug: true, ..self }
    }

    /// Sets the value of the debug flag.
    pub fn set_debug(self, debug: bool) -> (r: Self)
        ensures
            r@ == (BuilderModel { debug, ..self@ }),
    {
        VMBuilder { debug, ..self }
    }

    /// Sets the normal-character flag: the character instruction then pushes
    /// an actual character instead of an HTML entity.
    pub fn normal_char(self) -> (r: Self)
        ensures
            r@ == (BuilderModel { normal_char: true, ..self@ }),
    {
        VMBuilder { normal_char: true, ..self }
    }

    /// Sets the value of the normal-character flag.
    pub fn set_normal_char(self, normal_char: bool) -> (r: Self)
        ensures
            r@ == (BuilderModel { normal_char, ..self@ }),
    {
        VMBuilder { normal_char, ..self }
    }

    /// Passes the given input value to the VM; it will sit at stack index 1.
    pub fn input(self, input: Value) -> (r: Self)
        ensures
            r@ == (BuilderModel { input: input@, ..self@ }),
    {
        VMBuilder { input, ..self }
    }

    /// Lays out the initial stack and hands over a runnable machine.
    pub fn build(self) -> (vm: VMState)
        ensures
            vm@ == spec_build(self@),
    {
        let ghost bm = self@;
        let VMBuilder { opcodes, input, debug, normal_char } = self;
        let ghost inm = input@;
        let mut stack: Vec<Value> = Vec::new();
        stack.push(Value::Ptr(0));
        stack.push(input);
        let n = opcodes.len();
        let mut i: usize = 0;
        while i < n
            invariant
                n == opcodes@.len(),
                i <= n,
                stack@.len() == 2 + i,
                stack_model(stack@) =~= seq![ValueModel::Ptr(0), inm] + to_ints(
                    opcodes@.subrange(0, i as int),
                ).map_values(|o: int| ValueModel::Num(o)),
            decreases n - i,
        {
            let v = Value::Num(opcodes[i]);
            proof {
                lemma_stack_model_push(stack@, v);
                assert(to_ints(opcodes@.subrange(0, i + 1)).map_values(
                    |o: int| ValueModel::Num(o),
                ) =~= to_ints(opcodes@.subrange(0, i as int)).map_values(
                    |o: int| ValueModel::Num(o),
                ).push(ValueModel::Num(opcodes@[i as int] as int)));
            }
            stack.push(v);
            i = i + 1;
        }
        let sentinel = Value::Num(0);
        proof {
            lemma_stack_model_push(stack@, sentinel);
        }
        stack.push(sentinel);
        let vm = VMState { stack, program_counter: 2, debug, normal_char, exited: false };
        proof {
            assert(opcodes@.subrange(0, opcodes@.len() as int) =~= opcodes@);
            assert(vm@.stack =~= spec_build(bm).stack);
            assert(vm@ =~= spec_build(bm));
        }
        vm
    }
}

} // verus!
