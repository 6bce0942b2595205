//! Larger Chicken programs, assembled opcode by opcode: a Deadfish
//! interpreter and the counting-down chickens program.

use chicken::value::Value;
use chicken::vm::VMBuilder;

/// A tiny assembler for Chicken opcode programs with labelled jumps.
struct Asm {
    ops: Vec<isize>,
    labels: Vec<(String, usize)>,
    fixups: Vec<(usize, String)>,
}

impl Asm {
    fn new() -> Self {
        Asm { ops: Vec::new(), labels: Vec::new(), fixups: Vec::new() }
    }

    /// Emits one raw cell.
    fn raw(&mut self, n: isize) {
        self.ops.push(n);
    }

    /// Pushes a non-negative literal (opcode `n + 10`).
    fn push_num(&mut self, n: isize) {
        assert!(n >= 0);
        self.raw(n + 10);
    }

    fn label(&mut self, name: &str) {
        self.labels.push((name.to_string(), self.ops.len()));
    }

    /// Jumps to the label when the value below the offset is truthy. The
    /// offset is the difference of two literals so that it can be negative;
    /// the four cells are patched on assembly.
    fn jump_if(&mut self, target: &str) {
        self.fixups.push((self.ops.len(), target.to_string()));
        self.raw(10);
        self.raw(10);
        self.raw(3);
        self.raw(8);
    }

    /// Unconditional jump: a truthy constant, then the conditional jump.
    fn jump(&mut self, target: &str) {
        self.push_num(1);
        self.jump_if(target);
    }

    /// Pushes the value of the stack cell at the given address, through the
    /// self-pointer at address zero.
    fn load_var(&mut self, addr: usize) {
        self.push_num(addr as isize);
        self.raw(6);
        self.raw(0);
    }

    /// Pops a value and stores it into the stack cell at the given address.
    fn store_var(&mut self, addr: usize) {
        self.push_num(addr as isize);
        self.raw(7);
    }

    /// Pushes the one-character string at the given index of the string held
    /// in the given stack cell.
    fn load_char_of(&mut self, cell: usize, idx: isize) {
        self.push_num(idx);
        self.raw(6);
        self.raw(cell as isize);
    }

    /// Pushes `Undefined` by loading from a far out-of-range address.
    fn push_undefined(&mut self) {
        self.push_num(0);
        self.raw(6);
        self.raw(99999);
    }

    /// Pushes the entity string of a space character.
    fn push_space(&mut self) {
        self.push_num(32);
        self.raw(9);
    }

    /// Pushes the entity string of a line feed.
    fn push_newline(&mut self) {
        self.push_num(10);
        self.raw(9);
    }

    /// Reserves cells for variables behind a jump, handing back their stack
    /// addresses (each cell address is its opcode index plus two).
    fn alloc_vars(&mut self, count: usize) -> Vec<usize> {
        self.jump("after_vars");
        let mut addrs = Vec::new();
        for _ in 0..count {
            addrs.push(self.ops.len() + 2);
            self.raw(0);
        }
        self.label("after_vars");
        addrs
    }

    fn assemble(mut self) -> Vec<isize> {
        for (b, target) in &self.fixups {
            let t = self
                .labels
                .iter()
                .find(|(name, _)| name == target)
                .map(|(_, idx)| *idx)
                .unwrap();
            let off = t as isize - (*b as isize + 4);
            if off >= 0 {
                self.ops[*b] = off + 10;
                self.ops[*b + 1] = 10;
            } else {
                self.ops[*b] = 10;
                self.ops[*b + 1] = -off + 10;
            }
        }
        self.ops
    }
}

/// Chicken source text whose lines decode to the given opcodes.
fn source_from_opcodes(ops: &[isize]) -> String {
    let lines: Vec<String> = ops
        .iter()
        .map(|&n| vec!["chicken"; n as usize].join(" "))
        .collect();
    lines.join("\n")
}

/// A Deadfish interpreter: `i` increments, `d` decrements, `s` squares, any
/// other character outputs the value padded with spaces; after each command
/// a value of -1 or 256 resets to zero. The input is read character by
/// character until it ends.
fn deadfish_program() -> Vec<isize> {
    let mut a = Asm::new();
    let v = a.alloc_vars(8);
    let (acc, pos, out) = (v[0], v[1], v[2]);
    let (chi, ci, cd, cs, ch) = (v[3], v[4], v[5], v[6], v[7]);
    // Numbers start at zero; the output slot starts as a non-string marker.
    a.push_num(0);
    a.store_var(acc);
    a.push_num(0);
    a.store_var(pos);
    a.push_num(0);
    a.store_var(out);
    // The command characters, carved out of words the machine can spell:
    // "i" from "chicken", "d" from "undefinedchicken", "s" from
    // "falsechicken".
    a.raw(1);
    a.store_var(chi);
    a.load_char_of(chi, 2);
    a.store_var(ci);
    a.push_undefined();
    a.raw(1);
    a.raw(2);
    a.store_var(cd);
    a.load_char_of(cd, 2);
    a.store_var(cd);
    a.push_num(0);
    a.push_num(1);
    a.raw(5);
    a.raw(1);
    a.raw(2);
    a.store_var(cs);
    a.load_char_of(cs, 3);
    a.store_var(cs);

    a.label("loop");
    a.load_var(pos);
    a.raw(6);
    a.raw(1);
    a.store_var(ch);
    a.load_var(ch);
    a.push_undefined();
    a.raw(5);
    a.jump_if("end");
    a.load_var(ch);
    a.load_var(ci);
    a.raw(5);
    a.jump_if("do_i");
    a.load_var(ch);
    a.load_var(cd);
    a.raw(5);
    a.jump_if("do_d");
    a.load_var(ch);
    a.load_var(cs);
    a.raw(5);
    a.jump_if("do_s");
    // Output: append " value " to the output, or start it.
    a.load_var(out);
    a.push_num(0);
    a.raw(5);
    a.jump_if("first_o");
    a.load_var(out);
    a.push_space();
    a.load_var(acc);
    a.raw(2);
    a.push_space();
    a.raw(2);
    a.raw(2);
    a.store_var(out);
    a.jump("inc");
    a.label("first_o");
    a.push_space();
    a.load_var(acc);
    a.raw(2);
    a.push_space();
    a.raw(2);
    a.store_var(out);
    a.jump("inc");
    a.label("do_i");
    a.load_var(acc);
    a.push_num(1);
    a.raw(2);
    a.store_var(acc);
    a.jump("check");
    a.label("do_d");
    a.load_var(acc);
    a.push_num(1);
    a.raw(3);
    a.store_var(acc);
    a.jump("check");
    a.label("do_s");
    a.load_var(acc);
    a.load_var(acc);
    a.raw(4);
    a.store_var(acc);
    a.label("check");
    a.load_var(acc);
    a.push_num(0);
    a.push_num(1);
    a.raw(3);
    a.raw(5);
    a.jump_if("reset");
    a.load_var(acc);
    a.push_num(256);
    a.raw(5);
    a.jump_if("reset");
    a.jump("inc");
    a.label("reset");
    a.push_num(0);
    a.store_var(acc);
    a.label("inc");
    a.load_var(pos);
    a.push_num(1);
    a.raw(2);
    a.store_var(pos);
    a.jump("loop");
    a.label("end");
    a.load_var(out);
    a.raw(0);
    a.assemble()
}

/// Builds the line "<n> chickens\n" (singular for one) on top of the stack.
fn emit_line_piece(a: &mut Asm, n: usize, cs: usize, suffix: &str) {
    a.load_var(n);
    a.push_space();
    a.raw(1);
    a.raw(2);
    a.raw(2);
    a.load_var(n);
    a.push_num(1);
    a.raw(5);
    a.jump_if(&format!("singular_{}", suffix));
    a.load_var(cs);
    a.raw(2);
    a.label(&format!("singular_{}", suffix));
    a.push_newline();
    a.raw(2);
}

/// Counts chickens down from the number named by the input: "N chickens"
/// per line, "1 chicken" in the singular, and "no chickens" at the end.
fn chickens_program() -> Vec<isize> {
    let mut a = Asm::new();
    let v = a.alloc_vars(5);
    let (n, out, chi, cs, cn) = (v[0], v[1], v[2], v[3], v[4]);
    // n := the input read as a number.
    a.load_var(1);
    a.push_num(0);
    a.raw(3);
    a.store_var(n);
    a.push_num(0);
    a.store_var(out);
    a.raw(1);
    a.store_var(chi);
    // "s" from "falsechicken", "n" from "chicken".
    a.push_num(0);
    a.push_num(1);
    a.raw(5);
    a.raw(1);
    a.raw(2);
    a.store_var(cs);
    a.load_char_of(cs, 3);
    a.store_var(cs);
    a.load_char_of(chi, 6);
    a.store_var(cn);

    a.label("loop");
    a.load_var(n);
    a.push_num(0);
    a.raw(5);
    a.jump_if("finish");
    a.load_var(out);
    a.push_num(0);
    a.raw(5);
    a.jump_if("first_line");
    a.load_var(out);
    emit_line_piece(&mut a, n, cs, "a");
    a.raw(2);
    a.store_var(out);
    a.jump("dec");
    a.label("first_line");
    emit_line_piece(&mut a, n, cs, "b");
    a.store_var(out);
    a.label("dec");
    a.load_var(n);
    a.push_num(1);
    a.raw(3);
    a.store_var(n);
    a.jump("loop");
    a.label("finish");
    a.load_var(out);
    a.load_var(cn);
    a.push_num(111);
    a.raw(9);
    a.raw(2);
    a.push_space();
    a.raw(2);
    a.raw(1);
    a.raw(2);
    a.load_var(cs);
    a.raw(2);
    a.push_newline();
    a.raw(2);
    a.raw(2);
    a.raw(0);
    a.assemble()
}

fn run_deadfish(input: &str) -> Result<String, chicken::vm::ChickenError> {
    let source = source_from_opcodes(&deadfish_program());
    VMBuilder::from_chicken(&source)
        .input(Value::Str(input.to_string()))
        .build()
        .run()
}

#[test]
fn deadfish() {
    assert_eq!(run_deadfish("iissiso"), Ok(" 289 ".to_string()));
    assert_eq!(run_deadfish("iissso"), Ok(" 0 ".to_string()));
    assert_eq!(run_deadfish("diissisdo"), Ok(" 288 ".to_string()));
    assert_eq!(
        run_deadfish("iissisdddddddddddddddddddddddddddddddddo"),
        Ok(" 0 ".to_string())
    );
}

/// The expected countdown text.
fn make_chickens(num: usize) -> String {
    (0..=num)
        .rev()
        .map(|n| {
            if n == 0 {
                "no chickens\n".to_string()
            } else if n == 1 {
                "1 chicken".to_string()
            } else {
                format!("{} chickens", n)
            }
        })
        .collect::<Vec<_>>()
        .join("\n")
}

fn run_chickens(input: &str) -> Result<String, chicken::vm::ChickenError> {
    let source = source_from_opcodes(&chickens_program());
    VMBuilder::from_chicken(&source)
        .input(Value::Str(input.to_string()))
        .build()
        .run()
}

#[test]
fn chickens() {
    assert_eq!(run_chickens("9"), Ok(make_chickens(9)));
    assert_eq!(run_chickens("128"), Ok(make_chickens(128)));
    assert_eq!(run_chickens("512"), Ok(make_chickens(512)));
    assert_eq!(run_chickens("1024"), Ok(make_chickens(1024)));
}
