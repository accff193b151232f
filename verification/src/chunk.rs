use crate::text::{decimal, padded, push_decimal, push_padded, push_signed, signed};
use crate::value::Value;
use vstd::prelude::*;

verus! {

/// One instruction of the machine.
#[derive(Debug, Clone, Copy, PartialEq, Eq)]
pub enum OpCode {
    /// Push the constant at this index of the owning chunk's pool.
    OpConstant(usize),
    OpAdd,
    OpSubtract,
    OpMultiply,
    OpDivide,
    OpNegate,
    OpReturn,
}

impl OpCode {
    /// The name of the instruction as a listing shows it; for a constant,
    /// with the index it loads.
    pub open spec fn mnemonic(self) -> Seq<char> {
        match self {
            OpCode::OpReturn => "OP_RETURN"@,
            OpCode::OpAdd => "OP_ADD"@,
            OpCode::OpSubtract => "OP_SUBTRACT"@,
            OpCode::OpMultiply => "OP_MULTIPLY"@,
            OpCode::OpDivide => "OP_DIVIDE"@,
            OpCode::OpNegate => "OP_NEGATE"@,
            OpCode::OpConstant(index) => "OP_CONSTANT: "@ + decimal(index as nat),
        }
    }

    /// The name of the instruction as a listing shows it.
    pub fn to_string(&self) -> (text: String)
        ensures
            text@ == self.mnemonic(),
    {
        match self {
            OpCode::OpReturn => String::from_str("OP_RETURN"),
            OpCode::OpAdd => String::from_str("OP_ADD"),
            OpCode::OpSubtract => String::from_str("OP_SUBTRACT"),
            OpCode::OpMultiply => String::from_str("OP_MULTIPLY"),
            OpCode::OpDivide => String::from_str("OP_DIVIDE"),
            OpCode::OpNegate => String::from_str("OP_NEGATE"),
            OpCode::OpConstant(index) => {
                let mut text = String::from_str("OP_CONSTANT: ");
                push_decimal(&mut text, *index as u64);
                text
            },
        }
    }
}

/// A run of the line table: the instructions `start..=end` all come from
/// source line `line_number`.
#[derive(Debug, Clone, Copy, PartialEq, Eq)]
pub struct OpcodeLine {
    /// Index within the chunk of the first instruction on the line.
    pub start: usize,
    /// Index within the chunk of the last instruction on the line.
    pub end: usize,
    pub line_number: i32,
}

impl OpcodeLine {
    /// How many instructions the run covers.
    pub open spec fn span(self) -> nat {
        if self.start <= self.end {
            (self.end - self.start + 1) as nat
        } else {
            0
        }
    }

    /// Whether instruction `index` lies in the run.
    pub open spec fn holds(self, index: usize) -> bool {
        self.start <= index <= self.end
    }

    /// The run written out: its line, once per instruction.
    pub open spec fn unrolled(self) -> Seq<i32> {
        Seq::new(self.span(), |i: int| self.line_number)
    }
}

/// The runs are non-empty, in order and gapless, the first starting at
/// instruction `base`.
pub open spec fn chained(runs: Seq<OpcodeLine>, base: int) -> bool
    decreases runs.len(),
{
    runs.len() > 0 ==> {
        &&& runs[0].start == base
        &&& runs[0].start <= runs[0].end
        &&& chained(runs.drop_first(), runs[0].end + 1)
    }
}

/// The index just past the last instruction that the runs cover.
pub open spec fn covered(runs: Seq<OpcodeLine>, base: int) -> int {
    if runs.len() == 0 {
        base
    } else {
        runs.last().end + 1
    }
}

/// The runs written out: one line number per covered instruction.
pub open spec fn expand(runs: Seq<OpcodeLine>) -> Seq<i32>
    decreases runs.len(),
{
    if runs.len() == 0 {
        Seq::empty()
    } else {
        runs[0].unrolled() + expand(runs.drop_first())
    }
}

/// The line of the first run that holds instruction `index`, if any does.
pub open spec fn line_in(runs: Seq<OpcodeLine>, index: usize) -> Option<i32>
    decreases runs.len(),
{
    if runs.len() == 0 {
        None
    } else if runs[0].holds(index) {
        Some(runs[0].line_number)
    } else {
        line_in(runs.drop_first(), index)
    }
}

/// What the runs after the first cover is what all of them cover.
proof fn lemma_covered_rest(runs: Seq<OpcodeLine>, base: int)
    requires
        runs.len() > 0,
    ensures
        covered(runs.drop_first(), runs[0].end + 1) == covered(runs, base),
{
    let rest = runs.drop_first();
    if rest.len() > 0 {
        assert(rest.last() == runs.last());
    }
}

/// Writing out the runs with one more at the end appends that run's lines.
pub proof fn lemma_expand_push(runs: Seq<OpcodeLine>, run: OpcodeLine)
    ensures
        expand(runs.push(run)) == expand(runs) + run.unrolled(),
    decreases runs.len(),
{
    if runs.len() == 0 {
        assert(runs.push(run).drop_first() =~= Seq::<OpcodeLine>::empty());
        assert(expand(Seq::<OpcodeLine>::empty()) =~= Seq::<i32>::empty());
        assert(expand(runs.push(run)) =~= expand(runs) + run.unrolled());
    } else {
        assert(runs.push(run).drop_first() =~= runs.drop_first().push(run));
        lemma_expand_push(runs.drop_first(), run);
        assert(expand(runs.push(run)) =~= expand(runs) + run.unrolled());
    }
}

/// A non-empty run that starts where chained runs end extends the chain.
pub proof fn lemma_chained_push(runs: Seq<OpcodeLine>, base: int, run: OpcodeLine)
    requires
        chained(runs, base),
        run.start == covered(runs, base),
        run.start <= run.end,
    ensures
        chained(runs.push(run), base),
    decreases runs.len(),
{
    if runs.len() == 0 {
        assert(runs.push(run).drop_first() =~= Seq::<OpcodeLine>::empty());
        assert(chained(Seq::<OpcodeLine>::empty(), run.end + 1));
    } else {
        assert(runs.push(run).drop_first() =~= runs.drop_first().push(run));
        lemma_covered_rest(runs, base);
        lemma_chained_push(runs.drop_first(), runs[0].end + 1, run);
    }
}

/// Chained runs cover exactly as many instructions as they write out.
pub proof fn lemma_expand_len(runs: Seq<OpcodeLine>, base: int)
    requires
        chained(runs, base),
    ensures
        expand(runs).len() == covered(runs, base) - base,
    decreases runs.len(),
{
    if runs.len() > 0 {
        lemma_covered_rest(runs, base);
        lemma_expand_len(runs.drop_first(), runs[0].end + 1);
    }
}

/// In chained runs, the first run that holds a covered instruction carries
/// the line that the written-out table has at that instruction, and no run
/// holds an instruction that is not covered.
pub proof fn lemma_line_in_chained(runs: Seq<OpcodeLine>, base: int, index: usize)
    requires
        chained(runs, base),
        0 <= base,
    ensures
        base <= index < covered(runs, base) ==> line_in(runs, index) == Some(
            expand(runs)[index - base],
        ),
        !(base <= index < covered(runs, base)) ==> line_in(runs, index) is None,
    decreases runs.len(),
{
    if runs.len() > 0 {
        let rest = runs.drop_first();
        lemma_covered_rest(runs, base);
        lemma_line_in_chained(rest, runs[0].end + 1, index);
        lemma_expand_len(rest, runs[0].end + 1);
    }
}

/// The depth of the stack after `op` has run on a stack of depth `depth`,
/// or `None` where `op` finds too few operands or ends the run.
pub open spec fn effect(op: OpCode, depth: int) -> Option<int> {
    match op {
        OpCode::OpConstant(_) => Some(depth + 1),
        OpCode::OpNegate => if depth >= 1 {
            Some(depth)
        } else {
            None
        },
        OpCode::OpReturn => None,
        _ => if depth >= 2 {
            Some(depth - 1)
        } else {
            None
        },
    }
}

/// The depth of the stack after the instructions from `ip` to the end of
/// `code` have run on a stack of depth `depth`, the host answering each
/// arithmetic instruction with one value; `None` where one of them finds
/// too few operands or is `OpReturn`.
pub open spec fn depth_from(code: Seq<OpCode>, ip: int, depth: int) -> Option<int>
    decreases code.len() - ip,
{
    if ip < 0 || ip >= code.len() {
        Some(depth)
    } else {
        match effect(code[ip], depth) {
            Some(next) => depth_from(code, ip + 1, next),
            None => None,
        }
    }
}

/// Whether the instructions from `ip` on, run on a stack of depth `depth`,
/// find their operands every time, up to the first `OpReturn` or the end
/// of `code`.
pub open spec fn runs_clean(code: Seq<OpCode>, ip: int, depth: int) -> bool
    decreases code.len() - ip,
{
    if ip < 0 || ip >= code.len() {
        true
    } else if code[ip] is OpReturn {
        true
    } else {
        match effect(code[ip], depth) {
            Some(next) => runs_clean(code, ip + 1, next),
            None => false,
        }
    }
}

/// One more instruction at the end of the code changes the final depth by
/// that instruction's effect.
pub proof fn lemma_depth_push(code: Seq<OpCode>, ip: int, depth: int, op: OpCode)
    requires
        0 <= ip <= code.len(),
    ensures
        depth_from(code.push(op), ip, depth) == match depth_from(code, ip, depth) {
            Some(reached) => effect(op, reached),
            None => None,
        },
    decreases code.len() - ip,
{
    let longer = code.push(op);
    if ip < code.len() {
        assert(longer[ip] == code[ip]);
        match effect(code[ip], depth) {
            Some(next) => {
                lemma_depth_push(code, ip + 1, next, op);
            },
            None => {},
        }
    } else {
        assert(longer[ip] == op);
        match effect(op, depth) {
            Some(next) => {
                assert(depth_from(longer, ip + 1, next) == Some(next));
            },
            None => {},
        }
    }
}

/// Code that leaves some depth, with `OpReturn` after it, runs clean.
pub proof fn lemma_clean_with_return(code: Seq<OpCode>, ip: int, depth: int)
    requires
        0 <= ip <= code.len(),
        depth_from(code, ip, depth) is Some,
    ensures
        runs_clean(code.push(OpCode::OpReturn), ip, depth),
    decreases code.len() - ip,
{
    let longer = code.push(OpCode::OpReturn);
    if ip < code.len() {
        assert(longer[ip] == code[ip]);
        match effect(code[ip], depth) {
            Some(next) => {
                lemma_clean_with_return(code, ip + 1, next);
            },
            None => {},
        }
    } else {
        assert(longer[ip] == OpCode::OpReturn);
    }
}

/// A compiled unit: instructions, the constants they refer to, and a
/// run-length table of the source lines they come from.
#[derive(Debug)]
pub struct Chunk {
    pub code: Vec<OpCode>,
    pub constants: Vec<Value>,
    /// The closed runs of the line table.
    pub lines: Vec<OpcodeLine>,
    /// The line of the run in progress, which `lines` does not hold yet.
    pub current_line: Option<i32>,
}

impl Chunk {
    /// The line table accounts for exactly the first `n` instructions: the
    /// closed runs are chained from instruction 0, and the run in progress,
    /// if there is one, holds at least one instruction and ends at `n - 1`.
    pub open spec fn tracks(self, n: int) -> bool {
        &&& chained(self.lines@, 0)
        &&& match self.current_line {
            Some(_) => covered(self.lines@, 0) < n,
            None => covered(self.lines@, 0) == n,
        }
    }

    /// The line table accounts for every instruction of the chunk.
    pub open spec fn well_formed(self) -> bool {
        self.tracks(self.code@.len() as int)
    }

    /// The source line of each of the first `n` instructions, as the line
    /// table records it.
    pub open spec fn line_numbers(self, n: int) -> Seq<i32> {
        match self.current_line {
            Some(line) => expand(self.lines@) + Seq::new(
                (n - covered(self.lines@, 0)) as nat,
                |i: int| line,
            ),
            None => expand(self.lines@),
        }
    }

    /// Every `OpConstant` refers to a constant that the pool holds.
    pub open spec fn constants_in_range(self) -> bool {
        forall|i: int|
            0 <= i < self.code@.len() ==> match #[trigger] self.code@[i] {
                OpCode::OpConstant(index) => index < self.constants@.len(),
                _ => true,
            }
    }

    /// Whether every `OpConstant` refers to a constant that the pool holds.
    pub fn has_constants_in_range(&self) -> (valid: bool)
        ensures
            valid == self.constants_in_range(),
    {
        let mut i: usize = 0;
        while i < self.code.len()
            invariant
                i <= self.code@.len(),
                forall|k: int|
                    0 <= k < i ==> match #[trigger] self.code@[k] {
                        OpCode::OpConstant(index) => index < self.constants@.len(),
                        _ => true,
                    },
            decreases self.code@.len() - i,
        {
            if let OpCode::OpConstant(index) = self.code[i] {
                if index >= self.constants.len() {
                    return false;
                }
            }
            i += 1;
        }
        true
    }

    /// An empty chunk.
    pub fn init() -> (chunk: Chunk)
        ensures
            chunk.code@ == Seq::<OpCode>::empty(),
            chunk.constants@ == Seq::<Value>::empty(),
            chunk.lines@ == Seq::<OpcodeLine>::empty(),
            chunk.current_line is None,
            chunk.well_formed(),
    {
        Chunk { code: Vec::new(), constants: Vec::new(), lines: Vec::new(), current_line: None }
    }

    /// Appends one instruction that comes from source line `line_number`.
    pub fn write(&mut self, byte: OpCode, line_number: i32)
        requires
            old(self).well_formed(),
        ensures
            final(self).code@ == old(self).code@.push(byte),
            final(self).constants@ == old(self).constants@,
            final(self).well_formed(),
            final(self).current_line == Some(line_number),
            final(self).line_numbers(final(self).code@.len() as int) == old(self).line_numbers(
                old(self).code@.len() as int,
            ).push(line_number),
            final(self).lines@ == match old(self).current_line {
                Some(line) if line != line_number => old(self).lines@.push(
                    OpcodeLine {
                        start: covered(old(self).lines@, 0) as usize,
                        end: (old(self).code@.len() - 1) as usize,
                        line_number: line,
                    },
                ),
                _ => old(self).lines@,
            },
    {
        self.code.push(byte);
        self.parse_line(line_number);
    }

    /// Folds the newest instruction, which the line table does not account
    /// for yet, into the table: it joins the run in progress if that run is
    /// on `line_number`; otherwise that run is closed just before it and a
    /// new one begins with it.
    pub fn parse_line(&mut self, line_number: i32)
        requires
            old(self).code@.len() >= 1,
            old(self).tracks(old(self).code@.len() - 1),
        ensures
            final(self).code@ == old(self).code@,
            final(self).constants@ == old(self).constants@,
            final(self).well_formed(),
            final(self).current_line == Some(line_number),
            final(self).line_numbers(final(self).code@.len() as int) == old(self).line_numbers(
                old(self).code@.len() - 1,
            ).push(line_number),
            final(self).lines@ == match old(self).current_line {
                Some(line) if line != line_number => old(self).lines@.push(
                    OpcodeLine {
                        start: covered(old(self).lines@, 0) as usize,
                        end: (old(self).code@.len() - 2) as usize,
                        line_number: line,
                    },
                ),
                _ => old(self).lines@,
            },
    {
        let n = self.code.len();
        proof {
            lemma_expand_len(self.lines@, 0);
        }
        match self.current_line {
            Some(line) => {
                if line != line_number {
                    let start = self.next_start();
                    let run = OpcodeLine { start, end: n - 2, line_number: line };
                    proof {
                        lemma_expand_push(self.lines@, run);
                        lemma_chained_push(self.lines@, 0, run);
                        assert(run.unrolled() =~= Seq::new(
                            (n - 1 - covered(self.lines@, 0)) as nat,
                            |i: int| line,
                        ));
                    }
                    self.lines.push(run);
                    self.current_line = Some(line_number);
                    proof {
                        lemma_expand_len(self.lines@, 0);
                        assert(Seq::new(1, |i: int| line_number) =~= seq![line_number]);
                        assert(self.line_numbers(n as int) =~= old(self).line_numbers(
                            n - 1,
                        ).push(line_number));
                    }
                } else {
                    assert(self.line_numbers(n as int) =~= old(self).line_numbers(n - 1).push(
                        line_number,
                    ));
                }
            },
            None => {
                self.current_line = Some(line_number);
                assert(self.line_numbers(n as int) =~= old(self).line_numbers(n - 1).push(
                    line_number,
                ));
            },
        }
    }

    /// The index at which the next run of the line table starts.
    fn next_start(&self) -> (start: usize)
        requires
            chained(self.lines@, 0),
            covered(self.lines@, 0) <= usize::MAX,
        ensures
            start == covered(self.lines@, 0),
    {
        let count = self.lines.len();
        if count == 0 {
            0
        } else {
            self.lines[count - 1].end + 1
        }
    }

    /// Appends `value` to the constant pool and returns its index.
    pub fn add_constant(&mut self, value: Value) -> (index: usize)
        ensures
            final(self).constants@ == old(self).constants@.push(value),
            index == old(self).constants@.len(),
            final(self).code == old(self).code,
            final(self).lines == old(self).lines,
            final(self).current_line == old(self).current_line,
    {
        self.constants.push(value);
        self.constants.len() - 1
    }

    /// The constant at `index` of the pool.
    pub fn get_constant(&self, index: usize) -> (value: Value)
        requires
            index < self.constants@.len(),
        ensures
            value == self.constants@[index as int],
    {
        self.constants[index].duplicate()
    }

    /// The source line of instruction `index`: that of the first closed run
    /// which holds it. In a well-formed chunk this is the line the
    /// instruction was written with, for every instruction up to the run in
    /// progress; once the table is closed, for every instruction.
    pub fn get_line_number(&self, index: usize) -> (line: Option<i32>)
        ensures
            line == line_in(self.lines@, index),
            self.well_formed() && index < covered(self.lines@, 0) ==> line == Some(
                self.line_numbers(self.code@.len() as int)[index as int],
            ),
            self.well_formed() && index >= covered(self.lines@, 0) ==> line is None,
    {
        proof {
            if self.well_formed() {
                lemma_line_in_chained(self.lines@, 0, index);
                lemma_expand_len(self.lines@, 0);
            }
        }
        let mut k: usize = 0;
        assert(self.lines@.subrange(0, self.lines@.len() as int) =~= self.lines@);
        while k < self.lines.len()
            invariant
                k <= self.lines@.len(),
                self.well_formed() && index < covered(self.lines@, 0) ==> line_in(
                    self.lines@,
                    index,
                ) == Some(self.line_numbers(self.code@.len() as int)[index as int]),
                self.well_formed() && index >= covered(self.lines@, 0) ==> line_in(
                    self.lines@,
                    index,
                ) is None,
                line_in(self.lines@, index) == line_in(
                    self.lines@.subrange(k as int, self.lines@.len() as int),
                    index,
                ),
            decreases self.lines@.len() - k,
        {
            let run = &self.lines[k];
            let rest = Ghost(self.lines@.subrange(k as int, self.lines@.len() as int));
            assert(rest@[0] == self.lines@[k as int]);
            if run.start <= index && index <= run.end {
                return Some(run.line_number);
            }
            assert(rest@.drop_first() =~= self.lines@.subrange(
                k as int + 1,
                self.lines@.len() as int,
            ));
            k += 1;
        }
        assert(self.lines@.subrange(k as int, self.lines@.len() as int).len() == 0);
        None
    }

    /// Closes the run in progress, so that the line table holds a run for
    /// every instruction written so far.
    pub fn end_line_parsing(&mut self)
        requires
            old(self).well_formed(),
        ensures
            final(self).code@ == old(self).code@,
            final(self).constants@ == old(self).constants@,
            final(self).well_formed(),
            final(self).current_line is None,
            covered(final(self).lines@, 0) == final(self).code@.len(),
            final(self).line_numbers(final(self).code@.len() as int) == old(self).line_numbers(
                old(self).code@.len() as int,
            ),
            final(self).lines@ == match old(self).current_line {
                Some(line) => old(self).lines@.push(
                    OpcodeLine {
                        start: covered(old(self).lines@, 0) as usize,
                        end: (old(self).code@.len() - 1) as usize,
                        line_number: line,
                    },
                ),
                None => old(self).lines@,
            },
    {
        let n = self.code.len();
        proof {
            lemma_expand_len(self.lines@, 0);
        }
        if let Some(line) = self.current_line {
            let start = self.next_start();
            let run = OpcodeLine { start, end: n - 1, line_number: line };
            proof {
                lemma_expand_push(self.lines@, run);
                lemma_chained_push(self.lines@, 0, run);
                assert(run.unrolled() =~= Seq::new(
                    (self.code@.len() - covered(self.lines@, 0)) as nat,
                    |i: int| line,
                ));
            }
            self.lines.push(run);
            self.current_line = None;
        }
    }

    /// What every row of a listing starts with: the index of the
    /// instruction in four digits, the source line that the closed runs of
    /// the line table give for it, or -1 where they give none, and the
    /// instruction's name.
    pub open spec fn row_start(self, index: usize, opcode: OpCode) -> Seq<char> {
        padded(index as nat, 4) + " "@ + signed(
            match line_in(self.lines@, index) {
                Some(line) => line as int,
                None => -1,
            },
        ) + " "@ + opcode.mnemonic()
    }

    /// The row of a listing for instruction `opcode` at `index`: after the
    /// start of the row a blank, and for a constant the value that it loads
    /// between single quotes.
    pub open spec fn row(self, index: usize, opcode: OpCode) -> Seq<char> {
        self.row_start(index, opcode) + match opcode {
            OpCode::OpConstant(constant) => " '"@ + self.constants@[constant as int]@.written()
                + "'"@,
            _ => " "@,
        }
    }

    /// A listing of the chunk: a heading with `name`, one row for each
    /// instruction, and a closing line.
    pub fn disassemble(&self, name: &str) -> (listing: Vec<String>)
        requires
            self.constants_in_range(),
        ensures
            listing@.len() == self.code@.len() + 2,
            listing@[0]@ == "== "@ + name@ + " =="@,
            forall|i: int|
                0 <= i < self.code@.len() ==> (#[trigger] listing@[i + 1])@ == self.row(
                    i as usize,
                    self.code@[i],
                ),
            listing@[self.code@.len() as int + 1]@ == "== end chunk =="@,
    {
        let mut heading = String::from_str("== ");
        heading.append(name);
        heading.append(" ==");
        let mut listing: Vec<String> = Vec::new();
        listing.push(heading);
        let mut i: usize = 0;
        while i < self.code.len()
            invariant
                self.constants_in_range(),
                i <= self.code@.len(),
                listing@.len() == i + 1,
                listing@[0]@ == "== "@ + name@ + " =="@,
                forall|k: int|
                    0 <= k < i ==> (#[trigger] listing@[k + 1])@ == self.row(
                        k as usize,
                        self.code@[k],
                    ),
            decreases self.code@.len() - i,
        {
            let row = self.disassemble_instruction(i, &self.code[i]);
            listing.push(row);
            i += 1;
        }
        listing.push(String::from_str("== end chunk =="));
        listing
    }

    /// The row of a listing for instruction `opcode` at index `i`.
    pub fn disassemble_instruction(&self, i: usize, opcode: &OpCode) -> (row: String)
        requires
            opcode matches OpCode::OpConstant(index) ==> index < self.constants@.len(),
        ensures
            row@ == self.row(i, *opcode),
    {
        match opcode {
            OpCode::OpConstant(index) => {
                let mut row = self.print_simple_instruction(i, opcode);
                row.push('\'');
                row.append(self.constants[*index].to_string().as_str());
                row.push('\'');
                proof {
                    reveal_strlit(" ");
                    reveal_strlit(" '");
                    reveal_strlit("'");
                    assert(row@ =~= self.row(i, *opcode));
                }
                row
            },
            OpCode::OpAdd => self.print_simple_instruction(i, opcode),
            OpCode::OpSubtract => self.print_simple_instruction(i, opcode),
            OpCode::OpMultiply => self.print_simple_instruction(i, opcode),
            OpCode::OpDivide => self.print_simple_instruction(i, opcode),
            OpCode::OpNegate => self.print_simple_instruction(i, opcode),
            OpCode::OpReturn => self.print_simple_instruction(i, opcode),
        }
    }

    /// The start of the row for instruction `opcode` at `index`, and a
    /// blank after it.
    fn print_simple_instruction(&self, index: usize, opcode: &OpCode) -> (row: String)
        ensures
            row@ == self.row_start(index, *opcode) + " "@,
    {
        let mut row = String::new();
        push_padded(&mut row, index as u64, 4);
        row.append(" ");
        let line = match self.get_line_number(index) {
            Some(line) => line,
            None => -1,
        };
        push_signed(&mut row, line);
        row.append(" ");
        row.append(opcode.to_string().as_str());
        row.append(" ");
        assert(row@ =~= self.row_start(index, *opcode) + " "@);
        row
    }
}

} // verus!
