use crate::chunk::{runs_clean, Chunk, OpCode};
use crate::compiler::{compiled, Parser};
use crate::scanner::newlines;
use crate::value::Value;
use vstd::prelude::*;

verus! {

/// How an interpretation ended.
#[derive(Debug, Clone, Copy, PartialEq, Eq)]
pub enum InterpretResult {
    /// The run went through to its end.
    Success,
    /// The source did not compile. The machine itself never reports this:
    /// it is for the caller that compiles before it runs.
    CompileError,
    /// An instruction needed more operands than the stack held.
    RuntimeError,
}

/// What the machine tells its host when it stops.
///
/// The machine moves values but does not compute with them: for arithmetic
/// it stops, hands the operands to the host, and goes on when the host
/// hands back the result.
#[derive(Debug, PartialEq)]
pub enum Signal {
    /// The host is to apply the arithmetic instruction to `left` and
    /// `right` and resume with the result.
    Binary(OpCode, Value, Value),
    /// The host is to negate the value and resume with the result.
    Negate(Value),
    /// The run is over. On `OpReturn` the value is what was on top of the
    /// stack, if anything was.
    Done(InterpretResult, Option<Value>),
}

/// Where a run stops: the signal given, and the machine's state then.
pub struct Outcome {
    pub signal: Signal,
    pub ip: Option<int>,
    pub stack: Seq<Value>,
}

/// The machine halted with `result`, leaving `stack`.
pub open spec fn halted(result: InterpretResult, value: Option<Value>, stack: Seq<Value>) -> Outcome {
    Outcome { signal: Signal::Done(result, value), ip: None, stack }
}

/// Running `code` from instruction `ip` with `stack`, up to the first
/// instruction that needs the host or ends the run.
///
/// A constant is pushed and the run goes on. An arithmetic instruction
/// with enough operands takes them off the stack, the right one first, and
/// stops for the host, the pointer already on the next instruction; with
/// too few it ends the run in a runtime error and leaves the stack alone.
/// `OpReturn` ends the run with the top of the stack, if there is one, and
/// so does running off the end of the code, with nothing.
pub open spec fn run_from(
    code: Seq<OpCode>,
    constants: Seq<Value>,
    ip: int,
    stack: Seq<Value>,
) -> Outcome
    decreases code.len() - ip,
{
    if ip < 0 || ip >= code.len() {
        halted(InterpretResult::Success, None, stack)
    } else {
        match code[ip] {
            OpCode::OpConstant(index) => run_from(
                code,
                constants,
                ip + 1,
                stack.push(constants[index as int]),
            ),
            OpCode::OpNegate => if stack.len() < 1 {
                halted(InterpretResult::RuntimeError, None, stack)
            } else {
                Outcome {
                    signal: Signal::Negate(stack.last()),
                    ip: Some(ip + 1),
                    stack: stack.drop_last(),
                }
            },
            OpCode::OpReturn => if stack.len() < 1 {
                halted(InterpretResult::Success, None, stack)
            } else {
                halted(InterpretResult::Success, Some(stack.last()), stack.drop_last())
            },
            operator => if stack.len() < 2 {
                halted(InterpretResult::RuntimeError, None, stack)
            } else {
                Outcome {
                    signal: Signal::Binary(operator, stack[stack.len() - 2], stack.last()),
                    ip: Some(ip + 1),
                    stack: stack.drop_last().drop_last(),
                }
            },
        }
    }
}

/// Running the chunk's code from where the pointer stands. A machine
/// without a pointer is not running and is done at once.
pub open spec fn run_on(chunk: Chunk, ip: Option<usize>, stack: Seq<Value>) -> Outcome {
    match ip {
        Some(index) => run_from(chunk.code@, chunk.constants@, index as int, stack),
        None => halted(InterpretResult::Success, None, stack),
    }
}

/// Code that runs clean from an instruction, on a stack as deep as the
/// machine's, does not end in a runtime error; and where the machine stops
/// for the host, the code runs clean again from where the machine stands,
/// once the host's answer is on the stack.
pub proof fn lemma_clean_code_never_underflows(
    code: Seq<OpCode>,
    constants: Seq<Value>,
    ip: int,
    stack: Seq<Value>,
)
    requires
        runs_clean(code, ip, stack.len() as int),
    ensures
        !(run_from(code, constants, ip, stack).signal matches Signal::Done(
            InterpretResult::RuntimeError,
            _,
        )),
        run_from(code, constants, ip, stack).ip matches Some(next) ==> runs_clean(
            code,
            next,
            run_from(code, constants, ip, stack).stack.len() as int + 1,
        ),
    decreases code.len() - ip,
{
    if 0 <= ip < code.len() {
        match code[ip] {
            OpCode::OpConstant(index) => {
                lemma_clean_code_never_underflows(
                    code,
                    constants,
                    ip + 1,
                    stack.push(constants[index as int]),
                );
            },
            _ => {},
        }
    }
}

/// A stack machine that executes the instructions of a chunk.
pub struct VM {
    /// The index of the next instruction; `None` while the machine is not
    /// running.
    pub ip: Option<usize>,
    /// The operand stack, its top at the end.
    pub stack: Vec<Value>,
}

impl VM {
    /// Where the machine would stop if it ran `chunk` from its present
    /// state.
    pub open spec fn ahead(&self, chunk: Chunk) -> Outcome {
        run_on(chunk, self.ip, self.stack@)
    }

    /// What the machine gave as `signal` and the state it is left in.
    pub open spec fn stopped(&self, signal: Signal) -> Outcome {
        Outcome {
            signal,
            ip: match self.ip {
                Some(index) => Some(index as int),
                None => None,
            },
            stack: self.stack@,
        }
    }

    /// Whatever value the host resumes with, the rest of `chunk` finds its
    /// operands on the stack.
    pub open spec fn resumes_clean(&self, chunk: Chunk) -> bool {
        self.ip matches Some(index) ==> runs_clean(
            chunk.code@,
            index as int,
            self.stack@.len() as int + 1,
        )
    }

    /// A machine that is not running, with an empty stack.
    pub fn init() -> (vm: VM)
        ensures
            vm.ip is None,
            vm.stack@ == Seq::<Value>::empty(),
    {
        VM { ip: None, stack: Vec::new() }
    }

    /// Runs `chunk` from its first instruction on an empty stack, whatever
    /// the machine held before, up to the first instruction that needs the
    /// host or ends the run.
    pub fn interpret(&mut self, chunk: &Chunk) -> (signal: Signal)
        requires
            chunk.constants_in_range(),
        ensures
            final(self).stopped(signal) == run_from(
                chunk.code@,
                chunk.constants@,
                0,
                Seq::<Value>::empty(),
            ),
            runs_clean(chunk.code@, 0, 0) ==> final(self).resumes_clean(*chunk) && !(signal matches Signal::Done(
                InterpretResult::RuntimeError,
                _,
            )),
    {
        self.ip = Some(0);
        self.stack = Vec::new();
        proof {
            if runs_clean(chunk.code@, 0, 0) {
                lemma_clean_code_never_underflows(
                    chunk.code@,
                    chunk.constants@,
                    0,
                    Seq::<Value>::empty(),
                );
            }
        }
        self.run(chunk)
    }

    /// Compiles `source` and, if it compiled, runs the chunk as `interpret`
    /// does. A source that did not compile is not run: the machine stays
    /// as it is and the signal is a compile error. The parser comes back
    /// with the chunk, for the calls of `resume`, and the recorded errors.
    pub fn interpret_source(&mut self, source: &str) -> (started: (Parser, Signal))
        requires
            newlines(source@, 0, source@.len() as int) <= i32::MAX,
        ensures
            ({
                let (parser, signal) = started;
                &&& parser@ == compiled(source@)
                &&& parser.well_formed()
                &&& parser.chunk.current_line is None
                &&& parser.had_error ==> {
                    &&& signal == Signal::Done(InterpretResult::CompileError, None)
                    &&& *final(self) == *old(self)
                }
                &&& !parser.had_error ==> {
                    &&& final(self).stopped(signal) == run_from(
                        parser.chunk.code@,
                        parser.chunk.constants@,
                        0,
                        Seq::<Value>::empty(),
                    )
                    &&& final(self).resumes_clean(parser.chunk)
                    &&& !(signal matches Signal::Done(InterpretResult::RuntimeError, _))
                }
            }),
    {
        let parser = Parser::compile(source);
        if parser.had_error {
            return (parser, Signal::Done(InterpretResult::CompileError, None));
        }
        let signal = self.interpret(&parser.chunk);
        (parser, signal)
    }

    /// Pushes `value`, the host's answer to the last signal, and runs on
    /// up to the next instruction that needs the host or ends the run. A
    /// machine that is not running stays as it is.
    pub fn resume(&mut self, chunk: &Chunk, value: Value) -> (signal: Signal)
        requires
            chunk.constants_in_range(),
        ensures
            final(self).stopped(signal) == match old(self).ip {
                Some(index) => run_from(
                    chunk.code@,
                    chunk.constants@,
                    index as int,
                    old(self).stack@.push(value),
                ),
                None => halted(InterpretResult::Success, None, old(self).stack@),
            },
            old(self).resumes_clean(*chunk) ==> final(self).resumes_clean(*chunk) && !(signal matches Signal::Done(
                InterpretResult::RuntimeError,
                _,
            )),
    {
        if self.ip.is_some() {
            self.stack.push(value);
        }
        proof {
            if old(self).resumes_clean(*chunk) && self.ip is Some {
                lemma_clean_code_never_underflows(
                    chunk.code@,
                    chunk.constants@,
                    self.ip->0 as int,
                    self.stack@,
                );
            }
        }
        self.run(chunk)
    }

    /// Fetches and executes instructions up to the first that needs the
    /// host or ends the run.
    fn run(&mut self, chunk: &Chunk) -> (signal: Signal)
        requires
            chunk.constants_in_range(),
        ensures
            final(self).stopped(signal) == old(self).ahead(*chunk),
    {
        loop
            invariant
                chunk.constants_in_range(),
                self.ahead(*chunk) == old(self).ahead(*chunk),
            decreases
                    if self.ip is Some && self.ip->0 < chunk.code@.len() {
                        chunk.code@.len() - self.ip->0
                    } else {
                        0
                    },
        {
            let fetched = self.read_byte(chunk);
            match fetched {
                None => {
                    return Signal::Done(InterpretResult::Success, None);
                },
                Some((opcode, _)) => {
                    match opcode {
                        OpCode::OpReturn => {
                            let value = self.stack.pop();
                            self.ip = None;
                            return Signal::Done(InterpretResult::Success, value);
                        },
                        OpCode::OpNegate => {
                            match self.stack.pop() {
                                Some(operand) => {
                                    return Signal::Negate(operand);
                                },
                                None => {
                                    self.ip = None;
                                    return Signal::Done(InterpretResult::RuntimeError, None);
                                },
                            }
                        },
                        OpCode::OpConstant(constant) => {
                            let value = chunk.get_constant(constant);
                            self.stack.push(value);
                        },
                        OpCode::OpAdd
                        | OpCode::OpSubtract
                        | OpCode::OpMultiply
                        | OpCode::OpDivide => {
                            if self.stack.len() < 2 {
                                self.ip = None;
                                return Signal::Done(InterpretResult::RuntimeError, None);
                            }
                            let right = self.stack.pop().unwrap();
                            let left = self.stack.pop().unwrap();
                            return Signal::Binary(opcode, left, right);
                        },
                    }
                },
            }
        }
    }

    /// Fetches the instruction at the pointer, with its index, and moves
    /// the pointer on. Past the end of the code, or without a pointer,
    /// there is nothing to fetch and the machine stops running.
    fn read_byte(&mut self, chunk: &Chunk) -> (fetched: Option<(OpCode, usize)>)
        ensures
            final(self).stack == old(self).stack,
            old(self).ip is Some && old(self).ip->0 < chunk.code@.len() ==> {
                &&& fetched == Some((chunk.code@[old(self).ip->0 as int], old(self).ip->0))
                &&& final(self).ip is Some
                &&& final(self).ip->0 == old(self).ip->0 + 1
            },
            !(old(self).ip is Some && old(self).ip->0 < chunk.code@.len()) ==> fetched is None
                && final(self).ip is None,
    {
        match self.ip {
            Some(index) => {
                if index < chunk.code.len() {
                    self.ip = Some(index + 1);
                    Some((chunk.code[index], index))
                } else {
                    self.ip = None;
                    None
                }
            },
            None => None,
        }
    }
}

} // verus!
