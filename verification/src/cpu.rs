use vstd::prelude::*;

verus! {

/// Why the processor stopped: the conditions on which a step does not complete.
#[derive(Debug, Clone, Copy, PartialEq, Eq, Structural)]
pub enum CpuError {
    /// The all-zero opcode, which the emulator treats as the end of the program.
    NOP,
    /// An opcode that no instruction format covers (the `0111rrrr` group).
    InvalidOpcode(u8),
    /// `RET` with an empty call stack.
    InvalidReturn,
    /// `CALL` with all four call-stack slots in use.
    DeepCall,
}

/// A decoded instruction. Register and nibble operands are four-bit values.
#[derive(Debug, Clone, Copy, PartialEq, Eq, Structural)]
pub enum Instruction {
    /// `00iiiiii`: load a value between 1 and 63 into `X`.
    Immediate(u8),
    Pts,
    Exy,
    Rts,
    Rpv,
    Add,
    Sub,
    Mul,
    Lsh,
    Rsh,
    And,
    Or,
    Xor,
    Not,
    Ret,
    Clr,
    Pop,
    Lup(u8),
    Pup(u8),
    Rvr(u8),
    Wvr(u8),
    Ld(u8),
    St(u8),
    Jz(u8),
    Jmp(u8),
    Call(u8),
    Jgt(u8),
}

/// The register-less operation selected by the low nibble of a `1100oooo` opcode.
pub open spec fn register_less(n: int) -> Instruction {
    if n == 0 { Instruction::Pts }
    else if n == 1 { Instruction::Exy }
    else if n == 2 { Instruction::Rts }
    else if n == 3 { Instruction::Rpv }
    else if n == 4 { Instruction::Add }
    else if n == 5 { Instruction::Sub }
    else if n == 6 { Instruction::Mul }
    else if n == 7 { Instruction::Lsh }
    else if n == 8 { Instruction::Rsh }
    else if n == 9 { Instruction::And }
    else if n == 10 { Instruction::Or }
    else if n == 11 { Instruction::Xor }
    else if n == 12 { Instruction::Not }
    else if n == 13 { Instruction::Ret }
    else if n == 14 { Instruction::Clr }
    else { Instruction::Pop }
}

/// What an opcode means: the instruction formats of the instruction set.
pub open spec fn decode_spec(opcode: u8) -> Result<Instruction, CpuError> {
    let hi = opcode / 16;
    let r = (opcode % 16) as u8;
    if opcode == 0 {
        Err(CpuError::NOP)
    } else if hi == 12 {
        Ok(register_less(r as int))
    } else if opcode < 64 {
        Ok(Instruction::Immediate(opcode))
    } else if hi == 4 {
        Ok(Instruction::Lup(r))
    } else if hi == 5 {
        Ok(Instruction::Pup(r))
    } else if hi == 6 {
        Ok(Instruction::Rvr(r))
    } else if hi == 13 {
        Ok(Instruction::Wvr(r))
    } else if hi == 8 {
        Ok(Instruction::Ld(r))
    } else if hi == 9 {
        Ok(Instruction::St(r))
    } else if hi == 10 {
        Ok(Instruction::Jz(r))
    } else if hi == 11 {
        Ok(Instruction::Jmp(r))
    } else if hi == 15 {
        Ok(Instruction::Call(r))
    } else if hi == 14 {
        Ok(Instruction::Jgt(r))
    } else {
        Err(CpuError::InvalidOpcode(opcode))
    }
}

/// `v + 1` modulo 256.
pub open spec fn inc8(v: u8) -> u8 {
    ((v + 1) % 256) as u8
}

/// `v - 1` modulo 256.
pub open spec fn dec8(v: u8) -> u8 {
    ((v + 255) % 256) as u8
}

/// The processor's state as plain values.
pub struct CpuState {
    pub pc: u8,
    pub x: u8,
    pub y: u8,
    pub z: u8,
    pub t: u8,
    pub x0: u8,
    /// `R1..R15`, at indices 0 to 14.
    pub registers: Seq<u8>,
    /// The four slots of the hardware call stack.
    pub stack: Seq<u8>,
    /// The number of slots in use.
    pub stack_ptr: nat,
}

/// The state of the processor together with the data memory after an action, and what the
/// action reported.
pub struct Outcome {
    pub state: CpuState,
    pub mem: Seq<u8>,
    pub result: Result<(), CpuError>,
}

impl CpuState {
    /// Fifteen registers, four call-stack slots, at most four of them in use, and the unused
    /// slots cleared.
    pub open spec fn wf(self) -> bool {
        &&& self.registers.len() == 15
        &&& self.stack.len() == 4
        &&& self.stack_ptr <= 4
        &&& forall|i: int| self.stack_ptr <= i < 4 ==> #[trigger] self.stack[i] == 0
    }

    /// The power-on state: everything zero.
    pub open spec fn initial() -> CpuState {
        CpuState {
            pc: 0,
            x: 0,
            y: 0,
            z: 0,
            t: 0,
            x0: 0,
            registers: Seq::new(15, |i: int| 0u8),
            stack: Seq::new(4, |i: int| 0u8),
            stack_ptr: 0,
        }
    }

    pub open spec fn with_pc(self, pc: u8) -> CpuState {
        CpuState { pc, ..self }
    }

    pub open spec fn with_x(self, x: u8) -> CpuState {
        CpuState { x, ..self }
    }

    /// `X` goes to `Y`, `Y` to `Z`, `Z` to `T`; the old `T` is lost.
    pub open spec fn push_up(self) -> CpuState {
        CpuState { t: self.z, z: self.y, y: self.x, ..self }
    }

    /// The result `v` of an operation on `X` and `Y` goes to `X`, the old `X` to `X0`,
    /// `Z` to `Y` and `T` to `Z`.
    pub open spec fn push_down(self, v: u8) -> CpuState {
        CpuState { x0: self.x, x: v, y: self.z, z: self.t, ..self }
    }

    /// The address that register operand `operand` designates: `Y` for 0, else `R<operand>`.
    pub open spec fn address(self, operand: u8) -> u8 {
        if operand == 0 {
            self.y
        } else {
            self.registers[operand - 1]
        }
    }

    /// The state after an indirect use of register operand `operand`: `R1..R5` count down,
    /// `R11..R15` count up, the others keep their value.
    pub open spec fn after_address(self, operand: u8) -> CpuState {
        if 1 <= operand <= 5 {
            CpuState {
                registers: self.registers.update(operand - 1, dec8(self.registers[operand - 1])),
                ..self
            }
        } else if 11 <= operand <= 15 {
            CpuState {
                registers: self.registers.update(operand - 1, inc8(self.registers[operand - 1])),
                ..self
            }
        } else {
            self
        }
    }

    /// What executing `ins` does to the state and the data memory, or the error it stops with.
    /// Kept opaque to keep proofs fast: `reveal(CpuState::execute)` where its cases are needed.
    #[verifier::opaque]
    pub open spec fn execute(self, ins: Instruction, mem: Seq<u8>) -> Result<(CpuState, Seq<u8>), CpuError> {
        let x = self.x;
        let y = self.y;
        match ins {
            Instruction::Immediate(v) => Ok((self.with_x(v), mem)),
            Instruction::Pts => Ok((self.push_up(), mem)),
            Instruction::Exy => Ok((CpuState { x: y, y: x, ..self }, mem)),
            Instruction::Rts => Ok((CpuState { x: y, y: self.z, z: self.t, t: x, ..self }, mem)),
            Instruction::Rpv => Ok((self.push_up().with_x(self.x0), mem)),
            Instruction::Add => Ok((self.push_down(((x + y) % 256) as u8), mem)),
            Instruction::Sub => Ok((self.push_down(((x - y) % 256) as u8), mem)),
            Instruction::Mul => Ok((self.push_down(((x * y) % 256) as u8), mem)),
            Instruction::Lsh => Ok((CpuState { x0: x, x: ((x * 2) % 256) as u8, ..self }, mem)),
            Instruction::Rsh => Ok((CpuState { x0: x, x: x / 2, ..self }, mem)),
            Instruction::And => Ok((self.push_down(x & y), mem)),
            Instruction::Or => Ok((self.push_down(x | y), mem)),
            Instruction::Xor => Ok((self.push_down(x ^ y), mem)),
            Instruction::Not => Ok((CpuState { x0: x, x: (255 - x) as u8, ..self }, mem)),
            Instruction::Ret => {
                if self.stack_ptr == 0 {
                    Err(CpuError::InvalidReturn)
                } else {
                    let top = self.stack_ptr - 1;
                    Ok((
                        CpuState {
                            pc: self.stack[top],
                            stack: self.stack.update(top, 0),
                            stack_ptr: top as nat,
                            ..self
                        },
                        mem,
                    ))
                }
            },
            Instruction::Clr => Ok((self.with_x(0), mem)),
            Instruction::Pop => Ok((CpuState { x: y, y: self.z, z: self.t, ..self }, mem)),
            Instruction::Lup(op) => Ok((self.with_x((x % 16 + op * 16) as u8), mem)),
            Instruction::Pup(op) => Ok((self.with_x((x - x % 16 + op) as u8), mem)),
            Instruction::Rvr(op) => Ok((if op == 0 { self } else { self.with_x(self.registers[op - 1]) }, mem)),
            Instruction::Wvr(op) => Ok((
                if op == 0 {
                    self
                } else {
                    CpuState { registers: self.registers.update(op - 1, x), ..self }
                },
                mem,
            )),
            Instruction::Ld(op) => {
                let s = self.after_address(op);
                Ok((s.with_x(mem[self.address(op) as int]), mem))
            },
            Instruction::St(op) => Ok((self.after_address(op), mem.update(self.address(op) as int, x))),
            Instruction::Jz(op) => {
                let s = self.after_address(op);
                Ok((if x == 0 { s.with_pc(self.address(op)) } else { s }, mem))
            },
            Instruction::Jmp(op) => Ok((self.after_address(op).with_pc(self.address(op)), mem)),
            Instruction::Call(op) => {
                if self.stack_ptr >= 4 {
                    Err(CpuError::DeepCall)
                } else {
                    let s = self.after_address(op);
                    Ok((
                        CpuState {
                            pc: self.address(op),
                            stack: self.stack.update(self.stack_ptr as int, self.pc),
                            stack_ptr: self.stack_ptr + 1,
                            ..s
                        },
                        mem,
                    ))
                }
            },
            Instruction::Jgt(op) => {
                let s = self.after_address(op);
                Ok((if 0 < x < 128 { s.with_pc(self.address(op)) } else { s }, mem))
            },
        }
    }

    /// `execute` as an outcome: on an error the state and the memory stay as they were.
    pub open spec fn run(self, ins: Instruction, mem: Seq<u8>) -> Outcome {
        match self.execute(ins, mem) {
            Ok((s, m)) => Outcome { state: s, mem: m, result: Ok(()) },
            Err(e) => Outcome { state: self, mem, result: Err(e) },
        }
    }

    /// The state once the opcode at `pc` has been fetched: `pc` has moved on by one.
    pub open spec fn fetched(self) -> CpuState {
        self.with_pc(inc8(self.pc))
    }

    /// One step: fetch the opcode at `pc` from `prog`, move `pc` on, decode, execute.
    pub open spec fn step(self, prog: Seq<u8>, mem: Seq<u8>) -> Outcome {
        let s = self.fetched();
        match decode_spec(prog[self.pc as int]) {
            Err(e) => Outcome { state: s, mem, result: Err(e) },
            Ok(ins) => s.run(ins, mem),
        }
    }

    /// The data access that the next step makes, if any, stays below `len`.
    pub open spec fn data_access_in_bounds(self, prog: Seq<u8>, len: nat) -> bool {
        let s = self.fetched();
        match decode_spec(prog[self.pc as int]) {
            Ok(Instruction::Ld(op)) => s.address(op) < len,
            Ok(Instruction::St(op)) => s.address(op) < len,
            _ => true,
        }
    }
}


/// Decodes one opcode.
pub fn decode(opcode: u8) -> (r: Result<Instruction, CpuError>)
    ensures
        r == decode_spec(opcode),
{
    let hi = (opcode & 0b1111_0000) >> 4;
    let r = opcode & 0b0000_1111;
    assert(hi == opcode / 16 && r == opcode % 16) by (bit_vector)
        requires
            hi == (opcode & 0xF0) >> 4,
            r == opcode & 0x0F,
    ;
    assert((opcode & 0b1100_0000) == 0 <==> opcode < 64) by (bit_vector);
    if opcode == 0x00 {
        return Err(CpuError::NOP);
    }
    if hi == 0b1100 {
        let ins = match r {
            0 => Instruction::Pts,
            1 => Instruction::Exy,
            2 => Instruction::Rts,
            3 => Instruction::Rpv,
            4 => Instruction::Add,
            5 => Instruction::Sub,
            6 => Instruction::Mul,
            7 => Instruction::Lsh,
            8 => Instruction::Rsh,
            9 => Instruction::And,
            10 => Instruction::Or,
            11 => Instruction::Xor,
            12 => Instruction::Not,
            13 => Instruction::Ret,
            14 => Instruction::Clr,
            _ => Instruction::Pop,
        };
        Ok(ins)
    } else if (opcode & 0b1100_0000) == 0 {
        Ok(Instruction::Immediate(opcode))
    } else {
        match hi {
            0b0100 => Ok(Instruction::Lup(r)),
            0b0101 => Ok(Instruction::Pup(r)),
            0b0110 => Ok(Instruction::Rvr(r)),
            0b1101 => Ok(Instruction::Wvr(r)),
            0b1000 => Ok(Instruction::Ld(r)),
            0b1001 => Ok(Instruction::St(r)),
            0b1010 => Ok(Instruction::Jz(r)),
            0b1011 => Ok(Instruction::Jmp(r)),
            0b1111 => Ok(Instruction::Call(r)),
            0b1110 => Ok(Instruction::Jgt(r)),
            _ => Err(CpuError::InvalidOpcode(opcode)),
        }
    }
}


/// The P1 processor: the four-slot operand stack `X`, `Y`, `Z`, `T`, the previous-value
/// register `X0`, the register file `R1..R15` and the four-level hardware call stack.
pub struct CPU {
    pc: u8,
    x: u8,
    y: u8,
    z: u8,
    t: u8,
    x0: u8,
    registers: Vec<u8>,
    stack: Vec<u8>,
    stack_ptr: usize,
}

impl View for CPU {
    type V = CpuState;

    closed spec fn view(&self) -> CpuState {
        CpuState {
            pc: self.pc,
            x: self.x,
            y: self.y,
            z: self.z,
            t: self.t,
            x0: self.x0,
            registers: self.registers@,
            stack: self.stack@,
            stack_ptr: self.stack_ptr as nat,
        }
    }
}

impl CPU {
    /// Every processor has fifteen registers and four call-stack slots, at most four of them in
    /// use and the unused ones clear.
    #[verifier::type_invariant]
    spec fn inv(&self) -> bool {
        self@.wf()
    }

    /// A processor in its power-on state.
    pub fn new() -> (cpu: Self)
        ensures
            cpu@ == CpuState::initial(),
    {
        let cpu = CPU {
            pc: 0,
            x: 0,
            y: 0,
            z: 0,
            t: 0,
            x0: 0,
            registers: vec![0;15],
            stack: vec![0;4],
            stack_ptr: 0,
        };
        assert(cpu@.registers =~= CpuState::initial().registers);
        assert(cpu@.stack =~= CpuState::initial().stack);
        cpu
    }

    /// The program counter.
    pub fn pc(&self) -> (r: u8)
        ensures
            r == self@.pc,
    {
        self.pc
    }

    /// The top of the operand stack, `X`.
    pub fn x(&self) -> (r: u8)
        ensures
            r == self@.x,
    {
        self.x
    }

    pub fn y(&self) -> (r: u8)
        ensures
            r == self@.y,
    {
        self.y
    }

    pub fn z(&self) -> (r: u8)
        ensures
            r == self@.z,
    {
        self.z
    }

    pub fn t(&self) -> (r: u8)
        ensures
            r == self@.t,
    {
        self.t
    }

    /// The previous value of `X`.
    pub fn x0(&self) -> (r: u8)
        ensures
            r == self@.x0,
    {
        self.x0
    }

    /// `R1..R15`, at indices 0 to 14.
    pub fn registers(&self) -> (r: &[u8])
        ensures
            r@ == self@.registers,
    {
        self.registers.as_slice()
    }

    /// The four slots of the call stack.
    pub fn stack(&self) -> (r: &[u8])
        ensures
            r@ == self@.stack,
    {
        self.stack.as_slice()
    }

    /// The number of call-stack slots in use.
    pub fn stack_ptr(&self) -> (r: usize)
        ensures
            r == self@.stack_ptr,
    {
        self.stack_ptr
    }

    /// Runs one instruction: fetches the opcode at `pc` from `prog_mem`, moves `pc` on by one
    /// (modulo 256), decodes it and executes it against `data_mem`.
    pub fn step(&mut self, prog_mem: &[u8], data_mem: &mut [u8]) -> (r: Result<(), CpuError>)
        requires
            (old(self)@.pc as int) < prog_mem@.len(),
            old(self)@.data_access_in_bounds(prog_mem@, old(data_mem)@.len()),
        ensures
            final(self)@.wf(),
            final(self)@ == old(self)@.step(prog_mem@, old(data_mem)@).state,
            final(data_mem)@ == old(self)@.step(prog_mem@, old(data_mem)@).mem,
            r == old(self)@.step(prog_mem@, old(data_mem)@).result,
    {
        proof {
            use_type_invariant(&*self);
        }
        let opcode: u8 = prog_mem[self.pc as usize];
        self.pc = self.pc.wrapping_add(1);
        let decoded = decode(opcode);
        proof {
            lemma_decoded_operand_ok(opcode);
        }
        match decoded {
            Err(e) => Err(e),
            Ok(ins) => self.execute(ins, data_mem),
        }
    }

    /// Executes a decoded instruction.
    fn execute(&mut self, ins: Instruction, data_mem: &mut [u8]) -> (r: Result<(), CpuError>)
        requires
            ins_operand_ok(ins),
            ins matches Instruction::Ld(op) ==> (old(self)@.address(op) as int) < old(data_mem)@.len(),
            ins matches Instruction::St(op) ==> (old(self)@.address(op) as int) < old(data_mem)@.len(),
        ensures
            final(self)@.wf(),
            final(self)@ == old(self)@.run(ins, old(data_mem)@).state,
            final(data_mem)@ == old(self)@.run(ins, old(data_mem)@).mem,
            r == old(self)@.run(ins, old(data_mem)@).result,
    {
        proof {
            use_type_invariant(&*self);
        }
        reveal(CpuState::execute);
        match ins {
            Instruction::Immediate(v) => {
                self.x = v;
                Ok(())
            },
            Instruction::Pts => self.pts(),
            Instruction::Exy => self.exy(),
            Instruction::Rts => self.rts(),
            Instruction::Rpv => self.rpv(),
            Instruction::Add => self.add(),
            Instruction::Sub => self.sub(),
            Instruction::Mul => self.mul(),
            Instruction::Lsh => self.lsh(),
            Instruction::Rsh => self.rsh(),
            Instruction::And => self.and(),
            Instruction::Or => self.or(),
            Instruction::Xor => self.xor(),
            Instruction::Not => self.not(),
            Instruction::Ret => self.ret(),
            Instruction::Clr => self.clr(),
            Instruction::Pop => self.pop(),
            Instruction::Lup(op) => self.lup(op),
            Instruction::Pup(op) => self.pup(op),
            Instruction::Rvr(op) => self.rvr(op),
            Instruction::Wvr(op) => self.wvr(op),
            Instruction::Ld(op) => self.ld(op, data_mem),
            Instruction::St(op) => self.st(op, data_mem),
            Instruction::Jz(op) => self.jz(op),
            Instruction::Jmp(op) => self.jmp(op),
            Instruction::Call(op) => self.call(op),
            Instruction::Jgt(op) => self.jgt(op),
        }
    }

    fn push_up(&mut self)
        ensures
            final(self)@ == old(self)@.push_up(),
    {
        proof {
            use_type_invariant(&*self);
        }
        self.t = self.z;
        self.z = self.y;
        self.y = self.x;
    }

    fn push_down(&mut self, op: impl Fn() -> u8)
        requires
            call_requires(op, ()),
        ensures
            call_ensures(op, (), final(self).x),
            final(self)@ == old(self)@.push_down(final(self).x),
    {
        proof {
            use_type_invariant(&*self);
        }
        self.x0 = self.x;
        self.x = op();
        self.y = self.z;
        self.z = self.t;
    }

    /// The address that register operand `operand` designates, with the automatic count
    /// down of `R1..R5` and count up of `R11..R15`.
    fn indirect_address(&mut self, operand: u8) -> (address: usize)
        requires
            operand < 16,
        ensures
            final(self)@.wf(),
            address == old(self)@.address(operand),
            final(self)@ == old(self)@.after_address(operand),
    {
        proof {
            use_type_invariant(&*self);
        }
        let mut address = self.y as usize;
        if operand > 0 {
            let reg = (operand - 1) as usize;
            address = self.registers[reg] as usize;
            if operand >= 1 && operand <= 5 {
                let v = self.registers[reg].wrapping_sub(1);
                self.registers = replaced(&self.registers, reg, v);
            } else if operand >= 11 && operand <= 15 {
                let v = self.registers[reg].wrapping_add(1);
                self.registers = replaced(&self.registers, reg, v);
            }
        }
        address
    }

    fn pts(&mut self) -> (r: Result<(), CpuError>)
        ensures
            final(self)@ == old(self)@.run(Instruction::Pts, Seq::empty()).state,
            r == old(self)@.run(Instruction::Pts, Seq::empty()).result,
    {
        proof {
            use_type_invariant(&*self);
        }
        reveal(CpuState::execute);
        self.push_up();
        Ok(())
    }

    fn pop(&mut self) -> (r: Result<(), CpuError>)
        ensures
            final(self)@ == old(self)@.run(Instruction::Pop, Seq::empty()).state,
            r == old(self)@.run(Instruction::Pop, Seq::empty()).result,
    {
        proof {
            use_type_invariant(&*self);
        }
        reveal(CpuState::execute);
        self.x = self.y;
        self.y = self.z;
        self.z = self.t;
        Ok(())
    }

    fn exy(&mut self) -> (r: Result<(), CpuError>)
        ensures
            final(self)@ == old(self)@.run(Instruction::Exy, Seq::empty()).state,
            r == old(self)@.run(Instruction::Exy, Seq::empty()).result,
    {
        proof {
            use_type_invariant(&*self);
        }
        reveal(CpuState::execute);
        let (x, y) = (self.x, self.y);
        self.x = y;
        self.y = x;
        Ok(())
    }

    fn rts(&mut self) -> (r: Result<(), CpuError>)
        ensures
            final(self)@ == old(self)@.run(Instruction::Rts, Seq::empty()).state,
            r == old(self)@.run(Instruction::Rts, Seq::empty()).result,
    {
        proof {
            use_type_invariant(&*self);
        }
        reveal(CpuState::execute);
        let x = self.x;
        self.x = self.y;
        self.y = self.z;
        self.z = self.t;
        self.t = x;
        Ok(())
    }

    fn rpv(&mut self) -> (r: Result<(), CpuError>)
        ensures
            final(self)@ == old(self)@.run(Instruction::Rpv, Seq::empty()).state,
            r == old(self)@.run(Instruction::Rpv, Seq::empty()).result,
    {
        proof {
            use_type_invariant(&*self);
        }
        reveal(CpuState::execute);
        self.push_up();
        self.x = self.x0;
        Ok(())
    }

    fn add(&mut self) -> (r: Result<(), CpuError>)
        ensures
            final(self)@ == old(self)@.run(Instruction::Add, Seq::empty()).state,
            r == old(self)@.run(Instruction::Add, Seq::empty()).result,
    {
        proof {
            use_type_invariant(&*self);
        }
        reveal(CpuState::execute);
        let (x, y) = (self.x, self.y);
        proof {
            lemma_add_mod(x, y);
        }
        self.push_down(|| -> (v: u8) ensures v == (x + y) % 256 { x.wrapping_add(y) });
        Ok(())
    }

    fn sub(&mut self) -> (r: Result<(), CpuError>)
        ensures
            final(self)@ == old(self)@.run(Instruction::Sub, Seq::empty()).state,
            r == old(self)@.run(Instruction::Sub, Seq::empty()).result,
    {
        proof {
            use_type_invariant(&*self);
        }
        reveal(CpuState::execute);
        let (x, y) = (self.x, self.y);
        proof {
            lemma_sub_mod(x, y);
        }
        self.push_down(|| -> (v: u8) ensures v == (x - y) % 256 { x.wrapping_sub(y) });
        Ok(())
    }

    fn mul(&mut self) -> (r: Result<(), CpuError>)
        ensures
            final(self)@ == old(self)@.run(Instruction::Mul, Seq::empty()).state,
            r == old(self)@.run(Instruction::Mul, Seq::empty()).result,
    {
        proof {
            use_type_invariant(&*self);
        }
        reveal(CpuState::execute);
        let (x, y) = (self.x, self.y);
        self.push_down(|| -> (v: u8) ensures v == (x * y) % 256 { x.wrapping_mul(y) });
        Ok(())
    }

    fn lsh(&mut self) -> (r: Result<(), CpuError>)
        ensures
            final(self)@ == old(self)@.run(Instruction::Lsh, Seq::empty()).state,
            r == old(self)@.run(Instruction::Lsh, Seq::empty()).result,
    {
        proof {
            use_type_invariant(&*self);
        }
        reveal(CpuState::execute);
        let x = self.x;
        self.x0 = x;
        let v = x << 1;
        assert(v == (x * 2) % 256) by (bit_vector)
            requires v == x << 1;
        self.x = v;
        Ok(())
    }

    fn rsh(&mut self) -> (r: Result<(), CpuError>)
        ensures
            final(self)@ == old(self)@.run(Instruction::Rsh, Seq::empty()).state,
            r == old(self)@.run(Instruction::Rsh, Seq::empty()).result,
    {
        proof {
            use_type_invariant(&*self);
        }
        reveal(CpuState::execute);
        let x = self.x;
        self.x0 = x;
        let v = x >> 1;
        assert(v == x / 2) by (bit_vector)
            requires v == x >> 1;
        self.x = v;
        Ok(())
    }

    fn and(&mut self) -> (r: Result<(), CpuError>)
        ensures
            final(self)@ == old(self)@.run(Instruction::And, Seq::empty()).state,
            r == old(self)@.run(Instruction::And, Seq::empty()).result,
    {
        proof {
            use_type_invariant(&*self);
        }
        reveal(CpuState::execute);
        let (x, y) = (self.x, self.y);
        self.push_down(|| -> (v: u8) ensures v == x & y { x & y });
        Ok(())
    }

    fn or(&mut self) -> (r: Result<(), CpuError>)
        ensures
            final(self)@ == old(self)@.run(Instruction::Or, Seq::empty()).state,
            r == old(self)@.run(Instruction::Or, Seq::empty()).result,
    {
        proof {
            use_type_invariant(&*self);
        }
        reveal(CpuState::execute);
        let (x, y) = (self.x, self.y);
        self.push_down(|| -> (v: u8) ensures v == x | y { x | y });
        Ok(())
    }

    fn xor(&mut self) -> (r: Result<(), CpuError>)
        ensures
            final(self)@ == old(self)@.run(Instruction::Xor, Seq::empty()).state,
            r == old(self)@.run(Instruction::Xor, Seq::empty()).result,
    {
        proof {
            use_type_invariant(&*self);
        }
        reveal(CpuState::execute);
        let (x, y) = (self.x, self.y);
        self.push_down(|| -> (v: u8) ensures v == x ^ y { x ^ y });
        Ok(())
    }

    fn not(&mut self) -> (r: Result<(), CpuError>)
        ensures
            final(self)@ == old(self)@.run(Instruction::Not, Seq::empty()).state,
            r == old(self)@.run(Instruction::Not, Seq::empty()).result,
    {
        proof {
            use_type_invariant(&*self);
        }
        reveal(CpuState::execute);
        let x = self.x;
        self.x0 = x;
        let v = !x;
        assert(v == 255 - x) by (bit_vector)
            requires v == !x;
        self.x = v;
        Ok(())
    }

    fn ret(&mut self) -> (r: Result<(), CpuError>)
        requires
        ensures
            final(self)@.wf(),
            final(self)@ == old(self)@.run(Instruction::Ret, Seq::empty()).state,
            r == old(self)@.run(Instruction::Ret, Seq::empty()).result,
    {
        proof {
            use_type_invariant(&*self);
        }
        reveal(CpuState::execute);
        if self.stack_ptr == 0 {
            return Err(CpuError::InvalidReturn);
        }
        self.pc = self.stack[self.stack_ptr - 1];
        self.stack = replaced(&self.stack, self.stack_ptr - 1, 0);
        self.stack_ptr = self.stack_ptr - 1;
        Ok(())
    }

    fn clr(&mut self) -> (r: Result<(), CpuError>)
        ensures
            final(self)@ == old(self)@.run(Instruction::Clr, Seq::empty()).state,
            r == old(self)@.run(Instruction::Clr, Seq::empty()).result,
    {
        proof {
            use_type_invariant(&*self);
        }
        reveal(CpuState::execute);
        self.x = 0;
        Ok(())
    }

    fn lup(&mut self, operand: u8) -> (r: Result<(), CpuError>)
        requires
            operand < 16,
        ensures
            final(self)@ == old(self)@.run(Instruction::Lup(operand), Seq::empty()).state,
            r == old(self)@.run(Instruction::Lup(operand), Seq::empty()).result,
    {
        proof {
            use_type_invariant(&*self);
        }
        reveal(CpuState::execute);
        let x = self.x;
        let v = (x & 0b00001111) | (operand << 4);
        assert(v == x % 16 + operand * 16) by (bit_vector)
            requires
                v == (x & 0x0F) | (operand << 4),
                operand < 16,
        ;
        self.x = v;
        Ok(())
    }

    fn pup(&mut self, operand: u8) -> (r: Result<(), CpuError>)
        requires
            operand < 16,
        ensures
            final(self)@ == old(self)@.run(Instruction::Pup(operand), Seq::empty()).state,
            r == old(self)@.run(Instruction::Pup(operand), Seq::empty()).result,
    {
        proof {
            use_type_invariant(&*self);
        }
        reveal(CpuState::execute);
        let x = self.x;
        let v = (x & 0b11110000) | operand;
        assert(v == x - x % 16 + operand) by (bit_vector)
            requires
                v == (x & 0xF0) | operand,
                operand < 16,
        ;
        self.x = v;
        Ok(())
    }

    fn rvr(&mut self, operand: u8) -> (r: Result<(), CpuError>)
        requires
            operand < 16,
        ensures
            final(self)@ == old(self)@.run(Instruction::Rvr(operand), Seq::empty()).state,
            r == old(self)@.run(Instruction::Rvr(operand), Seq::empty()).result,
    {
        proof {
            use_type_invariant(&*self);
        }
        reveal(CpuState::execute);
        if operand != 0 {
            self.x = self.registers[(operand - 1) as usize];
        }
        Ok(())
    }

    fn wvr(&mut self, operand: u8) -> (r: Result<(), CpuError>)
        requires
            operand < 16,
        ensures
            final(self)@.wf(),
            final(self)@ == old(self)@.run(Instruction::Wvr(operand), Seq::empty()).state,
            r == old(self)@.run(Instruction::Wvr(operand), Seq::empty()).result,
    {
        proof {
            use_type_invariant(&*self);
        }
        reveal(CpuState::execute);
        if operand != 0 {
            let x = self.x;
            self.registers = replaced(&self.registers, (operand - 1) as usize, x);
        }
        Ok(())
    }

    fn ld(&mut self, operand: u8, data_mem: &[u8]) -> (r: Result<(), CpuError>)
        requires
            operand < 16,
            (old(self)@.address(operand) as int) < data_mem@.len(),
        ensures
            final(self)@.wf(),
            final(self)@ == old(self)@.run(Instruction::Ld(operand), data_mem@).state,
            r == old(self)@.run(Instruction::Ld(operand), data_mem@).result,
    {
        proof {
            use_type_invariant(&*self);
        }
        reveal(CpuState::execute);
        let address = self.indirect_address(operand);
        self.x = data_mem[address];
        Ok(())
    }

    fn st(&mut self, operand: u8, data_mem: &mut [u8]) -> (r: Result<(), CpuError>)
        requires
            operand < 16,
            (old(self)@.address(operand) as int) < old(data_mem)@.len(),
        ensures
            final(self)@.wf(),
            final(self)@ == old(self)@.run(Instruction::St(operand), old(data_mem)@).state,
            final(data_mem)@ == old(self)@.run(Instruction::St(operand), old(data_mem)@).mem,
            r == old(self)@.run(Instruction::St(operand), old(data_mem)@).result,
    {
        proof {
            use_type_invariant(&*self);
        }
        reveal(CpuState::execute);
        let address = self.indirect_address(operand);
        data_mem[address] = self.x;
        Ok(())
    }

    fn jz(&mut self, operand: u8) -> (r: Result<(), CpuError>)
        requires
            operand < 16,
        ensures
            final(self)@.wf(),
            final(self)@ == old(self)@.run(Instruction::Jz(operand), Seq::empty()).state,
            r == old(self)@.run(Instruction::Jz(operand), Seq::empty()).result,
    {
        proof {
            use_type_invariant(&*self);
        }
        reveal(CpuState::execute);
        let address = self.indirect_address(operand);
        if self.x == 0 {
            self.pc = address as u8;
        }
        Ok(())
    }

    fn jmp(&mut self, operand: u8) -> (r: Result<(), CpuError>)
        requires
            operand < 16,
        ensures
            final(self)@.wf(),
            final(self)@ == old(self)@.run(Instruction::Jmp(operand), Seq::empty()).state,
            r == old(self)@.run(Instruction::Jmp(operand), Seq::empty()).result,
    {
        proof {
            use_type_invariant(&*self);
        }
        reveal(CpuState::execute);
        let address = self.indirect_address(operand);
        self.pc = address as u8;
        Ok(())
    }

    fn call(&mut self, operand: u8) -> (r: Result<(), CpuError>)
        requires
            operand < 16,
        ensures
            final(self)@.wf(),
            final(self)@ == old(self)@.run(Instruction::Call(operand), Seq::empty()).state,
            r == old(self)@.run(Instruction::Call(operand), Seq::empty()).result,
    {
        proof {
            use_type_invariant(&*self);
        }
        reveal(CpuState::execute);
        if self.stack_ptr >= 4 {
            return Err(CpuError::DeepCall);
        }
        let address = self.indirect_address(operand);
        self.stack_ptr = self.stack_ptr + 1;
        let pc = self.pc;
        self.stack = replaced(&self.stack, self.stack_ptr - 1, pc);
        self.pc = address as u8;
        Ok(())
    }

    fn jgt(&mut self, operand: u8) -> (r: Result<(), CpuError>)
        requires
            operand < 16,
        ensures
            final(self)@.wf(),
            final(self)@ == old(self)@.run(Instruction::Jgt(operand), Seq::empty()).state,
            r == old(self)@.run(Instruction::Jgt(operand), Seq::empty()).result,
    {
        proof {
            use_type_invariant(&*self);
        }
        reveal(CpuState::execute);
        let address = self.indirect_address(operand);
        let x = self.x;
        assert((x & 0x80) == 0 <==> x < 128) by (bit_vector);
        if x != 0 && (x & 0b10000000) == 0 {
            self.pc = address as u8;
        }
        Ok(())
    }
}

/// A copy of `v` with element `i` set to `x`.
fn replaced(v: &Vec<u8>, i: usize, x: u8) -> (r: Vec<u8>)
    requires
        i < v@.len(),
    ensures
        r@ == v@.update(i as int, x),
{
    let mut r: Vec<u8> = Vec::new();
    let mut k: usize = 0;
    while k < v.len()
        invariant
            i < v@.len(),
            k <= v@.len(),
            r@ =~= v@.update(i as int, x).take(k as int),
        decreases v@.len() - k,
    {
        if k == i {
            r.push(x);
        } else {
            r.push(v[k]);
        }
        k = k + 1;
    }
    assert(r@ =~= v@.update(i as int, x));
    r
}

proof fn lemma_add_mod(x: u8, y: u8)
    ensures
        (x + y) % 256 == if x + y > 255 { x + y - 256 } else { x + y },
{
    assert((x + y) % 256 == if x + y > 255 { x + y - 256 } else { x + y }) by (nonlinear_arith)
        requires
            x < 256,
            y < 256,
    ;
}

proof fn lemma_sub_mod(x: u8, y: u8)
    ensures
        (x - y) % 256 == if x - y < 0 { x - y + 256 } else { x - y },
{
    assert((x - y) % 256 == if x - y < 0 { x - y + 256 } else { x - y }) by (nonlinear_arith)
        requires
            x < 256,
            y < 256,
    ;
}

/// Decoding yields four-bit operands.
pub proof fn lemma_decoded_operand_ok(opcode: u8)
    ensures
        decode_spec(opcode) matches Ok(ins) ==> ins_operand_ok(ins),
{
}

/// Register and nibble operands fit in four bits, as `decode` produces them.
pub open spec fn ins_operand_ok(ins: Instruction) -> bool {
    match ins {
        Instruction::Lup(op) => op < 16,
        Instruction::Pup(op) => op < 16,
        Instruction::Rvr(op) => op < 16,
        Instruction::Wvr(op) => op < 16,
        Instruction::Ld(op) => op < 16,
        Instruction::St(op) => op < 16,
        Instruction::Jz(op) => op < 16,
        Instruction::Jmp(op) => op < 16,
        Instruction::Call(op) => op < 16,
        Instruction::Jgt(op) => op < 16,
        _ => true,
    }
}

} // verus!
