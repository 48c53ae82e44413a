use vstd::prelude::*;
use vstd::slice::*;

use crate::value::ValueView;

verus! {

/// The instructions of a compiled unit. `Push` loads a constant from the
/// pool; the jump and call operands are code offsets and argument counts.
#[derive(Debug, Clone, Copy, PartialEq, Eq, Structural)]
pub enum OpCode {
    Push(usize),
    Pop,
    Dup,
    Add,
    Sub,
    Mul,
    Div,
    Neg,
    Not,
    Eq,
    Jmp(usize),
    Jmf(usize),
    Call(usize),
    Ret,
    Halt,
}

/// An instruction with the source position it was compiled from.
#[derive(Debug, Clone, Copy, PartialEq, Eq, Structural)]
pub struct OpCodeMetadata {
    pub line: usize,
    pub column: usize,
    pub opcode: OpCode,
}

/// The constant-pool index an opcode carries, if any. Every opcode is
/// listed, so that a new one must be classified here before it compiles.
pub open spec fn pool_operand(op: OpCode) -> Option<usize> {
    match op {
        OpCode::Push(i) => Some(i),
        OpCode::Pop => None,
        OpCode::Dup => None,
        OpCode::Add => None,
        OpCode::Sub => None,
        OpCode::Mul => None,
        OpCode::Div => None,
        OpCode::Neg => None,
        OpCode::Not => None,
        OpCode::Eq => None,
        OpCode::Jmp(_) => None,
        OpCode::Jmf(_) => None,
        OpCode::Call(_) => None,
        OpCode::Ret => None,
        OpCode::Halt => None,
    }
}

/// An opcode with its pool operand, if it has one, moved up by `base`.
pub open spec fn relocate_op(op: OpCode, base: int) -> OpCode {
    match op {
        OpCode::Push(i) => OpCode::Push((i + base) as usize),
        _ => op,
    }
}

/// Every pool operand of `code` stays a `usize` when moved up by `base`.
pub open spec fn fits(code: Seq<OpCodeMetadata>, base: int) -> bool {
    forall|i: int|
        0 <= i < code.len() ==> match #[trigger] pool_operand(code[i].opcode) {
            Some(x) => x + base <= usize::MAX,
            None => true,
        }
}

/// Every pool operand of `code` indexes a pool of `n` constants.
pub open spec fn operands_in_range(code: Seq<OpCodeMetadata>, n: int) -> bool {
    forall|i: int|
        0 <= i < code.len() ==> match #[trigger] pool_operand(code[i].opcode) {
            Some(x) => x < n,
            None => true,
        }
}

/// Every pool operand of `code` lies in `[lo, hi)`.
pub open spec fn operands_between(code: Seq<OpCodeMetadata>, lo: int, hi: int) -> bool {
    forall|i: int|
        0 <= i < code.len() ==> match #[trigger] pool_operand(code[i].opcode) {
            Some(x) => lo <= x < hi,
            None => true,
        }
}

pub open spec fn relocate_instr(op: OpCodeMetadata, base: int) -> OpCodeMetadata {
    OpCodeMetadata { line: op.line, column: op.column, opcode: relocate_op(op.opcode, base) }
}

/// `code` with every pool operand moved up by `base`, all else unchanged.
pub open spec fn relocated(code: Seq<OpCodeMetadata>, base: int) -> Seq<OpCodeMetadata> {
    Seq::new(code.len(), |i: int| relocate_instr(code[i], base))
}

impl OpCode {
    /// The constant-pool index this opcode carries, if any.
    pub fn pool_index(&self) -> (r: Option<usize>)
        ensures
            r == pool_operand(*self),
    {
        match self {
            OpCode::Push(i) => Some(*i),
            OpCode::Pop => None,
            OpCode::Dup => None,
            OpCode::Add => None,
            OpCode::Sub => None,
            OpCode::Mul => None,
            OpCode::Div => None,
            OpCode::Neg => None,
            OpCode::Not => None,
            OpCode::Eq => None,
            OpCode::Jmp(_) => None,
            OpCode::Jmf(_) => None,
            OpCode::Call(_) => None,
            OpCode::Ret => None,
            OpCode::Halt => None,
        }
    }

    /// This opcode with its pool operand, if any, moved up by `base`.
    pub fn relocate(self, base: usize) -> (r: OpCode)
        requires
            match pool_operand(self) {
                Some(x) => x + base <= usize::MAX,
                None => true,
            },
        ensures
            r == relocate_op(self, base as int),
    {
        match self {
            OpCode::Push(i) => OpCode::Push(i + base),
            _ => self,
        }
    }
}

/// Moves every constant-pool operand of `ops` up by `old_len`. This pass has
/// no memory of earlier runs; [`crate::session::patch_bytecode`] is the
/// guarded one.
pub(crate) fn shift_operands(ops: &mut [OpCodeMetadata], old_len: usize)
    requires
        fits(old(ops)@, old_len as int),
    ensures
        final(ops)@ == relocated(old(ops)@, old_len as int),
{
    let n = ops.len();
    let mut i: usize = 0;
    while i < n
        invariant
            n == ops@.len() == old(ops)@.len(),
            i <= n,
            fits(old(ops)@, old_len as int),
            forall|j: int| 0 <= j < i ==> ops@[j] == relocate_instr(old(ops)@[j], old_len as int),
            forall|j: int| i <= j < n ==> ops@[j] == old(ops)@[j],
        decreases n - i,
    {
        let op = ops[i];
        assert(match pool_operand(old(ops)@[i as int].opcode) {
            Some(x) => x + old_len <= usize::MAX,
            None => true,
        });
        let moved = OpCodeMetadata {
            line: op.line,
            column: op.column,
            opcode: op.opcode.relocate(old_len),
        };
        ops.set(i, moved);
        i = i + 1;
    }
    assert(ops@ =~= relocated(old(ops)@, old_len as int));
}

/// Tells whether every constant-pool operand of `code` indexes a pool of
/// `n_consts` constants.
pub fn check_operands(code: &[OpCodeMetadata], n_consts: usize) -> (r: bool)
    ensures
        r == operands_in_range(code@, n_consts as int),
{
    let n = code.len();
    let mut i: usize = 0;
    while i < n
        invariant
            n == code@.len(),
            i <= n,
            forall|j: int|
                0 <= j < i ==> match #[trigger] pool_operand(code@[j].opcode) {
                    Some(x) => x < n_consts,
                    None => true,
                },
        decreases n - i,
    {
        match code[i].opcode.pool_index() {
            Some(x) => {
                if x >= n_consts {
                    assert(pool_operand(code@[i as int].opcode) == Some(x));
                    return false;
                }
            },
            None => {},
        }
        i = i + 1;
    }
    true
}

/// The pool entry an instruction loads, if it carries a pool operand that
/// lies inside `pool`.
pub open spec fn resolve(pool: Seq<ValueView>, op: OpCodeMetadata) -> Option<ValueView> {
    match pool_operand(op.opcode) {
        Some(x) => if x < pool.len() {
            Some(pool[x as int])
        } else {
            None
        },
        None => None,
    }
}

proof fn lemma_relocate_operand(op: OpCodeMetadata, base: int)
    requires
        0 <= base,
        pool_operand(op.opcode) matches Some(x) ==> x + base <= usize::MAX,
    ensures
        pool_operand(op.opcode) is None ==> pool_operand(relocate_instr(op, base).opcode) is None,
        pool_operand(op.opcode) matches Some(x) ==> pool_operand(relocate_instr(op, base).opcode)
            == Some((x + base) as usize),
{
}

/// Merging a unit whose operands index its own `k` constants into a pool
/// of length `L` moves every pool operand into `[L, L + k)`, leaves the
/// other instructions as they were, and gives a pool of `L + k` entries.
pub proof fn lemma_relocation_range(
    pool: Seq<ValueView>,
    code: Seq<OpCodeMetadata>,
    consts: Seq<ValueView>,
)
    requires
        operands_in_range(code, consts.len() as int),
        pool.len() + consts.len() <= usize::MAX,
    ensures
        (pool + consts).len() == pool.len() + consts.len(),
        relocated(code, pool.len() as int).len() == code.len(),
        forall|i: int|
            0 <= i < code.len() ==> match #[trigger] pool_operand(
                relocated(code, pool.len() as int)[i].opcode,
            ) {
                Some(x) => pool.len() <= x < pool.len() + consts.len(),
                None => code[i] == relocated(code, pool.len() as int)[i],
            },
{
    assert forall|i: int| 0 <= i < code.len() implies match #[trigger] pool_operand(
        relocated(code, pool.len() as int)[i].opcode,
    ) {
        Some(x) => pool.len() <= x < pool.len() + consts.len(),
        None => code[i] == relocated(code, pool.len() as int)[i],
    } by {
        assert(match pool_operand(code[i].opcode) {
            Some(x) => x < consts.len(),
            None => true,
        });
        lemma_relocate_operand(code[i], pool.len() as int);
        if pool_operand(code[i].opcode) is None {
            assert(relocate_op(code[i].opcode, pool.len() as int) == code[i].opcode);
        }
    }
}

/// Two units merged one after the other into the same pool: afterwards every
/// relocated instruction of the first still loads the first unit's own
/// constant, and every one of the second loads the second unit's.
pub proof fn lemma_sequential_link(
    pool: Seq<ValueView>,
    a_code: Seq<OpCodeMetadata>,
    a_consts: Seq<ValueView>,
    b_code: Seq<OpCodeMetadata>,
    b_consts: Seq<ValueView>,
)
    requires
        operands_in_range(a_code, a_consts.len() as int),
        operands_in_range(b_code, b_consts.len() as int),
        pool.len() + a_consts.len() + b_consts.len() <= usize::MAX,
    ensures
        forall|i: int|
            0 <= i < a_code.len() ==> (#[trigger] pool_operand(a_code[i].opcode) matches Some(x)
                ==> resolve(
                pool + a_consts + b_consts,
                relocated(a_code, pool.len() as int)[i],
            ) == Some(a_consts[x as int])),
        forall|i: int|
            0 <= i < b_code.len() ==> (#[trigger] pool_operand(b_code[i].opcode) matches Some(x)
                ==> resolve(
                pool + a_consts + b_consts,
                relocated(b_code, (pool.len() + a_consts.len()) as int)[i],
            ) == Some(b_consts[x as int])),
{
    let whole = pool + a_consts + b_consts;
    assert forall|i: int| 0 <= i < a_code.len() implies (#[trigger] pool_operand(
        a_code[i].opcode,
    ) matches Some(x) ==> resolve(whole, relocated(a_code, pool.len() as int)[i]) == Some(
        a_consts[x as int],
    )) by {
        if let Some(x) = pool_operand(a_code[i].opcode) {
            lemma_relocate_operand(a_code[i], pool.len() as int);
            assert(whole[pool.len() + x] == a_consts[x as int]);
        }
    }
    assert forall|i: int| 0 <= i < b_code.len() implies (#[trigger] pool_operand(
        b_code[i].opcode,
    ) matches Some(x) ==> resolve(
        whole,
        relocated(b_code, (pool.len() + a_consts.len()) as int)[i],
    ) == Some(b_consts[x as int])) by {
        if let Some(x) = pool_operand(b_code[i].opcode) {
            lemma_relocate_operand(b_code[i], (pool.len() + a_consts.len()) as int);
            assert(whole[pool.len() + a_consts.len() + x] == b_consts[x as int]);
        }
    }
}

} // verus!
