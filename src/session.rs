use vstd::prelude::*;

use crate::link::{
    check_operands, fits, lemma_relocation_range, operands_between, operands_in_range, pool_operand, relocated, shift_operands,
    OpCodeMetadata,
};
use crate::value::{Value, ValueView};

verus! {

/// The view of a sequence of values.
pub open spec fn values_view(s: Seq<Value>) -> Seq<ValueView> {
    s.map_values(|v: Value| v@)
}

/// A compiled unit: its instructions, its own zero-based constants, and
/// whether its pool operands have been moved already.
pub struct Unit {
    code: Vec<OpCodeMetadata>,
    constants: Vec<Value>,
    relocated: bool,
}

pub struct UnitView {
    pub code: Seq<OpCodeMetadata>,
    pub constants: Seq<ValueView>,
    pub relocated: bool,
}

impl View for Unit {
    type V = UnitView;

    closed spec fn view(&self) -> UnitView {
        UnitView {
            code: self.code@,
            constants: values_view(self.constants@),
            relocated: self.relocated,
        }
    }
}

/// Why a unit could not be merged into a session.
#[derive(Debug, Clone, Copy, PartialEq, Eq, Structural)]
pub enum LinkError {
    /// The unit's operands were moved before; moving them again would
    /// point them past its constants.
    AlreadyRelocated,
    /// A pool operand of the unit lies outside the unit's own constants.
    OperandOutOfRange,
}

impl Unit {
    /// A freshly compiled unit, not yet relocated.
    pub fn new(code: Vec<OpCodeMetadata>, constants: Vec<Value>) -> (r: Unit)
        ensures
            r@.code == code@,
            r@.constants == values_view(constants@),
            !r@.relocated,
    {
        Unit { code, constants, relocated: false }
    }

    pub fn code(&self) -> (r: &[OpCodeMetadata])
        ensures
            r@ == self@.code,
    {
        self.code.as_slice()
    }

    pub fn constants(&self) -> (r: &[Value])
        ensures
            values_view(r@) == self@.constants,
    {
        self.constants.as_slice()
    }

    pub fn is_relocated(&self) -> (r: bool)
        ensures
            r == self@.relocated,
    {
        self.relocated
    }
}

/// Moves the unit's constant-pool operands up by `old_len`, the length the
/// session's pool had before the unit's constants are appended. This runs
/// once per unit: on a unit relocated before it changes nothing and returns
/// `false`, so a second pass by mistake cannot move the operands again.
pub fn patch_bytecode(unit: &mut Unit, old_len: usize) -> (r: bool)
    requires
        !old(unit)@.relocated ==> fits(old(unit)@.code, old_len as int),
    ensures
        r == !old(unit)@.relocated,
        old(unit)@.relocated ==> final(unit)@ == old(unit)@,
        !old(unit)@.relocated ==> final(unit)@ == (UnitView {
            code: relocated(old(unit)@.code, old_len as int),
            constants: old(unit)@.constants,
            relocated: true,
        }),
{
    if unit.relocated {
        return false;
    }
    shift_operands(unit.code.as_mut_slice(), old_len);
    unit.relocated = true;
    true
}

/// The persistent state of an evaluation loop: the cumulative constant pool
/// and the operand stack.
pub struct Session {
    constants: Vec<Value>,
    stack: Vec<Value>,
}

pub struct SessionView {
    pub pool: Seq<ValueView>,
    pub stack: Seq<ValueView>,
}

impl View for Session {
    type V = SessionView;

    closed spec fn view(&self) -> SessionView {
        SessionView { pool: values_view(self.constants@), stack: values_view(self.stack@) }
    }
}

impl Session {
    /// A session with an empty pool and an empty stack.
    pub fn new() -> (r: Session)
        ensures
            r@.pool.len() == 0,
            r@.stack.len() == 0,
    {
        let r = Session { constants: Vec::new(), stack: Vec::new() };
        assert(r@.pool =~= Seq::<ValueView>::empty());
        assert(r@.stack =~= Seq::<ValueView>::empty());
        r
    }

    pub fn pool_len(&self) -> (r: usize)
        ensures
            r == self@.pool.len(),
    {
        self.constants.len()
    }

    pub fn constants(&self) -> (r: &[Value])
        ensures
            values_view(r@) == self@.pool,
    {
        self.constants.as_slice()
    }

    /// The pool entry at `idx`, if the pool has one.
    pub fn constant(&self, idx: usize) -> (r: Option<&Value>)
        ensures
            idx < self@.pool.len() ==> (r matches Some(v) && v@ == self@.pool[idx as int]),
            idx >= self@.pool.len() ==> r is None,
    {
        if idx < self.constants.len() {
            Some(&self.constants[idx])
        } else {
            None
        }
    }

    /// Merges a unit into the session: its pool operands are moved up by
    /// the current pool length and its constants appended in order. The
    /// relocated code is handed back for execution. A unit relocated before,
    /// or one whose operands lie outside its own constants, is refused and
    /// the session left as it was.
    pub fn link(&mut self, unit: Unit) -> (r: Result<Vec<OpCodeMetadata>, LinkError>)
        requires
            old(self)@.pool.len() + unit@.constants.len() <= usize::MAX,
        ensures
            unit@.relocated ==> {
                &&& r == Err::<Vec<OpCodeMetadata>, LinkError>(LinkError::AlreadyRelocated)
                &&& final(self)@ == old(self)@
            },
            !unit@.relocated && !operands_in_range(unit@.code, unit@.constants.len() as int) ==> {
                &&& r == Err::<Vec<OpCodeMetadata>, LinkError>(LinkError::OperandOutOfRange)
                &&& final(self)@ == old(self)@
            },
            !unit@.relocated && operands_in_range(unit@.code, unit@.constants.len() as int) ==> {
                &&& r matches Ok(code) && code@ == relocated(unit@.code, old(self)@.pool.len() as int)
                &&& r matches Ok(code) && operands_between(
                    code@,
                    old(self)@.pool.len() as int,
                    final(self)@.pool.len() as int,
                )
                &&& final(self)@.pool == old(self)@.pool + unit@.constants
                &&& final(self)@.pool.len() == old(self)@.pool.len() + unit@.constants.len()
                &&& final(self)@.stack == old(self)@.stack
            },
    {
        let mut unit = unit;
        if unit.is_relocated() {
            return Err(LinkError::AlreadyRelocated);
        }
        if !check_operands(unit.code(), unit.constants.len()) {
            return Err(LinkError::OperandOutOfRange);
        }
        let base = self.constants.len();
        proof {
            lemma_relocation_range(self@.pool, unit@.code, unit@.constants);
        }
        assert(fits(unit@.code, base as int)) by {
            assert forall|i: int| 0 <= i < unit@.code.len() implies match #[trigger] pool_operand(unit@.code[i].opcode) {
                Some(x) => x + base <= usize::MAX,
                None => true,
            } by {
                assert(operands_in_range(unit@.code, unit@.constants.len() as int));
            }
        }
        patch_bytecode(&mut unit, base);
        let Unit { code, constants, relocated: _ } = unit;
        let mut constants = constants;
        let ghost before = self.constants@;
        let ghost added = constants@;
        self.constants.append(&mut constants);
        assert(values_view(self.constants@) =~= values_view(before) + values_view(added));
        Ok(code)
    }

    /// Pushes a value onto the operand stack.
    pub fn push(&mut self, v: Value)
        ensures
            final(self)@.pool == old(self)@.pool,
            final(self)@.stack == old(self)@.stack.push(v@),
    {
        self.stack.push(v);
        assert(values_view(self.stack@) =~= values_view(old(self).stack@).push(v@));
    }

    /// Takes the top of the operand stack, if there is one.
    pub fn pop_last(&mut self) -> (r: Option<Value>)
        ensures
            final(self)@.pool == old(self)@.pool,
            old(self)@.stack.len() == 0 ==> r is None && final(self)@.stack == old(self)@.stack,
            old(self)@.stack.len() > 0 ==> (r matches Some(v) && v@ == old(self)@.stack.last()),
            old(self)@.stack.len() > 0 ==> final(self)@.stack == old(self)@.stack.drop_last(),
    {
        let r = self.stack.pop();
        proof {
            if old(self).stack@.len() > 0 {
                assert(values_view(self.stack@) =~= values_view(old(self).stack@).drop_last());
            }
        }
        r
    }

    /// Clears the operand stack between evaluations; the pool is kept.
    pub fn reset(&mut self)
        ensures
            final(self)@.pool == old(self)@.pool,
            final(self)@.stack.len() == 0,
    {
        self.stack.clear();
    }
}

} // verus!
