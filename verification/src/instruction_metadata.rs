//! Instruction arity metadata: how many immediate parameters each WAT
//! instruction takes and how many stack values it consumes and produces.
use vstd::prelude::*;
use crate::text;
use crate::text::{
    chars_eq_str, chars_of, contains_str, ends_with_str, find_last_exec, push_decimal, sub_chars,
    starts_with_str,
};

verus! {

/// How many operands an instruction consumes from the stack.
#[derive(Debug, Clone, Copy, PartialEq, Eq, Structural)]
pub enum OperandMode {
    Fixed(usize),
    /// Depends on type definition or other context
    Dynamic,
}

/// The expected parameter count for a WAT instruction.
#[derive(Debug, Clone, Copy)]
pub struct InstructionArity {
    pub min_params: usize,
    pub max_params: usize,
    pub param_description: &'static str,
    /// Number of operands this instruction consumes from the stack (for folded expressions)
    pub operand_mode: OperandMode,
    /// Number of values this instruction pushes to the stack
    pub produces: usize,
}

impl InstructionArity {
    /// Exactly `count` immediates; consumes `stack_operands`, pushes `produces`.
    pub fn exact(count: usize, description: &'static str, stack_operands: usize, produces: usize) -> (r: Self)
        ensures
            r == (InstructionArity {
                min_params: count,
                max_params: count,
                param_description: description,
                operand_mode: OperandMode::Fixed(stack_operands),
                produces,
            }),
    {
        Self {
            min_params: count,
            max_params: count,
            param_description: description,
            operand_mode: OperandMode::Fixed(stack_operands),
            produces,
        }
    }

    /// Instructions with dynamic arity (like struct.new).
    pub fn dynamic(min_params: usize, max_params: usize, description: &'static str, produces: usize) -> (r: Self)
        ensures
            r == (InstructionArity {
                min_params,
                max_params,
                param_description: description,
                operand_mode: OperandMode::Dynamic,
                produces,
            }),
    {
        Self { min_params, max_params, param_description: description, operand_mode: OperandMode::Dynamic, produces }
    }

    /// Index-based instruction (local.get, global.get, etc.) - produces a value.
    pub fn index(description: &'static str) -> (r: Self)
        ensures
            r == InstructionArity::spec_exact(1, description, 0, 1),
    {
        Self::exact(1, description, 0, 1)
    }

    /// Index-based instruction that consumes a value (local.set, global.set).
    pub fn index_set(description: &'static str) -> (r: Self)
        ensures
            r == InstructionArity::spec_exact(1, description, 1, 0),
    {
        Self::exact(1, description, 1, 0)
    }

    /// Index-based instruction that consumes and produces a value (local.tee).
    pub fn index_tee(description: &'static str) -> (r: Self)
        ensures
            r == InstructionArity::spec_exact(1, description, 1, 1),
    {
        Self::exact(1, description, 1, 1)
    }

    /// Constant instruction (i32.const, f64.const) - produces a value.
    pub fn constant(description: &'static str) -> (r: Self)
        ensures
            r == InstructionArity::spec_exact(1, description, 0, 1),
    {
        Self::exact(1, description, 0, 1)
    }

    /// Binary operator (i32.add, i32.mul, etc.) - consumes 2 values, produces 1.
    pub fn binary_op() -> (r: Self)
        ensures
            r == InstructionArity::spec_exact(0, "", 2, 1),
    {
        Self::exact(0, "", 2, 1)
    }

    /// Unary operator (i32.eqz, i32.clz, etc.) - consumes 1 value, produces 1.
    pub fn unary_op() -> (r: Self)
        ensures
            r == InstructionArity::spec_exact(0, "", 1, 1),
    {
        Self::exact(0, "", 1, 1)
    }

    /// No params or operands and no production (nop).
    pub fn nullary() -> (r: Self)
        ensures
            r == InstructionArity::spec_exact(0, "", 0, 0),
    {
        Self::exact(0, "", 0, 0)
    }

    /// Consumes 1 value and produces nothing (drop).
    pub fn drop_op() -> (r: Self)
        ensures
            r == InstructionArity::spec_exact(0, "", 1, 0),
    {
        Self::exact(0, "", 1, 0)
    }

    /// Memory load: optional memory index; consumes the address, produces the value.
    pub fn mem_load() -> (r: Self)
        ensures
            r == InstructionArity::spec_optional_memory(1, 1),
    {
        Self {
            min_params: 0,
            max_params: 1,
            param_description: "optional memory index",
            operand_mode: OperandMode::Fixed(1),
            produces: 1,
        }
    }

    /// Memory store: optional memory index; consumes address and value.
    pub fn mem_store() -> (r: Self)
        ensures
            r == InstructionArity::spec_optional_memory(2, 0),
    {
        Self {
            min_params: 0,
            max_params: 1,
            param_description: "optional memory index",
            operand_mode: OperandMode::Fixed(2),
            produces: 0,
        }
    }

    /// Atomic read-modify-write: address + operand, produces the old value.
    pub fn mem_rmw() -> (r: Self)
        ensures
            r == InstructionArity::spec_optional_memory(2, 1),
    {
        Self {
            min_params: 0,
            max_params: 1,
            param_description: "optional memory index",
            operand_mode: OperandMode::Fixed(2),
            produces: 1,
        }
    }

    /// Atomic compare-exchange: address + expected + replacement, produces the old value.
    pub fn mem_cmpxchg() -> (r: Self)
        ensures
            r == InstructionArity::spec_optional_memory(3, 1),
    {
        Self {
            min_params: 0,
            max_params: 1,
            param_description: "optional memory index",
            operand_mode: OperandMode::Fixed(3),
            produces: 1,
        }
    }

    pub open spec fn spec_exact(count: usize, description: &'static str, stack_operands: usize, produces: usize) -> Self {
        InstructionArity {
            min_params: count,
            max_params: count,
            param_description: description,
            operand_mode: OperandMode::Fixed(stack_operands),
            produces,
        }
    }

    pub open spec fn spec_optional_memory(stack_operands: usize, produces: usize) -> Self {
        InstructionArity {
            min_params: 0,
            max_params: 1,
            param_description: "optional memory index",
            operand_mode: OperandMode::Fixed(stack_operands),
            produces,
        }
    }

    /// Whether `param_count` immediates are acceptable.
    pub fn is_valid(&self, param_count: usize) -> (b: bool)
        ensures
            b == (self.min_params <= param_count <= self.max_params),
    {
        param_count >= self.min_params && param_count <= self.max_params
    }

    /// Human-readable description of the accepted parameter count.
    pub fn expected_message(&self) -> (s: String)
        ensures
            s@ == expected_message_spec(*self),
    {
        let mut s = String::new();
        push_decimal(&mut s, self.min_params as u64);
        if self.min_params != self.max_params {
            s.append("-");
            push_decimal(&mut s, self.max_params as u64);
        }
        if !self.param_description.is_empty() {
            s.append(" (");
            s.append(self.param_description);
            s.append(")");
        }
        proof {
            let m = text::decimal(self.min_params as nat);
            let x = text::decimal(self.max_params as nat);
            let d = self.param_description@;
            if self.min_params == self.max_params {
                if d.len() == 0 {
                    assert(s@ =~= m);
                } else {
                    assert(s@ =~= m + " ("@ + d + ")"@);
                }
            } else if d.len() == 0 {
                assert(s@ =~= m + "-"@ + x);
            } else {
                assert(s@ =~= m + "-"@ + x + " ("@ + d + ")"@);
            }
        }
        s
    }
}

/// The message that `expected_message` builds, e.g. `1 (index)` or `0-1`.
pub open spec fn expected_message_spec(a: InstructionArity) -> Seq<char> {
    let m = text::decimal(a.min_params as nat);
    let x = text::decimal(a.max_params as nat);
    let d = a.param_description@;
    if a.min_params == a.max_params {
        if d.len() == 0 {
            m
        } else {
            m + " ("@ + d + ")"@
        }
    } else if d.len() == 0 {
        m + "-"@ + x
    } else {
        m + "-"@ + x + " ("@ + d + ")"@
    }
}

/// Every instruction with a known fixed shape, written down in name order;
/// sorting it by name (`sorted_arity_table`) leaves it as it is
/// (`law_arity_table_sorted`).
pub open spec fn arity_table() -> Seq<(&'static str, InstructionArity)> {
    seq![
        ("any.convert_extern", InstructionArity { min_params: 0, max_params: 0, param_description: "", operand_mode: OperandMode::Fixed(1), produces: 1 }),
        ("array.copy", InstructionArity { min_params: 2, max_params: 2, param_description: "dest and src type index", operand_mode: OperandMode::Fixed(5), produces: 0 }),
        ("array.fill", InstructionArity { min_params: 1, max_params: 1, param_description: "type index", operand_mode: OperandMode::Fixed(4), produces: 0 }),
        ("array.get", InstructionArity { min_params: 1, max_params: 1, param_description: "type index", operand_mode: OperandMode::Fixed(2), produces: 1 }),
        ("array.get_s", InstructionArity { min_params: 1, max_params: 1, param_description: "type index", operand_mode: OperandMode::Fixed(2), produces: 1 }),
        ("array.get_u", InstructionArity { min_params: 1, max_params: 1, param_description: "type index", operand_mode: OperandMode::Fixed(2), produces: 1 }),
        ("array.init_data", InstructionArity { min_params: 2, max_params: 2, param_description: "type and data index", operand_mode: OperandMode::Fixed(4), produces: 0 }),
        ("array.init_elem", InstructionArity { min_params: 2, max_params: 2, param_description: "type and elem index", operand_mode: OperandMode::Fixed(4), produces: 0 }),
        ("array.len", InstructionArity { min_params: 0, max_params: 0, param_description: "", operand_mode: OperandMode::Fixed(1), produces: 1 }),
        ("array.new", InstructionArity { min_params: 1, max_params: 1, param_description: "type index", operand_mode: OperandMode::Fixed(2), produces: 1 }),
        ("array.new_data", InstructionArity { min_params: 2, max_params: 2, param_description: "type and data index", operand_mode: OperandMode::Fixed(2), produces: 1 }),
        ("array.new_default", InstructionArity { min_params: 1, max_params: 1, param_description: "type index", operand_mode: OperandMode::Fixed(1), produces: 1 }),
        ("array.new_elem", InstructionArity { min_params: 2, max_params: 2, param_description: "type and elem index", operand_mode: OperandMode::Fixed(2), produces: 1 }),
        ("array.new_fixed", InstructionArity { min_params: 2, max_params: 2, param_description: "type index and length", operand_mode: OperandMode::Dynamic, produces: 1 }),
        ("array.set", InstructionArity { min_params: 1, max_params: 1, param_description: "type index", operand_mode: OperandMode::Fixed(3), produces: 0 }),
        ("atomic.fence", InstructionArity { min_params: 0, max_params: 0, param_description: "", operand_mode: OperandMode::Fixed(0), produces: 0 }),
        ("br", InstructionArity { min_params: 1, max_params: 1, param_description: "label index", operand_mode: OperandMode::Dynamic, produces: 0 }),
        ("br_if", InstructionArity { min_params: 1, max_params: 1, param_description: "label index", operand_mode: OperandMode::Dynamic, produces: 0 }),
        ("br_on_cast", InstructionArity { min_params: 3, max_params: 3, param_description: "label, source and target type", operand_mode: OperandMode::Fixed(1), produces: 0 }),
        ("br_on_cast_fail", InstructionArity { min_params: 3, max_params: 3, param_description: "label, source and target type", operand_mode: OperandMode::Fixed(1), produces: 0 }),
        ("br_on_non_null", InstructionArity { min_params: 1, max_params: 1, param_description: "label index", operand_mode: OperandMode::Dynamic, produces: 0 }),
        ("br_on_null", InstructionArity { min_params: 1, max_params: 1, param_description: "label index", operand_mode: OperandMode::Dynamic, produces: 1 }),
        ("br_table", InstructionArity { min_params: 1, max_params: usize::MAX, param_description: "label indices", operand_mode: OperandMode::Dynamic, produces: 0 }),
        ("call", InstructionArity { min_params: 1, max_params: 1, param_description: "function index", operand_mode: OperandMode::Dynamic, produces: 0 }),
        ("call_indirect", InstructionArity { min_params: 1, max_params: 1, param_description: "type index", operand_mode: OperandMode::Dynamic, produces: 0 }),
        ("call_ref", InstructionArity { min_params: 1, max_params: 1, param_description: "type index", operand_mode: OperandMode::Dynamic, produces: 0 }),
        ("data.drop", InstructionArity { min_params: 1, max_params: 1, param_description: "data index", operand_mode: OperandMode::Fixed(0), produces: 0 }),
        ("drop", InstructionArity { min_params: 0, max_params: 0, param_description: "", operand_mode: OperandMode::Fixed(1), produces: 0 }),
        ("elem.drop", InstructionArity { min_params: 1, max_params: 1, param_description: "elem index", operand_mode: OperandMode::Fixed(0), produces: 0 }),
        ("extern.convert_any", InstructionArity { min_params: 0, max_params: 0, param_description: "", operand_mode: OperandMode::Fixed(1), produces: 1 }),
        ("f32.abs", InstructionArity { min_params: 0, max_params: 0, param_description: "", operand_mode: OperandMode::Fixed(1), produces: 1 }),
        ("f32.add", InstructionArity { min_params: 0, max_params: 0, param_description: "", operand_mode: OperandMode::Fixed(2), produces: 1 }),
        ("f32.ceil", InstructionArity { min_params: 0, max_params: 0, param_description: "", operand_mode: OperandMode::Fixed(1), produces: 1 }),
        ("f32.const", InstructionArity { min_params: 1, max_params: 1, param_description: "literal value", operand_mode: OperandMode::Fixed(0), produces: 1 }),
        ("f32.convert_i32_s", InstructionArity { min_params: 0, max_params: 0, param_description: "", operand_mode: OperandMode::Fixed(1), produces: 1 }),
        ("f32.convert_i32_u", InstructionArity { min_params: 0, max_params: 0, param_description: "", operand_mode: OperandMode::Fixed(1), produces: 1 }),
        ("f32.convert_i64_s", InstructionArity { min_params: 0, max_params: 0, param_description: "", operand_mode: OperandMode::Fixed(1), produces: 1 }),
        ("f32.convert_i64_u", InstructionArity { min_params: 0, max_params: 0, param_description: "", operand_mode: OperandMode::Fixed(1), produces: 1 }),
        ("f32.copysign", InstructionArity { min_params: 0, max_params: 0, param_description: "", operand_mode: OperandMode::Fixed(2), produces: 1 }),
        ("f32.demote_f64", InstructionArity { min_params: 0, max_params: 0, param_description: "", operand_mode: OperandMode::Fixed(1), produces: 1 }),
        ("f32.div", InstructionArity { min_params: 0, max_params: 0, param_description: "", operand_mode: OperandMode::Fixed(2), produces: 1 }),
        ("f32.eq", InstructionArity { min_params: 0, max_params: 0, param_description: "", operand_mode: OperandMode::Fixed(2), produces: 1 }),
        ("f32.floor", InstructionArity { min_params: 0, max_params: 0, param_description: "", operand_mode: OperandMode::Fixed(1), produces: 1 }),
        ("f32.ge", InstructionArity { min_params: 0, max_params: 0, param_description: "", operand_mode: OperandMode::Fixed(2), produces: 1 }),
        ("f32.gt", InstructionArity { min_params: 0, max_params: 0, param_description: "", operand_mode: OperandMode::Fixed(2), produces: 1 }),
        ("f32.le", InstructionArity { min_params: 0, max_params: 0, param_description: "", operand_mode: OperandMode::Fixed(2), produces: 1 }),
        ("f32.load", InstructionArity { min_params: 0, max_params: 1, param_description: "optional memory index", operand_mode: OperandMode::Fixed(1), produces: 1 }),
        ("f32.lt", InstructionArity { min_params: 0, max_params: 0, param_description: "", operand_mode: OperandMode::Fixed(2), produces: 1 }),
        ("f32.max", InstructionArity { min_params: 0, max_params: 0, param_description: "", operand_mode: OperandMode::Fixed(2), produces: 1 }),
        ("f32.min", InstructionArity { min_params: 0, max_params: 0, param_description: "", operand_mode: OperandMode::Fixed(2), produces: 1 }),
        ("f32.mul", InstructionArity { min_params: 0, max_params: 0, param_description: "", operand_mode: OperandMode::Fixed(2), produces: 1 }),
        ("f32.ne", InstructionArity { min_params: 0, max_params: 0, param_description: "", operand_mode: OperandMode::Fixed(2), produces: 1 }),
        ("f32.nearest", InstructionArity { min_params: 0, max_params: 0, param_description: "", operand_mode: OperandMode::Fixed(1), produces: 1 }),
        ("f32.neg", InstructionArity { min_params: 0, max_params: 0, param_description: "", operand_mode: OperandMode::Fixed(1), produces: 1 }),
        ("f32.reinterpret_i32", InstructionArity { min_params: 0, max_params: 0, param_description: "", operand_mode: OperandMode::Fixed(1), produces: 1 }),
        ("f32.sqrt", InstructionArity { min_params: 0, max_params: 0, param_description: "", operand_mode: OperandMode::Fixed(1), produces: 1 }),
        ("f32.store", InstructionArity { min_params: 0, max_params: 1, param_description: "optional memory index", operand_mode: OperandMode::Fixed(2), produces: 0 }),
        ("f32.sub", InstructionArity { min_params: 0, max_params: 0, param_description: "", operand_mode: OperandMode::Fixed(2), produces: 1 }),
        ("f32.trunc", InstructionArity { min_params: 0, max_params: 0, param_description: "", operand_mode: OperandMode::Fixed(1), produces: 1 }),
        ("f64.abs", InstructionArity { min_params: 0, max_params: 0, param_description: "", operand_mode: OperandMode::Fixed(1), produces: 1 }),
        ("f64.add", InstructionArity { min_params: 0, max_params: 0, param_description: "", operand_mode: OperandMode::Fixed(2), produces: 1 }),
        ("f64.ceil", InstructionArity { min_params: 0, max_params: 0, param_description: "", operand_mode: OperandMode::Fixed(1), produces: 1 }),
        ("f64.const", InstructionArity { min_params: 1, max_params: 1, param_description: "literal value", operand_mode: OperandMode::Fixed(0), produces: 1 }),
        ("f64.convert_i32_s", InstructionArity { min_params: 0, max_params: 0, param_description: "", operand_mode: OperandMode::Fixed(1), produces: 1 }),
        ("f64.convert_i32_u", InstructionArity { min_params: 0, max_params: 0, param_description: "", operand_mode: OperandMode::Fixed(1), produces: 1 }),
        ("f64.convert_i64_s", InstructionArity { min_params: 0, max_params: 0, param_description: "", operand_mode: OperandMode::Fixed(1), produces: 1 }),
        ("f64.convert_i64_u", InstructionArity { min_params: 0, max_params: 0, param_description: "", operand_mode: OperandMode::Fixed(1), produces: 1 }),
        ("f64.copysign", InstructionArity { min_params: 0, max_params: 0, param_description: "", operand_mode: OperandMode::Fixed(2), produces: 1 }),
        ("f64.div", InstructionArity { min_params: 0, max_params: 0, param_description: "", operand_mode: OperandMode::Fixed(2), produces: 1 }),
        ("f64.eq", InstructionArity { min_params: 0, max_params: 0, param_description: "", operand_mode: OperandMode::Fixed(2), produces: 1 }),
        ("f64.floor", InstructionArity { min_params: 0, max_params: 0, param_description: "", operand_mode: OperandMode::Fixed(1), produces: 1 }),
        ("f64.ge", InstructionArity { min_params: 0, max_params: 0, param_description: "", operand_mode: OperandMode::Fixed(2), produces: 1 }),
        ("f64.gt", InstructionArity { min_params: 0, max_params: 0, param_description: "", operand_mode: OperandMode::Fixed(2), produces: 1 }),
        ("f64.le", InstructionArity { min_params: 0, max_params: 0, param_description: "", operand_mode: OperandMode::Fixed(2), produces: 1 }),
        ("f64.load", InstructionArity { min_params: 0, max_params: 1, param_description: "optional memory index", operand_mode: OperandMode::Fixed(1), produces: 1 }),
        ("f64.lt", InstructionArity { min_params: 0, max_params: 0, param_description: "", operand_mode: OperandMode::Fixed(2), produces: 1 }),
        ("f64.max", InstructionArity { min_params: 0, max_params: 0, param_description: "", operand_mode: OperandMode::Fixed(2), produces: 1 }),
        ("f64.min", InstructionArity { min_params: 0, max_params: 0, param_description: "", operand_mode: OperandMode::Fixed(2), produces: 1 }),
        ("f64.mul", InstructionArity { min_params: 0, max_params: 0, param_description: "", operand_mode: OperandMode::Fixed(2), produces: 1 }),
        ("f64.ne", InstructionArity { min_params: 0, max_params: 0, param_description: "", operand_mode: OperandMode::Fixed(2), produces: 1 }),
        ("f64.nearest", InstructionArity { min_params: 0, max_params: 0, param_description: "", operand_mode: OperandMode::Fixed(1), produces: 1 }),
        ("f64.neg", InstructionArity { min_params: 0, max_params: 0, param_description: "", operand_mode: OperandMode::Fixed(1), produces: 1 }),
        ("f64.promote_f32", InstructionArity { min_params: 0, max_params: 0, param_description: "", operand_mode: OperandMode::Fixed(1), produces: 1 }),
        ("f64.reinterpret_i64", InstructionArity { min_params: 0, max_params: 0, param_description: "", operand_mode: OperandMode::Fixed(1), produces: 1 }),
        ("f64.sqrt", InstructionArity { min_params: 0, max_params: 0, param_description: "", operand_mode: OperandMode::Fixed(1), produces: 1 }),
        ("f64.store", InstructionArity { min_params: 0, max_params: 1, param_description: "optional memory index", operand_mode: OperandMode::Fixed(2), produces: 0 }),
        ("f64.sub", InstructionArity { min_params: 0, max_params: 0, param_description: "", operand_mode: OperandMode::Fixed(2), produces: 1 }),
        ("f64.trunc", InstructionArity { min_params: 0, max_params: 0, param_description: "", operand_mode: OperandMode::Fixed(1), produces: 1 }),
        ("global.get", InstructionArity { min_params: 1, max_params: 1, param_description: "index", operand_mode: OperandMode::Fixed(0), produces: 1 }),
        ("global.set", InstructionArity { min_params: 1, max_params: 1, param_description: "index", operand_mode: OperandMode::Fixed(1), produces: 0 }),
        ("i31.get_s", InstructionArity { min_params: 0, max_params: 0, param_description: "", operand_mode: OperandMode::Fixed(1), produces: 1 }),
        ("i31.get_u", InstructionArity { min_params: 0, max_params: 0, param_description: "", operand_mode: OperandMode::Fixed(1), produces: 1 }),
        ("i32.add", InstructionArity { min_params: 0, max_params: 0, param_description: "", operand_mode: OperandMode::Fixed(2), produces: 1 }),
        ("i32.and", InstructionArity { min_params: 0, max_params: 0, param_description: "", operand_mode: OperandMode::Fixed(2), produces: 1 }),
        ("i32.atomic.load", InstructionArity { min_params: 0, max_params: 1, param_description: "optional memory index", operand_mode: OperandMode::Fixed(1), produces: 1 }),
        ("i32.atomic.load16_u", InstructionArity { min_params: 0, max_params: 1, param_description: "optional memory index", operand_mode: OperandMode::Fixed(1), produces: 1 }),
        ("i32.atomic.load8_u", InstructionArity { min_params: 0, max_params: 1, param_description: "optional memory index", operand_mode: OperandMode::Fixed(1), produces: 1 }),
        ("i32.atomic.rmw.add", InstructionArity { min_params: 0, max_params: 1, param_description: "optional memory index", operand_mode: OperandMode::Fixed(2), produces: 1 }),
        ("i32.atomic.rmw.and", InstructionArity { min_params: 0, max_params: 1, param_description: "optional memory index", operand_mode: OperandMode::Fixed(2), produces: 1 }),
        ("i32.atomic.rmw.cmpxchg", InstructionArity { min_params: 0, max_params: 1, param_description: "optional memory index", operand_mode: OperandMode::Fixed(3), produces: 1 }),
        ("i32.atomic.rmw.or", InstructionArity { min_params: 0, max_params: 1, param_description: "optional memory index", operand_mode: OperandMode::Fixed(2), produces: 1 }),
        ("i32.atomic.rmw.sub", InstructionArity { min_params: 0, max_params: 1, param_description: "optional memory index", operand_mode: OperandMode::Fixed(2), produces: 1 }),
        ("i32.atomic.rmw.xchg", InstructionArity { min_params: 0, max_params: 1, param_description: "optional memory index", operand_mode: OperandMode::Fixed(2), produces: 1 }),
        ("i32.atomic.rmw.xor", InstructionArity { min_params: 0, max_params: 1, param_description: "optional memory index", operand_mode: OperandMode::Fixed(2), produces: 1 }),
        ("i32.atomic.rmw16.add_u", InstructionArity { min_params: 0, max_params: 1, param_description: "optional memory index", operand_mode: OperandMode::Fixed(2), produces: 1 }),
        ("i32.atomic.rmw16.and_u", InstructionArity { min_params: 0, max_params: 1, param_description: "optional memory index", operand_mode: OperandMode::Fixed(2), produces: 1 }),
        ("i32.atomic.rmw16.cmpxchg_u", InstructionArity { min_params: 0, max_params: 1, param_description: "optional memory index", operand_mode: OperandMode::Fixed(3), produces: 1 }),
        ("i32.atomic.rmw16.or_u", InstructionArity { min_params: 0, max_params: 1, param_description: "optional memory index", operand_mode: OperandMode::Fixed(2), produces: 1 }),
        ("i32.atomic.rmw16.sub_u", InstructionArity { min_params: 0, max_params: 1, param_description: "optional memory index", operand_mode: OperandMode::Fixed(2), produces: 1 }),
        ("i32.atomic.rmw16.xchg_u", InstructionArity { min_params: 0, max_params: 1, param_description: "optional memory index", operand_mode: OperandMode::Fixed(2), produces: 1 }),
        ("i32.atomic.rmw16.xor_u", InstructionArity { min_params: 0, max_params: 1, param_description: "optional memory index", operand_mode: OperandMode::Fixed(2), produces: 1 }),
        ("i32.atomic.rmw8.add_u", InstructionArity { min_params: 0, max_params: 1, param_description: "optional memory index", operand_mode: OperandMode::Fixed(2), produces: 1 }),
        ("i32.atomic.rmw8.and_u", InstructionArity { min_params: 0, max_params: 1, param_description: "optional memory index", operand_mode: OperandMode::Fixed(2), produces: 1 }),
        ("i32.atomic.rmw8.cmpxchg_u", InstructionArity { min_params: 0, max_params: 1, param_description: "optional memory index", operand_mode: OperandMode::Fixed(3), produces: 1 }),
        ("i32.atomic.rmw8.or_u", InstructionArity { min_params: 0, max_params: 1, param_description: "optional memory index", operand_mode: OperandMode::Fixed(2), produces: 1 }),
        ("i32.atomic.rmw8.sub_u", InstructionArity { min_params: 0, max_params: 1, param_description: "optional memory index", operand_mode: OperandMode::Fixed(2), produces: 1 }),
        ("i32.atomic.rmw8.xchg_u", InstructionArity { min_params: 0, max_params: 1, param_description: "optional memory index", operand_mode: OperandMode::Fixed(2), produces: 1 }),
        ("i32.atomic.rmw8.xor_u", InstructionArity { min_params: 0, max_params: 1, param_description: "optional memory index", operand_mode: OperandMode::Fixed(2), produces: 1 }),
        ("i32.atomic.store", InstructionArity { min_params: 0, max_params: 1, param_description: "optional memory index", operand_mode: OperandMode::Fixed(2), produces: 0 }),
        ("i32.atomic.store16", InstructionArity { min_params: 0, max_params: 1, param_description: "optional memory index", operand_mode: OperandMode::Fixed(2), produces: 0 }),
        ("i32.atomic.store8", InstructionArity { min_params: 0, max_params: 1, param_description: "optional memory index", operand_mode: OperandMode::Fixed(2), produces: 0 }),
        ("i32.clz", InstructionArity { min_params: 0, max_params: 0, param_description: "", operand_mode: OperandMode::Fixed(1), produces: 1 }),
        ("i32.const", InstructionArity { min_params: 1, max_params: 1, param_description: "literal value", operand_mode: OperandMode::Fixed(0), produces: 1 }),
        ("i32.ctz", InstructionArity { min_params: 0, max_params: 0, param_description: "", operand_mode: OperandMode::Fixed(1), produces: 1 }),
        ("i32.div_s", InstructionArity { min_params: 0, max_params: 0, param_description: "", operand_mode: OperandMode::Fixed(2), produces: 1 }),
        ("i32.div_u", InstructionArity { min_params: 0, max_params: 0, param_description: "", operand_mode: OperandMode::Fixed(2), produces: 1 }),
        ("i32.eq", InstructionArity { min_params: 0, max_params: 0, param_description: "", operand_mode: OperandMode::Fixed(2), produces: 1 }),
        ("i32.eqz", InstructionArity { min_params: 0, max_params: 0, param_description: "", operand_mode: OperandMode::Fixed(1), produces: 1 }),
        ("i32.extend16_s", InstructionArity { min_params: 0, max_params: 0, param_description: "", operand_mode: OperandMode::Fixed(1), produces: 1 }),
        ("i32.extend8_s", InstructionArity { min_params: 0, max_params: 0, param_description: "", operand_mode: OperandMode::Fixed(1), produces: 1 }),
        ("i32.ge_s", InstructionArity { min_params: 0, max_params: 0, param_description: "", operand_mode: OperandMode::Fixed(2), produces: 1 }),
        ("i32.ge_u", InstructionArity { min_params: 0, max_params: 0, param_description: "", operand_mode: OperandMode::Fixed(2), produces: 1 }),
        ("i32.gt_s", InstructionArity { min_params: 0, max_params: 0, param_description: "", operand_mode: OperandMode::Fixed(2), produces: 1 }),
        ("i32.gt_u", InstructionArity { min_params: 0, max_params: 0, param_description: "", operand_mode: OperandMode::Fixed(2), produces: 1 }),
        ("i32.le_s", InstructionArity { min_params: 0, max_params: 0, param_description: "", operand_mode: OperandMode::Fixed(2), produces: 1 }),
        ("i32.le_u", InstructionArity { min_params: 0, max_params: 0, param_description: "", operand_mode: OperandMode::Fixed(2), produces: 1 }),
        ("i32.load", InstructionArity { min_params: 0, max_params: 1, param_description: "optional memory index", operand_mode: OperandMode::Fixed(1), produces: 1 }),
        ("i32.load16_s", InstructionArity { min_params: 0, max_params: 1, param_description: "optional memory index", operand_mode: OperandMode::Fixed(1), produces: 1 }),
        ("i32.load16_u", InstructionArity { min_params: 0, max_params: 1, param_description: "optional memory index", operand_mode: OperandMode::Fixed(1), produces: 1 }),
        ("i32.load8_s", InstructionArity { min_params: 0, max_params: 1, param_description: "optional memory index", operand_mode: OperandMode::Fixed(1), produces: 1 }),
        ("i32.load8_u", InstructionArity { min_params: 0, max_params: 1, param_description: "optional memory index", operand_mode: OperandMode::Fixed(1), produces: 1 }),
        ("i32.lt_s", InstructionArity { min_params: 0, max_params: 0, param_description: "", operand_mode: OperandMode::Fixed(2), produces: 1 }),
        ("i32.lt_u", InstructionArity { min_params: 0, max_params: 0, param_description: "", operand_mode: OperandMode::Fixed(2), produces: 1 }),
        ("i32.mul", InstructionArity { min_params: 0, max_params: 0, param_description: "", operand_mode: OperandMode::Fixed(2), produces: 1 }),
        ("i32.ne", InstructionArity { min_params: 0, max_params: 0, param_description: "", operand_mode: OperandMode::Fixed(2), produces: 1 }),
        ("i32.or", InstructionArity { min_params: 0, max_params: 0, param_description: "", operand_mode: OperandMode::Fixed(2), produces: 1 }),
        ("i32.popcnt", InstructionArity { min_params: 0, max_params: 0, param_description: "", operand_mode: OperandMode::Fixed(1), produces: 1 }),
        ("i32.reinterpret_f32", InstructionArity { min_params: 0, max_params: 0, param_description: "", operand_mode: OperandMode::Fixed(1), produces: 1 }),
        ("i32.rem_s", InstructionArity { min_params: 0, max_params: 0, param_description: "", operand_mode: OperandMode::Fixed(2), produces: 1 }),
        ("i32.rem_u", InstructionArity { min_params: 0, max_params: 0, param_description: "", operand_mode: OperandMode::Fixed(2), produces: 1 }),
        ("i32.rotl", InstructionArity { min_params: 0, max_params: 0, param_description: "", operand_mode: OperandMode::Fixed(2), produces: 1 }),
        ("i32.rotr", InstructionArity { min_params: 0, max_params: 0, param_description: "", operand_mode: OperandMode::Fixed(2), produces: 1 }),
        ("i32.shl", InstructionArity { min_params: 0, max_params: 0, param_description: "", operand_mode: OperandMode::Fixed(2), produces: 1 }),
        ("i32.shr_s", InstructionArity { min_params: 0, max_params: 0, param_description: "", operand_mode: OperandMode::Fixed(2), produces: 1 }),
        ("i32.shr_u", InstructionArity { min_params: 0, max_params: 0, param_description: "", operand_mode: OperandMode::Fixed(2), produces: 1 }),
        ("i32.store", InstructionArity { min_params: 0, max_params: 1, param_description: "optional memory index", operand_mode: OperandMode::Fixed(2), produces: 0 }),
        ("i32.store16", InstructionArity { min_params: 0, max_params: 1, param_description: "optional memory index", operand_mode: OperandMode::Fixed(2), produces: 0 }),
        ("i32.store8", InstructionArity { min_params: 0, max_params: 1, param_description: "optional memory index", operand_mode: OperandMode::Fixed(2), produces: 0 }),
        ("i32.sub", InstructionArity { min_params: 0, max_params: 0, param_description: "", operand_mode: OperandMode::Fixed(2), produces: 1 }),
        ("i32.trunc_f32_s", InstructionArity { min_params: 0, max_params: 0, param_description: "", operand_mode: OperandMode::Fixed(1), produces: 1 }),
        ("i32.trunc_f32_u", InstructionArity { min_params: 0, max_params: 0, param_description: "", operand_mode: OperandMode::Fixed(1), produces: 1 }),
        ("i32.trunc_f64_s", InstructionArity { min_params: 0, max_params: 0, param_description: "", operand_mode: OperandMode::Fixed(1), produces: 1 }),
        ("i32.trunc_f64_u", InstructionArity { min_params: 0, max_params: 0, param_description: "", operand_mode: OperandMode::Fixed(1), produces: 1 }),
        ("i32.trunc_sat_f32_s", InstructionArity { min_params: 0, max_params: 0, param_description: "", operand_mode: OperandMode::Fixed(1), produces: 1 }),
        ("i32.trunc_sat_f32_u", InstructionArity { min_params: 0, max_params: 0, param_description: "", operand_mode: OperandMode::Fixed(1), produces: 1 }),
        ("i32.trunc_sat_f64_s", InstructionArity { min_params: 0, max_params: 0, param_description: "", operand_mode: OperandMode::Fixed(1), produces: 1 }),
        ("i32.trunc_sat_f64_u", InstructionArity { min_params: 0, max_params: 0, param_description: "", operand_mode: OperandMode::Fixed(1), produces: 1 }),
        ("i32.wrap_i64", InstructionArity { min_params: 0, max_params: 0, param_description: "", operand_mode: OperandMode::Fixed(1), produces: 1 }),
        ("i32.xor", InstructionArity { min_params: 0, max_params: 0, param_description: "", operand_mode: OperandMode::Fixed(2), produces: 1 }),
        ("i64.add", InstructionArity { min_params: 0, max_params: 0, param_description: "", operand_mode: OperandMode::Fixed(2), produces: 1 }),
        ("i64.and", InstructionArity { min_params: 0, max_params: 0, param_description: "", operand_mode: OperandMode::Fixed(2), produces: 1 }),
        ("i64.atomic.load", InstructionArity { min_params: 0, max_params: 1, param_description: "optional memory index", operand_mode: OperandMode::Fixed(1), produces: 1 }),
        ("i64.atomic.load16_u", InstructionArity { min_params: 0, max_params: 1, param_description: "optional memory index", operand_mode: OperandMode::Fixed(1), produces: 1 }),
        ("i64.atomic.load32_u", InstructionArity { min_params: 0, max_params: 1, param_description: "optional memory index", operand_mode: OperandMode::Fixed(1), produces: 1 }),
        ("i64.atomic.load8_u", InstructionArity { min_params: 0, max_params: 1, param_description: "optional memory index", operand_mode: OperandMode::Fixed(1), produces: 1 }),
        ("i64.atomic.rmw.add", InstructionArity { min_params: 0, max_params: 1, param_description: "optional memory index", operand_mode: OperandMode::Fixed(2), produces: 1 }),
        ("i64.atomic.rmw.and", InstructionArity { min_params: 0, max_params: 1, param_description: "optional memory index", operand_mode: OperandMode::Fixed(2), produces: 1 }),
        ("i64.atomic.rmw.cmpxchg", InstructionArity { min_params: 0, max_params: 1, param_description: "optional memory index", operand_mode: OperandMode::Fixed(3), produces: 1 }),
        ("i64.atomic.rmw.or", InstructionArity { min_params: 0, max_params: 1, param_description: "optional memory index", operand_mode: OperandMode::Fixed(2), produces: 1 }),
        ("i64.atomic.rmw.sub", InstructionArity { min_params: 0, max_params: 1, param_description: "optional memory index", operand_mode: OperandMode::Fixed(2), produces: 1 }),
        ("i64.atomic.rmw.xchg", InstructionArity { min_params: 0, max_params: 1, param_description: "optional memory index", operand_mode: OperandMode::Fixed(2), produces: 1 }),
        ("i64.atomic.rmw.xor", InstructionArity { min_params: 0, max_params: 1, param_description: "optional memory index", operand_mode: OperandMode::Fixed(2), produces: 1 }),
        ("i64.atomic.rmw16.add_u", InstructionArity { min_params: 0, max_params: 1, param_description: "optional memory index", operand_mode: OperandMode::Fixed(2), produces: 1 }),
        ("i64.atomic.rmw16.and_u", InstructionArity { min_params: 0, max_params: 1, param_description: "optional memory index", operand_mode: OperandMode::Fixed(2), produces: 1 }),
        ("i64.atomic.rmw16.cmpxchg_u", InstructionArity { min_params: 0, max_params: 1, param_description: "optional memory index", operand_mode: OperandMode::Fixed(3), produces: 1 }),
        ("i64.atomic.rmw16.or_u", InstructionArity { min_params: 0, max_params: 1, param_description: "optional memory index", operand_mode: OperandMode::Fixed(2), produces: 1 }),
        ("i64.atomic.rmw16.sub_u", InstructionArity { min_params: 0, max_params: 1, param_description: "optional memory index", operand_mode: OperandMode::Fixed(2), produces: 1 }),
        ("i64.atomic.rmw16.xchg_u", InstructionArity { min_params: 0, max_params: 1, param_description: "optional memory index", operand_mode: OperandMode::Fixed(2), produces: 1 }),
        ("i64.atomic.rmw16.xor_u", InstructionArity { min_params: 0, max_params: 1, param_description: "optional memory index", operand_mode: OperandMode::Fixed(2), produces: 1 }),
        ("i64.atomic.rmw32.add_u", InstructionArity { min_params: 0, max_params: 1, param_description: "optional memory index", operand_mode: OperandMode::Fixed(2), produces: 1 }),
        ("i64.atomic.rmw32.and_u", InstructionArity { min_params: 0, max_params: 1, param_description: "optional memory index", operand_mode: OperandMode::Fixed(2), produces: 1 }),
        ("i64.atomic.rmw32.cmpxchg_u", InstructionArity { min_params: 0, max_params: 1, param_description: "optional memory index", operand_mode: OperandMode::Fixed(3), produces: 1 }),
        ("i64.atomic.rmw32.or_u", InstructionArity { min_params: 0, max_params: 1, param_description: "optional memory index", operand_mode: OperandMode::Fixed(2), produces: 1 }),
        ("i64.atomic.rmw32.sub_u", InstructionArity { min_params: 0, max_params: 1, param_description: "optional memory index", operand_mode: OperandMode::Fixed(2), produces: 1 }),
        ("i64.atomic.rmw32.xchg_u", InstructionArity { min_params: 0, max_params: 1, param_description: "optional memory index", operand_mode: OperandMode::Fixed(2), produces: 1 }),
        ("i64.atomic.rmw32.xor_u", InstructionArity { min_params: 0, max_params: 1, param_description: "optional memory index", operand_mode: OperandMode::Fixed(2), produces: 1 }),
        ("i64.atomic.rmw8.add_u", InstructionArity { min_params: 0, max_params: 1, param_description: "optional memory index", operand_mode: OperandMode::Fixed(2), produces: 1 }),
        ("i64.atomic.rmw8.and_u", InstructionArity { min_params: 0, max_params: 1, param_description: "optional memory index", operand_mode: OperandMode::Fixed(2), produces: 1 }),
        ("i64.atomic.rmw8.cmpxchg_u", InstructionArity { min_params: 0, max_params: 1, param_description: "optional memory index", operand_mode: OperandMode::Fixed(3), produces: 1 }),
        ("i64.atomic.rmw8.or_u", InstructionArity { min_params: 0, max_params: 1, param_description: "optional memory index", operand_mode: OperandMode::Fixed(2), produces: 1 }),
        ("i64.atomic.rmw8.sub_u", InstructionArity { min_params: 0, max_params: 1, param_description: "optional memory index", operand_mode: OperandMode::Fixed(2), produces: 1 }),
        ("i64.atomic.rmw8.xchg_u", InstructionArity { min_params: 0, max_params: 1, param_description: "optional memory index", operand_mode: OperandMode::Fixed(2), produces: 1 }),
        ("i64.atomic.rmw8.xor_u", InstructionArity { min_params: 0, max_params: 1, param_description: "optional memory index", operand_mode: OperandMode::Fixed(2), produces: 1 }),
        ("i64.atomic.store", InstructionArity { min_params: 0, max_params: 1, param_description: "optional memory index", operand_mode: OperandMode::Fixed(2), produces: 0 }),
        ("i64.atomic.store16", InstructionArity { min_params: 0, max_params: 1, param_description: "optional memory index", operand_mode: OperandMode::Fixed(2), produces: 0 }),
        ("i64.atomic.store32", InstructionArity { min_params: 0, max_params: 1, param_description: "optional memory index", operand_mode: OperandMode::Fixed(2), produces: 0 }),
        ("i64.atomic.store8", InstructionArity { min_params: 0, max_params: 1, param_description: "optional memory index", operand_mode: OperandMode::Fixed(2), produces: 0 }),
        ("i64.clz", InstructionArity { min_params: 0, max_params: 0, param_description: "", operand_mode: OperandMode::Fixed(1), produces: 1 }),
        ("i64.const", InstructionArity { min_params: 1, max_params: 1, param_description: "literal value", operand_mode: OperandMode::Fixed(0), produces: 1 }),
        ("i64.ctz", InstructionArity { min_params: 0, max_params: 0, param_description: "", operand_mode: OperandMode::Fixed(1), produces: 1 }),
        ("i64.div_s", InstructionArity { min_params: 0, max_params: 0, param_description: "", operand_mode: OperandMode::Fixed(2), produces: 1 }),
        ("i64.div_u", InstructionArity { min_params: 0, max_params: 0, param_description: "", operand_mode: OperandMode::Fixed(2), produces: 1 }),
        ("i64.eq", InstructionArity { min_params: 0, max_params: 0, param_description: "", operand_mode: OperandMode::Fixed(2), produces: 1 }),
        ("i64.eqz", InstructionArity { min_params: 0, max_params: 0, param_description: "", operand_mode: OperandMode::Fixed(1), produces: 1 }),
        ("i64.extend16_s", InstructionArity { min_params: 0, max_params: 0, param_description: "", operand_mode: OperandMode::Fixed(1), produces: 1 }),
        ("i64.extend32_s", InstructionArity { min_params: 0, max_params: 0, param_description: "", operand_mode: OperandMode::Fixed(1), produces: 1 }),
        ("i64.extend8_s", InstructionArity { min_params: 0, max_params: 0, param_description: "", operand_mode: OperandMode::Fixed(1), produces: 1 }),
        ("i64.extend_i32_s", InstructionArity { min_params: 0, max_params: 0, param_description: "", operand_mode: OperandMode::Fixed(1), produces: 1 }),
        ("i64.extend_i32_u", InstructionArity { min_params: 0, max_params: 0, param_description: "", operand_mode: OperandMode::Fixed(1), produces: 1 }),
        ("i64.ge_s", InstructionArity { min_params: 0, max_params: 0, param_description: "", operand_mode: OperandMode::Fixed(2), produces: 1 }),
        ("i64.ge_u", InstructionArity { min_params: 0, max_params: 0, param_description: "", operand_mode: OperandMode::Fixed(2), produces: 1 }),
        ("i64.gt_s", InstructionArity { min_params: 0, max_params: 0, param_description: "", operand_mode: OperandMode::Fixed(2), produces: 1 }),
        ("i64.gt_u", InstructionArity { min_params: 0, max_params: 0, param_description: "", operand_mode: OperandMode::Fixed(2), produces: 1 }),
        ("i64.le_s", InstructionArity { min_params: 0, max_params: 0, param_description: "", operand_mode: OperandMode::Fixed(2), produces: 1 }),
        ("i64.le_u", InstructionArity { min_params: 0, max_params: 0, param_description: "", operand_mode: OperandMode::Fixed(2), produces: 1 }),
        ("i64.load", InstructionArity { min_params: 0, max_params: 1, param_description: "optional memory index", operand_mode: OperandMode::Fixed(1), produces: 1 }),
        ("i64.load16_s", InstructionArity { min_params: 0, max_params: 1, param_description: "optional memory index", operand_mode: OperandMode::Fixed(1), produces: 1 }),
        ("i64.load16_u", InstructionArity { min_params: 0, max_params: 1, param_description: "optional memory index", operand_mode: OperandMode::Fixed(1), produces: 1 }),
        ("i64.load32_s", InstructionArity { min_params: 0, max_params: 1, param_description: "optional memory index", operand_mode: OperandMode::Fixed(1), produces: 1 }),
        ("i64.load32_u", InstructionArity { min_params: 0, max_params: 1, param_description: "optional memory index", operand_mode: OperandMode::Fixed(1), produces: 1 }),
        ("i64.load8_s", InstructionArity { min_params: 0, max_params: 1, param_description: "optional memory index", operand_mode: OperandMode::Fixed(1), produces: 1 }),
        ("i64.load8_u", InstructionArity { min_params: 0, max_params: 1, param_description: "optional memory index", operand_mode: OperandMode::Fixed(1), produces: 1 }),
        ("i64.lt_s", InstructionArity { min_params: 0, max_params: 0, param_description: "", operand_mode: OperandMode::Fixed(2), produces: 1 }),
        ("i64.lt_u", InstructionArity { min_params: 0, max_params: 0, param_description: "", operand_mode: OperandMode::Fixed(2), produces: 1 }),
        ("i64.mul", InstructionArity { min_params: 0, max_params: 0, param_description: "", operand_mode: OperandMode::Fixed(2), produces: 1 }),
        ("i64.ne", InstructionArity { min_params: 0, max_params: 0, param_description: "", operand_mode: OperandMode::Fixed(2), produces: 1 }),
        ("i64.or", InstructionArity { min_params: 0, max_params: 0, param_description: "", operand_mode: OperandMode::Fixed(2), produces: 1 }),
        ("i64.popcnt", InstructionArity { min_params: 0, max_params: 0, param_description: "", operand_mode: OperandMode::Fixed(1), produces: 1 }),
        ("i64.reinterpret_f64", InstructionArity { min_params: 0, max_params: 0, param_description: "", operand_mode: OperandMode::Fixed(1), produces: 1 }),
        ("i64.rem_s", InstructionArity { min_params: 0, max_params: 0, param_description: "", operand_mode: OperandMode::Fixed(2), produces: 1 }),
        ("i64.rem_u", InstructionArity { min_params: 0, max_params: 0, param_description: "", operand_mode: OperandMode::Fixed(2), produces: 1 }),
        ("i64.rotl", InstructionArity { min_params: 0, max_params: 0, param_description: "", operand_mode: OperandMode::Fixed(2), produces: 1 }),
        ("i64.rotr", InstructionArity { min_params: 0, max_params: 0, param_description: "", operand_mode: OperandMode::Fixed(2), produces: 1 }),
        ("i64.shl", InstructionArity { min_params: 0, max_params: 0, param_description: "", operand_mode: OperandMode::Fixed(2), produces: 1 }),
        ("i64.shr_s", InstructionArity { min_params: 0, max_params: 0, param_description: "", operand_mode: OperandMode::Fixed(2), produces: 1 }),
        ("i64.shr_u", InstructionArity { min_params: 0, max_params: 0, param_description: "", operand_mode: OperandMode::Fixed(2), produces: 1 }),
        ("i64.store", InstructionArity { min_params: 0, max_params: 1, param_description: "optional memory index", operand_mode: OperandMode::Fixed(2), produces: 0 }),
        ("i64.store16", InstructionArity { min_params: 0, max_params: 1, param_description: "optional memory index", operand_mode: OperandMode::Fixed(2), produces: 0 }),
        ("i64.store32", InstructionArity { min_params: 0, max_params: 1, param_description: "optional memory index", operand_mode: OperandMode::Fixed(2), produces: 0 }),
        ("i64.store8", InstructionArity { min_params: 0, max_params: 1, param_description: "optional memory index", operand_mode: OperandMode::Fixed(2), produces: 0 }),
        ("i64.sub", InstructionArity { min_params: 0, max_params: 0, param_description: "", operand_mode: OperandMode::Fixed(2), produces: 1 }),
        ("i64.trunc_f32_s", InstructionArity { min_params: 0, max_params: 0, param_description: "", operand_mode: OperandMode::Fixed(1), produces: 1 }),
        ("i64.trunc_f32_u", InstructionArity { min_params: 0, max_params: 0, param_description: "", operand_mode: OperandMode::Fixed(1), produces: 1 }),
        ("i64.trunc_f64_s", InstructionArity { min_params: 0, max_params: 0, param_description: "", operand_mode: OperandMode::Fixed(1), produces: 1 }),
        ("i64.trunc_f64_u", InstructionArity { min_params: 0, max_params: 0, param_description: "", operand_mode: OperandMode::Fixed(1), produces: 1 }),
        ("i64.trunc_sat_f32_s", InstructionArity { min_params: 0, max_params: 0, param_description: "", operand_mode: OperandMode::Fixed(1), produces: 1 }),
        ("i64.trunc_sat_f32_u", InstructionArity { min_params: 0, max_params: 0, param_description: "", operand_mode: OperandMode::Fixed(1), produces: 1 }),
        ("i64.trunc_sat_f64_s", InstructionArity { min_params: 0, max_params: 0, param_description: "", operand_mode: OperandMode::Fixed(1), produces: 1 }),
        ("i64.trunc_sat_f64_u", InstructionArity { min_params: 0, max_params: 0, param_description: "", operand_mode: OperandMode::Fixed(1), produces: 1 }),
        ("i64.xor", InstructionArity { min_params: 0, max_params: 0, param_description: "", operand_mode: OperandMode::Fixed(2), produces: 1 }),
        ("local.get", InstructionArity { min_params: 1, max_params: 1, param_description: "index", operand_mode: OperandMode::Fixed(0), produces: 1 }),
        ("local.set", InstructionArity { min_params: 1, max_params: 1, param_description: "index", operand_mode: OperandMode::Fixed(1), produces: 0 }),
        ("local.tee", InstructionArity { min_params: 1, max_params: 1, param_description: "index", operand_mode: OperandMode::Fixed(1), produces: 1 }),
        ("memory.atomic.notify", InstructionArity { min_params: 0, max_params: 0, param_description: "", operand_mode: OperandMode::Fixed(2), produces: 1 }),
        ("memory.atomic.wait32", InstructionArity { min_params: 0, max_params: 0, param_description: "", operand_mode: OperandMode::Fixed(3), produces: 1 }),
        ("memory.atomic.wait64", InstructionArity { min_params: 0, max_params: 0, param_description: "", operand_mode: OperandMode::Fixed(3), produces: 1 }),
        ("memory.copy", InstructionArity { min_params: 0, max_params: 2, param_description: "optional dest and src memory indices", operand_mode: OperandMode::Fixed(3), produces: 0 }),
        ("memory.fill", InstructionArity { min_params: 0, max_params: 1, param_description: "optional memory index", operand_mode: OperandMode::Fixed(3), produces: 0 }),
        ("memory.grow", InstructionArity { min_params: 0, max_params: 1, param_description: "optional memory index", operand_mode: OperandMode::Fixed(1), produces: 1 }),
        ("memory.init", InstructionArity { min_params: 1, max_params: 2, param_description: "data index and optional memory index", operand_mode: OperandMode::Fixed(3), produces: 0 }),
        ("memory.size", InstructionArity { min_params: 0, max_params: 1, param_description: "optional memory index", operand_mode: OperandMode::Fixed(0), produces: 1 }),
        ("nop", InstructionArity { min_params: 0, max_params: 0, param_description: "", operand_mode: OperandMode::Fixed(0), produces: 0 }),
        ("ref.as_non_null", InstructionArity { min_params: 0, max_params: 0, param_description: "", operand_mode: OperandMode::Fixed(1), produces: 1 }),
        ("ref.cast", InstructionArity { min_params: 1, max_params: 1, param_description: "type index", operand_mode: OperandMode::Fixed(1), produces: 1 }),
        ("ref.cast_null", InstructionArity { min_params: 1, max_params: 1, param_description: "type index", operand_mode: OperandMode::Fixed(1), produces: 1 }),
        ("ref.eq", InstructionArity { min_params: 0, max_params: 0, param_description: "", operand_mode: OperandMode::Fixed(2), produces: 1 }),
        ("ref.extern", InstructionArity { min_params: 1, max_params: 1, param_description: "externref index", operand_mode: OperandMode::Fixed(0), produces: 1 }),
        ("ref.func", InstructionArity { min_params: 1, max_params: 1, param_description: "function index", operand_mode: OperandMode::Fixed(0), produces: 1 }),
        ("ref.i31", InstructionArity { min_params: 0, max_params: 0, param_description: "", operand_mode: OperandMode::Fixed(1), produces: 1 }),
        ("ref.is_null", InstructionArity { min_params: 0, max_params: 0, param_description: "", operand_mode: OperandMode::Fixed(1), produces: 1 }),
        ("ref.null", InstructionArity { min_params: 1, max_params: 1, param_description: "type", operand_mode: OperandMode::Fixed(0), produces: 1 }),
        ("ref.test", InstructionArity { min_params: 1, max_params: 1, param_description: "type index", operand_mode: OperandMode::Fixed(1), produces: 1 }),
        ("rethrow", InstructionArity { min_params: 1, max_params: 1, param_description: "label index", operand_mode: OperandMode::Fixed(0), produces: 0 }),
        ("return", InstructionArity { min_params: 0, max_params: 0, param_description: "", operand_mode: OperandMode::Dynamic, produces: 0 }),
        ("return_call", InstructionArity { min_params: 1, max_params: 1, param_description: "function index", operand_mode: OperandMode::Dynamic, produces: 0 }),
        ("return_call_indirect", InstructionArity { min_params: 1, max_params: 1, param_description: "type index", operand_mode: OperandMode::Dynamic, produces: 0 }),
        ("return_call_ref", InstructionArity { min_params: 1, max_params: 1, param_description: "type index", operand_mode: OperandMode::Dynamic, produces: 0 }),
        ("select", InstructionArity { min_params: 0, max_params: 0, param_description: "", operand_mode: OperandMode::Fixed(3), produces: 1 }),
        ("struct.get", InstructionArity { min_params: 2, max_params: 2, param_description: "type and field index", operand_mode: OperandMode::Fixed(1), produces: 1 }),
        ("struct.get_s", InstructionArity { min_params: 2, max_params: 2, param_description: "type and field index", operand_mode: OperandMode::Fixed(1), produces: 1 }),
        ("struct.get_u", InstructionArity { min_params: 2, max_params: 2, param_description: "type and field index", operand_mode: OperandMode::Fixed(1), produces: 1 }),
        ("struct.new", InstructionArity { min_params: 1, max_params: 1, param_description: "type index", operand_mode: OperandMode::Dynamic, produces: 1 }),
        ("struct.new_default", InstructionArity { min_params: 1, max_params: 1, param_description: "type index", operand_mode: OperandMode::Fixed(0), produces: 1 }),
        ("struct.set", InstructionArity { min_params: 2, max_params: 2, param_description: "type and field index", operand_mode: OperandMode::Fixed(2), produces: 0 }),
        ("table.copy", InstructionArity { min_params: 2, max_params: 2, param_description: "dest and src table index", operand_mode: OperandMode::Fixed(3), produces: 0 }),
        ("table.fill", InstructionArity { min_params: 1, max_params: 1, param_description: "table index", operand_mode: OperandMode::Fixed(3), produces: 0 }),
        ("table.get", InstructionArity { min_params: 1, max_params: 1, param_description: "table index", operand_mode: OperandMode::Fixed(1), produces: 1 }),
        ("table.grow", InstructionArity { min_params: 1, max_params: 1, param_description: "table index", operand_mode: OperandMode::Fixed(2), produces: 1 }),
        ("table.init", InstructionArity { min_params: 2, max_params: 2, param_description: "table and elem index", operand_mode: OperandMode::Fixed(3), produces: 0 }),
        ("table.set", InstructionArity { min_params: 1, max_params: 1, param_description: "table index", operand_mode: OperandMode::Fixed(2), produces: 0 }),
        ("table.size", InstructionArity { min_params: 1, max_params: 1, param_description: "table index", operand_mode: OperandMode::Fixed(0), produces: 1 }),
        ("throw", InstructionArity { min_params: 1, max_params: 1, param_description: "tag index", operand_mode: OperandMode::Dynamic, produces: 0 }),
        ("throw_ref", InstructionArity { min_params: 0, max_params: 0, param_description: "", operand_mode: OperandMode::Fixed(1), produces: 0 }),
        ("unreachable", InstructionArity { min_params: 0, max_params: 0, param_description: "", operand_mode: OperandMode::Fixed(0), produces: 0 }),

    ]
}

/// The arity table in the order `arity_table` declares it.
fn declared_arity_table() -> (v: Vec<(&'static str, InstructionArity)>)
    ensures
        v@ == arity_table(),
{
    let v = vec![
        ("any.convert_extern", InstructionArity::unary_op()),
        ("array.copy", InstructionArity::exact(2, "dest and src type index", 5, 0)),
        ("array.fill", InstructionArity::exact(1, "type index", 4, 0)),
        ("array.get", InstructionArity::exact(1, "type index", 2, 1)),
        ("array.get_s", InstructionArity::exact(1, "type index", 2, 1)),
        ("array.get_u", InstructionArity::exact(1, "type index", 2, 1)),
        ("array.init_data", InstructionArity::exact(2, "type and data index", 4, 0)),
        ("array.init_elem", InstructionArity::exact(2, "type and elem index", 4, 0)),
        ("array.len", InstructionArity::unary_op()),
        ("array.new", InstructionArity::exact(1, "type index", 2, 1)),
        ("array.new_data", InstructionArity::exact(2, "type and data index", 2, 1)),
        ("array.new_default", InstructionArity::exact(1, "type index", 1, 1)),
        ("array.new_elem", InstructionArity::exact(2, "type and elem index", 2, 1)),
        ("array.new_fixed", InstructionArity::dynamic(2, 2, "type index and length", 1)),
        ("array.set", InstructionArity::exact(1, "type index", 3, 0)),
        ("atomic.fence", InstructionArity::nullary()),
        ("br", InstructionArity::dynamic(1, 1, "label index", 0)),
        ("br_if", InstructionArity::dynamic(1, 1, "label index", 0)),
        ("br_on_cast", InstructionArity::exact(3, "label, source and target type", 1, 0)),
        ("br_on_cast_fail", InstructionArity::exact(3, "label, source and target type", 1, 0)),
        ("br_on_non_null", InstructionArity::dynamic(1, 1, "label index", 0)),
        ("br_on_null", InstructionArity::dynamic(1, 1, "label index", 1)),
        ("br_table", InstructionArity::dynamic(1, usize::MAX, "label indices", 0)),
        ("call", InstructionArity::dynamic(1, 1, "function index", 0)),
        ("call_indirect", InstructionArity::dynamic(1, 1, "type index", 0)),
        ("call_ref", InstructionArity::dynamic(1, 1, "type index", 0)),
        ("data.drop", InstructionArity::exact(1, "data index", 0, 0)),
        ("drop", InstructionArity::drop_op()),
        ("elem.drop", InstructionArity::exact(1, "elem index", 0, 0)),
        ("extern.convert_any", InstructionArity::unary_op()),
        ("f32.abs", InstructionArity::unary_op()),
        ("f32.add", InstructionArity::binary_op()),
        ("f32.ceil", InstructionArity::unary_op()),
        ("f32.const", InstructionArity::constant("literal value")),
        ("f32.convert_i32_s", InstructionArity::unary_op()),
        ("f32.convert_i32_u", InstructionArity::unary_op()),
        ("f32.convert_i64_s", InstructionArity::unary_op()),
        ("f32.convert_i64_u", InstructionArity::unary_op()),
        ("f32.copysign", InstructionArity::binary_op()),
        ("f32.demote_f64", InstructionArity::unary_op()),
        ("f32.div", InstructionArity::binary_op()),
        ("f32.eq", InstructionArity::binary_op()),
        ("f32.floor", InstructionArity::unary_op()),
        ("f32.ge", InstructionArity::binary_op()),
        ("f32.gt", InstructionArity::binary_op()),
        ("f32.le", InstructionArity::binary_op()),
        ("f32.load", InstructionArity::mem_load()),
        ("f32.lt", InstructionArity::binary_op()),
        ("f32.max", InstructionArity::binary_op()),
        ("f32.min", InstructionArity::binary_op()),
        ("f32.mul", InstructionArity::binary_op()),
        ("f32.ne", InstructionArity::binary_op()),
        ("f32.nearest", InstructionArity::unary_op()),
        ("f32.neg", InstructionArity::unary_op()),
        ("f32.reinterpret_i32", InstructionArity::unary_op()),
        ("f32.sqrt", InstructionArity::unary_op()),
        ("f32.store", InstructionArity::mem_store()),
        ("f32.sub", InstructionArity::binary_op()),
        ("f32.trunc", InstructionArity::unary_op()),
        ("f64.abs", InstructionArity::unary_op()),
        ("f64.add", InstructionArity::binary_op()),
        ("f64.ceil", InstructionArity::unary_op()),
        ("f64.const", InstructionArity::constant("literal value")),
        ("f64.convert_i32_s", InstructionArity::unary_op()),
        ("f64.convert_i32_u", InstructionArity::unary_op()),
        ("f64.convert_i64_s", InstructionArity::unary_op()),
        ("f64.convert_i64_u", InstructionArity::unary_op()),
        ("f64.copysign", InstructionArity::binary_op()),
        ("f64.div", InstructionArity::binary_op()),
        ("f64.eq", InstructionArity::binary_op()),
        ("f64.floor", InstructionArity::unary_op()),
        ("f64.ge", InstructionArity::binary_op()),
        ("f64.gt", InstructionArity::binary_op()),
        ("f64.le", InstructionArity::binary_op()),
        ("f64.load", InstructionArity::mem_load()),
        ("f64.lt", InstructionArity::binary_op()),
        ("f64.max", InstructionArity::binary_op()),
        ("f64.min", InstructionArity::binary_op()),
        ("f64.mul", InstructionArity::binary_op()),
        ("f64.ne", InstructionArity::binary_op()),
        ("f64.nearest", InstructionArity::unary_op()),
        ("f64.neg", InstructionArity::unary_op()),
        ("f64.promote_f32", InstructionArity::unary_op()),
        ("f64.reinterpret_i64", InstructionArity::unary_op()),
        ("f64.sqrt", InstructionArity::unary_op()),
        ("f64.store", InstructionArity::mem_store()),
        ("f64.sub", InstructionArity::binary_op()),
        ("f64.trunc", InstructionArity::unary_op()),
        ("global.get", InstructionArity::index("index")),
        ("global.set", InstructionArity::index_set("index")),
        ("i31.get_s", InstructionArity::unary_op()),
        ("i31.get_u", InstructionArity::unary_op()),
        ("i32.add", InstructionArity::binary_op()),
        ("i32.and", InstructionArity::binary_op()),
        ("i32.atomic.load", InstructionArity::mem_load()),
        ("i32.atomic.load16_u", InstructionArity::mem_load()),
        ("i32.atomic.load8_u", InstructionArity::mem_load()),
        ("i32.atomic.rmw.add", InstructionArity::mem_rmw()),
        ("i32.atomic.rmw.and", InstructionArity::mem_rmw()),
        ("i32.atomic.rmw.cmpxchg", InstructionArity::mem_cmpxchg()),
        ("i32.atomic.rmw.or", InstructionArity::mem_rmw()),
        ("i32.atomic.rmw.sub", InstructionArity::mem_rmw()),
        ("i32.atomic.rmw.xchg", InstructionArity::mem_rmw()),
        ("i32.atomic.rmw.xor", InstructionArity::mem_rmw()),
        ("i32.atomic.rmw16.add_u", InstructionArity::mem_rmw()),
        ("i32.atomic.rmw16.and_u", InstructionArity::mem_rmw()),
        ("i32.atomic.rmw16.cmpxchg_u", InstructionArity::mem_cmpxchg()),
        ("i32.atomic.rmw16.or_u", InstructionArity::mem_rmw()),
        ("i32.atomic.rmw16.sub_u", InstructionArity::mem_rmw()),
        ("i32.atomic.rmw16.xchg_u", InstructionArity::mem_rmw()),
        ("i32.atomic.rmw16.xor_u", InstructionArity::mem_rmw()),
        ("i32.atomic.rmw8.add_u", InstructionArity::mem_rmw()),
        ("i32.atomic.rmw8.and_u", InstructionArity::mem_rmw()),
        ("i32.atomic.rmw8.cmpxchg_u", InstructionArity::mem_cmpxchg()),
        ("i32.atomic.rmw8.or_u", InstructionArity::mem_rmw()),
        ("i32.atomic.rmw8.sub_u", InstructionArity::mem_rmw()),
        ("i32.atomic.rmw8.xchg_u", InstructionArity::mem_rmw()),
        ("i32.atomic.rmw8.xor_u", InstructionArity::mem_rmw()),
        ("i32.atomic.store", InstructionArity::mem_store()),
        ("i32.atomic.store16", InstructionArity::mem_store()),
        ("i32.atomic.store8", InstructionArity::mem_store()),
        ("i32.clz", InstructionArity::unary_op()),
        ("i32.const", InstructionArity::constant("literal value")),
        ("i32.ctz", InstructionArity::unary_op()),
        ("i32.div_s", InstructionArity::binary_op()),
        ("i32.div_u", InstructionArity::binary_op()),
        ("i32.eq", InstructionArity::binary_op()),
        ("i32.eqz", InstructionArity::unary_op()),
        ("i32.extend16_s", InstructionArity::unary_op()),
        ("i32.extend8_s", InstructionArity::unary_op()),
        ("i32.ge_s", InstructionArity::binary_op()),
        ("i32.ge_u", InstructionArity::binary_op()),
        ("i32.gt_s", InstructionArity::binary_op()),
        ("i32.gt_u", InstructionArity::binary_op()),
        ("i32.le_s", InstructionArity::binary_op()),
        ("i32.le_u", InstructionArity::binary_op()),
        ("i32.load", InstructionArity::mem_load()),
        ("i32.load16_s", InstructionArity::mem_load()),
        ("i32.load16_u", InstructionArity::mem_load()),
        ("i32.load8_s", InstructionArity::mem_load()),
        ("i32.load8_u", InstructionArity::mem_load()),
        ("i32.lt_s", InstructionArity::binary_op()),
        ("i32.lt_u", InstructionArity::binary_op()),
        ("i32.mul", InstructionArity::binary_op()),
        ("i32.ne", InstructionArity::binary_op()),
        ("i32.or", InstructionArity::binary_op()),
        ("i32.popcnt", InstructionArity::unary_op()),
        ("i32.reinterpret_f32", InstructionArity::unary_op()),
        ("i32.rem_s", InstructionArity::binary_op()),
        ("i32.rem_u", InstructionArity::binary_op()),
        ("i32.rotl", InstructionArity::binary_op()),
        ("i32.rotr", InstructionArity::binary_op()),
        ("i32.shl", InstructionArity::binary_op()),
        ("i32.shr_s", InstructionArity::binary_op()),
        ("i32.shr_u", InstructionArity::binary_op()),
        ("i32.store", InstructionArity::mem_store()),
        ("i32.store16", InstructionArity::mem_store()),
        ("i32.store8", InstructionArity::mem_store()),
        ("i32.sub", InstructionArity::binary_op()),
        ("i32.trunc_f32_s", InstructionArity::unary_op()),
        ("i32.trunc_f32_u", InstructionArity::unary_op()),
        ("i32.trunc_f64_s", InstructionArity::unary_op()),
        ("i32.trunc_f64_u", InstructionArity::unary_op()),
        ("i32.trunc_sat_f32_s", InstructionArity::unary_op()),
        ("i32.trunc_sat_f32_u", InstructionArity::unary_op()),
        ("i32.trunc_sat_f64_s", InstructionArity::unary_op()),
        ("i32.trunc_sat_f64_u", InstructionArity::unary_op()),
        ("i32.wrap_i64", InstructionArity::unary_op()),
        ("i32.xor", InstructionArity::binary_op()),
        ("i64.add", InstructionArity::binary_op()),
        ("i64.and", InstructionArity::binary_op()),
        ("i64.atomic.load", InstructionArity::mem_load()),
        ("i64.atomic.load16_u", InstructionArity::mem_load()),
        ("i64.atomic.load32_u", InstructionArity::mem_load()),
        ("i64.atomic.load8_u", InstructionArity::mem_load()),
        ("i64.atomic.rmw.add", InstructionArity::mem_rmw()),
        ("i64.atomic.rmw.and", InstructionArity::mem_rmw()),
        ("i64.atomic.rmw.cmpxchg", InstructionArity::mem_cmpxchg()),
        ("i64.atomic.rmw.or", InstructionArity::mem_rmw()),
        ("i64.atomic.rmw.sub", InstructionArity::mem_rmw()),
        ("i64.atomic.rmw.xchg", InstructionArity::mem_rmw()),
        ("i64.atomic.rmw.xor", InstructionArity::mem_rmw()),
        ("i64.atomic.rmw16.add_u", InstructionArity::mem_rmw()),
        ("i64.atomic.rmw16.and_u", InstructionArity::mem_rmw()),
        ("i64.atomic.rmw16.cmpxchg_u", InstructionArity::mem_cmpxchg()),
        ("i64.atomic.rmw16.or_u", InstructionArity::mem_rmw()),
        ("i64.atomic.rmw16.sub_u", InstructionArity::mem_rmw()),
        ("i64.atomic.rmw16.xchg_u", InstructionArity::mem_rmw()),
        ("i64.atomic.rmw16.xor_u", InstructionArity::mem_rmw()),
        ("i64.atomic.rmw32.add_u", InstructionArity::mem_rmw()),
        ("i64.atomic.rmw32.and_u", InstructionArity::mem_rmw()),
        ("i64.atomic.rmw32.cmpxchg_u", InstructionArity::mem_cmpxchg()),
        ("i64.atomic.rmw32.or_u", InstructionArity::mem_rmw()),
        ("i64.atomic.rmw32.sub_u", InstructionArity::mem_rmw()),
        ("i64.atomic.rmw32.xchg_u", InstructionArity::mem_rmw()),
        ("i64.atomic.rmw32.xor_u", InstructionArity::mem_rmw()),
        ("i64.atomic.rmw8.add_u", InstructionArity::mem_rmw()),
        ("i64.atomic.rmw8.and_u", InstructionArity::mem_rmw()),
        ("i64.atomic.rmw8.cmpxchg_u", InstructionArity::mem_cmpxchg()),
        ("i64.atomic.rmw8.or_u", InstructionArity::mem_rmw()),
        ("i64.atomic.rmw8.sub_u", InstructionArity::mem_rmw()),
        ("i64.atomic.rmw8.xchg_u", InstructionArity::mem_rmw()),
        ("i64.atomic.rmw8.xor_u", InstructionArity::mem_rmw()),
        ("i64.atomic.store", InstructionArity::mem_store()),
        ("i64.atomic.store16", InstructionArity::mem_store()),
        ("i64.atomic.store32", InstructionArity::mem_store()),
        ("i64.atomic.store8", InstructionArity::mem_store()),
        ("i64.clz", InstructionArity::unary_op()),
        ("i64.const", InstructionArity::constant("literal value")),
        ("i64.ctz", InstructionArity::unary_op()),
        ("i64.div_s", InstructionArity::binary_op()),
        ("i64.div_u", InstructionArity::binary_op()),
        ("i64.eq", InstructionArity::binary_op()),
        ("i64.eqz", InstructionArity::unary_op()),
        ("i64.extend16_s", InstructionArity::unary_op()),
        ("i64.extend32_s", InstructionArity::unary_op()),
        ("i64.extend8_s", InstructionArity::unary_op()),
        ("i64.extend_i32_s", InstructionArity::unary_op()),
        ("i64.extend_i32_u", InstructionArity::unary_op()),
        ("i64.ge_s", InstructionArity::binary_op()),
        ("i64.ge_u", InstructionArity::binary_op()),
        ("i64.gt_s", InstructionArity::binary_op()),
        ("i64.gt_u", InstructionArity::binary_op()),
        ("i64.le_s", InstructionArity::binary_op()),
        ("i64.le_u", InstructionArity::binary_op()),
        ("i64.load", InstructionArity::mem_load()),
        ("i64.load16_s", InstructionArity::mem_load()),
        ("i64.load16_u", InstructionArity::mem_load()),
        ("i64.load32_s", InstructionArity::mem_load()),
        ("i64.load32_u", InstructionArity::mem_load()),
        ("i64.load8_s", InstructionArity::mem_load()),
        ("i64.load8_u", InstructionArity::mem_load()),
        ("i64.lt_s", InstructionArity::binary_op()),
        ("i64.lt_u", InstructionArity::binary_op()),
        ("i64.mul", InstructionArity::binary_op()),
        ("i64.ne", InstructionArity::binary_op()),
        ("i64.or", InstructionArity::binary_op()),
        ("i64.popcnt", InstructionArity::unary_op()),
        ("i64.reinterpret_f64", InstructionArity::unary_op()),
        ("i64.rem_s", InstructionArity::binary_op()),
        ("i64.rem_u", InstructionArity::binary_op()),
        ("i64.rotl", InstructionArity::binary_op()),
        ("i64.rotr", InstructionArity::binary_op()),
        ("i64.shl", InstructionArity::binary_op()),
        ("i64.shr_s", InstructionArity::binary_op()),
        ("i64.shr_u", InstructionArity::binary_op()),
        ("i64.store", InstructionArity::mem_store()),
        ("i64.store16", InstructionArity::mem_store()),
        ("i64.store32", InstructionArity::mem_store()),
        ("i64.store8", InstructionArity::mem_store()),
        ("i64.sub", InstructionArity::binary_op()),
        ("i64.trunc_f32_s", InstructionArity::unary_op()),
        ("i64.trunc_f32_u", InstructionArity::unary_op()),
        ("i64.trunc_f64_s", InstructionArity::unary_op()),
        ("i64.trunc_f64_u", InstructionArity::unary_op()),
        ("i64.trunc_sat_f32_s", InstructionArity::unary_op()),
        ("i64.trunc_sat_f32_u", InstructionArity::unary_op()),
        ("i64.trunc_sat_f64_s", InstructionArity::unary_op()),
        ("i64.trunc_sat_f64_u", InstructionArity::unary_op()),
        ("i64.xor", InstructionArity::binary_op()),
        ("local.get", InstructionArity::index("index")),
        ("local.set", InstructionArity::index_set("index")),
        ("local.tee", InstructionArity::index_tee("index")),
        ("memory.atomic.notify", InstructionArity::exact(0, "", 2, 1)),
        ("memory.atomic.wait32", InstructionArity::exact(0, "", 3, 1)),
        ("memory.atomic.wait64", InstructionArity::exact(0, "", 3, 1)),
        ("memory.copy", InstructionArity { min_params: 0, max_params: 2, param_description: "optional dest and src memory indices", operand_mode: OperandMode::Fixed(3), produces: 0 }),
        ("memory.fill", InstructionArity { min_params: 0, max_params: 1, param_description: "optional memory index", operand_mode: OperandMode::Fixed(3), produces: 0 }),
        ("memory.grow", InstructionArity { min_params: 0, max_params: 1, param_description: "optional memory index", operand_mode: OperandMode::Fixed(1), produces: 1 }),
        ("memory.init", InstructionArity { min_params: 1, max_params: 2, param_description: "data index and optional memory index", operand_mode: OperandMode::Fixed(3), produces: 0 }),
        ("memory.size", InstructionArity { min_params: 0, max_params: 1, param_description: "optional memory index", operand_mode: OperandMode::Fixed(0), produces: 1 }),
        ("nop", InstructionArity::nullary()),
        ("ref.as_non_null", InstructionArity::unary_op()),
        ("ref.cast", InstructionArity::exact(1, "type index", 1, 1)),
        ("ref.cast_null", InstructionArity::exact(1, "type index", 1, 1)),
        ("ref.eq", InstructionArity::binary_op()),
        ("ref.extern", InstructionArity::exact(1, "externref index", 0, 1)),
        ("ref.func", InstructionArity::exact(1, "function index", 0, 1)),
        ("ref.i31", InstructionArity::unary_op()),
        ("ref.is_null", InstructionArity::unary_op()),
        ("ref.null", InstructionArity::exact(1, "type", 0, 1)),
        ("ref.test", InstructionArity::exact(1, "type index", 1, 1)),
        ("rethrow", InstructionArity::exact(1, "label index", 0, 0)),
        ("return", InstructionArity::dynamic(0, 0, "", 0)),
        ("return_call", InstructionArity::dynamic(1, 1, "function index", 0)),
        ("return_call_indirect", InstructionArity::dynamic(1, 1, "type index", 0)),
        ("return_call_ref", InstructionArity::dynamic(1, 1, "type index", 0)),
        ("select", InstructionArity::exact(0, "", 3, 1)),
        ("struct.get", InstructionArity::exact(2, "type and field index", 1, 1)),
        ("struct.get_s", InstructionArity::exact(2, "type and field index", 1, 1)),
        ("struct.get_u", InstructionArity::exact(2, "type and field index", 1, 1)),
        ("struct.new", InstructionArity::dynamic(1, 1, "type index", 1)),
        ("struct.new_default", InstructionArity::exact(1, "type index", 0, 1)),
        ("struct.set", InstructionArity::exact(2, "type and field index", 2, 0)),
        ("table.copy", InstructionArity::exact(2, "dest and src table index", 3, 0)),
        ("table.fill", InstructionArity::exact(1, "table index", 3, 0)),
        ("table.get", InstructionArity::exact(1, "table index", 1, 1)),
        ("table.grow", InstructionArity::exact(1, "table index", 2, 1)),
        ("table.init", InstructionArity::exact(2, "table and elem index", 3, 0)),
        ("table.set", InstructionArity::exact(1, "table index", 2, 0)),
        ("table.size", InstructionArity::exact(1, "table index", 0, 1)),
        ("throw", InstructionArity::dynamic(1, 1, "tag index", 0)),
        ("throw_ref", InstructionArity::exact(0, "", 1, 0)),
        ("unreachable", InstructionArity::nullary()),

    ];
    assert(v@ =~= arity_table());
    v
}

} // verus!

verus! {

/// Name `a` comes before name `b`: character by character, a prefix first
/// (the byte order of their UTF-8 text).
pub open spec fn name_lt(a: Seq<char>, b: Seq<char>) -> bool
    decreases a.len(),
{
    if a.len() == 0 {
        b.len() > 0
    } else if b.len() == 0 {
        false
    } else if a[0] != b[0] {
        (a[0] as u32) < (b[0] as u32)
    } else {
        name_lt(a.drop_first(), b.drop_first())
    }
}

/// No name comes before itself.
pub proof fn lemma_name_lt_irreflexive(a: Seq<char>)
    ensures
        !name_lt(a, a),
    decreases a.len(),
{
    if a.len() > 0 {
        lemma_name_lt_irreflexive(a.drop_first());
    }
}

/// Name order is transitive.
pub proof fn lemma_name_lt_transitive(a: Seq<char>, b: Seq<char>, c: Seq<char>)
    requires
        name_lt(a, b),
        name_lt(b, c),
    ensures
        name_lt(a, c),
    decreases a.len(),
{
    if a.len() > 0 && a[0] == b[0] && b[0] == c[0] {
        lemma_name_lt_transitive(a.drop_first(), b.drop_first(), c.drop_first());
    }
}

/// A character's code is its value.
proof fn lemma_char_code(c: char)
    ensures
        (c as u32) as int == c as int,
{
}

/// Distinct characters have distinct values.
proof fn lemma_char_code_injective(c: char, d: char)
    requires
        c != d,
    ensures
        c as int != d as int,
{
}

/// Name order is total: two names neither of which comes first are equal.
pub proof fn lemma_name_lt_total(a: Seq<char>, b: Seq<char>)
    requires
        !name_lt(a, b),
        !name_lt(b, a),
    ensures
        a == b,
    decreases a.len(),
{
    if a.len() > 0 && b.len() > 0 {
        lemma_char_code(a[0]);
        lemma_char_code(b[0]);
        if a[0] != b[0] {
            lemma_char_code_injective(a[0], b[0]);
        }
        lemma_name_lt_total(a.drop_first(), b.drop_first());
        assert(a =~= seq![a[0]] + a.drop_first());
        assert(b =~= seq![b[0]] + b.drop_first());
    } else {
        assert(a =~= b);
    }
}

fn name_lt_exec(a: &[char], b: &[char]) -> (r: bool)
    ensures
        r == name_lt(a@, b@),
{
    let mut i: usize = 0;
    assert(a@.skip(0) =~= a@ && b@.skip(0) =~= b@);
    while i < a.len() && i < b.len() && a[i] == b[i]
        invariant
            i <= a@.len(),
            i <= b@.len(),
            name_lt(a@, b@) == name_lt(a@.skip(i as int), b@.skip(i as int)),
        decreases a@.len() - i,
    {
        assert(a@.skip(i as int).drop_first() =~= a@.skip(i + 1));
        assert(b@.skip(i as int).drop_first() =~= b@.skip(i + 1));
        i = i + 1;
    }
    if i == a.len() {
        i < b.len()
    } else if i == b.len() {
        false
    } else {
        (a[i] as u32) < (b[i] as u32)
    }
}

/// Where entry `x` goes in the sorted `rs`: after every entry whose name
/// does not come after its name.
pub open spec fn arity_insert_point(rs: Seq<(&'static str, InstructionArity)>, x: (&'static str, InstructionArity), i: int) -> int
    decreases rs.len() - i,
{
    if i < 0 || i >= rs.len() {
        rs.len() as int
    } else if name_lt(x.0@, rs[i].0@) {
        i
    } else {
        arity_insert_point(rs, x, i + 1)
    }
}

/// The entries stably sorted by name.
pub open spec fn sort_arities(rs: Seq<(&'static str, InstructionArity)>) -> Seq<(&'static str, InstructionArity)>
    decreases rs.len(),
{
    if rs.len() == 0 {
        rs
    } else {
        let sorted = sort_arities(rs.drop_last());
        let k = arity_insert_point(sorted, rs.last(), 0);
        sorted.take(k).push(rs.last()) + sorted.skip(k)
    }
}

/// The entries are in name order: none comes before one ahead of it.
pub open spec fn arities_sorted(rs: Seq<(&'static str, InstructionArity)>) -> bool {
    forall|i: int, j: int| 0 <= i < j < rs.len() ==> !name_lt(#[trigger] rs[j].0@, #[trigger] rs[i].0@)
}

proof fn lemma_arity_insert_point(rs: Seq<(&'static str, InstructionArity)>, x: (&'static str, InstructionArity), i: int)
    requires
        0 <= i <= rs.len(),
    ensures
        i <= arity_insert_point(rs, x, i) <= rs.len(),
        forall|m: int| i <= m < arity_insert_point(rs, x, i) ==> !name_lt(x.0@, #[trigger] rs[m].0@),
        arity_insert_point(rs, x, i) < rs.len() ==> name_lt(x.0@, rs[arity_insert_point(rs, x, i)].0@),
    decreases rs.len() - i,
{
    if i < rs.len() && !name_lt(x.0@, rs[i].0@) {
        lemma_arity_insert_point(rs, x, i + 1);
    }
}

/// Sorting puts the entries in name order and keeps exactly the entries.
pub proof fn lemma_sort_arities(rs: Seq<(&'static str, InstructionArity)>)
    ensures
        sort_arities(rs).len() == rs.len(),
        arities_sorted(sort_arities(rs)),
        forall|y: (&'static str, InstructionArity)| #[trigger] sort_arities(rs).contains(y) <==> rs.contains(y),
    decreases rs.len(),
{
    if rs.len() > 0 {
        let p = rs.drop_last();
        lemma_sort_arities(p);
        let sorted = sort_arities(p);
        let x = rs.last();
        let k = arity_insert_point(sorted, x, 0);
        lemma_arity_insert_point(sorted, x, 0);
        let out = sorted.take(k).push(x) + sorted.skip(k);
        assert(out == sort_arities(rs));
        assert forall|i: int| 0 <= i < out.len() implies #[trigger] out[i] == (if i < k {
            sorted[i]
        } else if i == k {
            x
        } else {
            sorted[i - 1]
        }) by {}
        assert forall|i: int, j: int| 0 <= i < j < out.len() implies !name_lt(#[trigger] out[j].0@, #[trigger] out[i].0@) by {
            if j < k {
                assert(!name_lt(sorted[j].0@, sorted[i].0@));
            } else if j == k {
                assert(!name_lt(x.0@, sorted[i].0@));
            } else if i < k {
                assert(!name_lt(sorted[j - 1].0@, sorted[i].0@));
            } else if i == k {
                assert(name_lt(x.0@, sorted[k].0@));
                if name_lt(sorted[j - 1].0@, x.0@) {
                    lemma_name_lt_transitive(sorted[j - 1].0@, x.0@, sorted[k].0@);
                    if k < j - 1 {
                        assert(!name_lt(sorted[j - 1].0@, sorted[k].0@));
                    } else {
                        lemma_name_lt_irreflexive(sorted[k].0@);
                    }
                }
            } else {
                assert(!name_lt(sorted[j - 1].0@, sorted[i - 1].0@));
            }
        }
        assert forall|y: (&'static str, InstructionArity)| #[trigger] out.contains(y) <==> rs.contains(y) by {
            if out.contains(y) {
                let i = choose|i: int| 0 <= i < out.len() && out[i] == y;
                if i == k {
                    assert(rs[rs.len() - 1] == y);
                } else {
                    let m = if i < k {
                        i
                    } else {
                        i - 1
                    };
                    assert(sorted[m] == y);
                    assert(sorted.contains(y));
                    let q = choose|q: int| 0 <= q < p.len() && p[q] == y;
                    assert(rs[q] == y);
                }
            }
            if rs.contains(y) {
                let m = choose|m: int| 0 <= m < rs.len() && rs[m] == y;
                if m == rs.len() - 1 {
                    assert(out[k] == y);
                } else {
                    assert(p[m] == y);
                    assert(p.contains(y));
                    assert(sorted.contains(y));
                    let i = choose|i: int| 0 <= i < sorted.len() && sorted[i] == y;
                    if i < k {
                        assert(out[i] == y);
                    } else {
                        assert(out[i + 1] == y);
                    }
                }
            }
        }
    }
}

/// The arity table sorted by instruction name, as lookups search it.
pub open spec fn sorted_arity_table() -> Seq<(&'static str, InstructionArity)> {
    sort_arities(arity_table())
}

/// The arity table: the declared entries, stably sorted by name.
pub fn init_arity_table() -> (v: Vec<(&'static str, InstructionArity)>)
    ensures
        v@ == sorted_arity_table(),
        arities_sorted(v@),
        forall|y: (&'static str, InstructionArity)| #[trigger] v@.contains(y) <==> arity_table().contains(y),
{
    let rs = declared_arity_table();
    let mut r: Vec<(&'static str, InstructionArity)> = Vec::new();
    let mut i: usize = 0;
    while i < rs.len()
        invariant
            rs@ == arity_table(),
            i <= rs@.len(),
            r@ == sort_arities(rs@.take(i as int)),
            r@.len() == i,
        decreases rs@.len() - i,
    {
        assert(rs@.take(i + 1).drop_last() =~= rs@.take(i as int));
        let x = rs[i];
        let xc = chars_of(x.0);
        let mut k: usize = 0;
        let mut placed = false;
        while k < r.len() && !placed
            invariant
                k <= r@.len(),
                xc@ == x.0@,
                arity_insert_point(r@, x, 0) == arity_insert_point(r@, x, k as int),
                placed ==> k < r@.len() && name_lt(x.0@, r@[k as int].0@),
            decreases r@.len() - k + (if placed { 0int } else { 1int }),
        {
            let rc = chars_of(r[k].0);
            if name_lt_exec(xc.as_slice(), rc.as_slice()) {
                placed = true;
            } else {
                k = k + 1;
            }
        }
        assert(arity_insert_point(r@, x, k as int) == k);
        let ghost before = r@;
        r.insert(k, x);
        assert(r@ =~= before.take(k as int).push(x) + before.skip(k as int));
        i = i + 1;
    }
    assert(rs@.take(i as int) =~= rs@);
    proof {
        lemma_sort_arities(arity_table());
    }
    r
}

/// The arity of the first table entry named `name`.
pub open spec fn arity_lookup(table: Seq<(&'static str, InstructionArity)>, name: Seq<char>) -> Option<
    InstructionArity,
>
    decreases table.len(),
{
    if table.len() == 0 {
        None
    } else if table[0].0@ == name {
        Some(table[0].1)
    } else {
        arity_lookup(table.drop_first(), name)
    }
}

/// What the first-match lookup says of a table: it finds the first entry
/// with the name, and nothing where no entry has it.
pub proof fn lemma_arity_lookup(table: Seq<(&'static str, InstructionArity)>, name: Seq<char>)
    ensures
        (arity_lookup(table, name) is None) <==> (forall|i: int| 0 <= i < table.len() ==> #[trigger] table[i].0@ != name),
        forall|i: int| #![trigger table[i]]
            0 <= i < table.len() && table[i].0@ == name && (forall|j: int| 0 <= j < i ==> #[trigger] table[j].0@ != name)
                ==> arity_lookup(table, name) == Some(table[i].1),
        forall|a: InstructionArity| #[trigger] arity_lookup(table, name) == Some(a) ==> exists|i: int|
            0 <= i < table.len() && #[trigger] table[i].0@ == name && table[i].1 == a,
    decreases table.len(),
{
    if table.len() > 0 {
        let rest = table.drop_first();
        lemma_arity_lookup(rest, name);
        assert forall|i: int| 0 <= i < rest.len() implies #[trigger] rest[i] == table[i + 1] by {}
        if table[0].0@ != name {
            assert forall|i: int| #![trigger table[i]]
                0 <= i < table.len() && table[i].0@ == name && (forall|j: int| 0 <= j < i ==> #[trigger] table[j].0@ != name)
                    implies arity_lookup(table, name) == Some(table[i].1) by {
                assert(i > 0);
                assert(rest[i - 1] == table[i]);
                assert forall|j: int| 0 <= j < i - 1 implies #[trigger] rest[j].0@ != name by {
                    assert(rest[j] == table[j + 1]);
                }
            }
            assert forall|a: InstructionArity| #[trigger] arity_lookup(table, name) == Some(a) implies exists|i: int|
                0 <= i < table.len() && #[trigger] table[i].0@ == name && table[i].1 == a by {
                let k = choose|k: int| 0 <= k < rest.len() && #[trigger] rest[k].0@ == name && rest[k].1 == a;
                assert(table[k + 1] == rest[k]);
            }
            if arity_lookup(table, name) is None {
                assert forall|i: int| 0 <= i < table.len() implies #[trigger] table[i].0@ != name by {
                    if i > 0 {
                        assert(rest[i - 1] == table[i]);
                    }
                }
            } else {
                if forall|i: int| 0 <= i < table.len() ==> #[trigger] table[i].0@ != name {
                    assert forall|i: int| 0 <= i < rest.len() implies #[trigger] rest[i].0@ != name by {
                        assert(table[i + 1] == rest[i]);
                    }
                }
            }
        }
    }
}

/// Look up instruction arity by name, by binary search in the sorted table.
pub fn lookup_instruction_arity(name: &str) -> (r: Option<InstructionArity>)
    ensures
        r == arity_lookup(sorted_arity_table(), name@),
        (r is Some) <==> (exists|i: int| 0 <= i < arity_table().len() && #[trigger] arity_table()[i].0@ == name@),
        forall|a: InstructionArity| r == Some(a) ==> exists|i: int|
            0 <= i < arity_table().len() && #[trigger] arity_table()[i].0@ == name@ && arity_table()[i].1 == a,
{
    let table = init_arity_table();
    let nc = chars_of(name);
    let mut lo: usize = 0;
    let mut hi: usize = table.len();
    while lo < hi
        invariant
            table@ == sorted_arity_table(),
            arities_sorted(table@),
            nc@ == name@,
            lo <= hi <= table@.len(),
            forall|j: int| 0 <= j < lo ==> name_lt(#[trigger] table@[j].0@, name@),
            forall|j: int| hi <= j < table@.len() ==> !name_lt(#[trigger] table@[j].0@, name@),
        decreases hi - lo,
    {
        let mid = lo + (hi - lo) / 2;
        let mc = chars_of(table[mid].0);
        let ghost t = table@;
        if name_lt_exec(mc.as_slice(), nc.as_slice()) {
            assert forall|j: int| 0 <= j <= mid implies name_lt(#[trigger] t[j].0@, name@) by {
                if j < mid {
                    assert(!name_lt(t[mid as int].0@, t[j].0@));
                    if name_lt(t[j].0@, t[mid as int].0@) {
                        lemma_name_lt_transitive(t[j].0@, t[mid as int].0@, name@);
                    } else {
                        lemma_name_lt_total(t[j].0@, t[mid as int].0@);
                    }
                }
            }
            lo = mid + 1;
        } else {
            assert forall|j: int| mid <= j < t.len() implies !name_lt(#[trigger] t[j].0@, name@) by {
                if j > mid && name_lt(t[j].0@, name@) {
                    assert(!name_lt(t[j].0@, t[mid as int].0@));
                    if name_lt(t[mid as int].0@, t[j].0@) {
                        lemma_name_lt_transitive(t[mid as int].0@, t[j].0@, name@);
                    } else {
                        lemma_name_lt_total(t[mid as int].0@, t[j].0@);
                    }
                }
            }
            hi = mid;
        }
    }
    let ghost t = table@;
    proof {
        lemma_arity_lookup(t, name@);
        lemma_sort_arities(arity_table());
        assert forall|j: int| 0 <= j < lo implies #[trigger] t[j].0@ != name@ by {
            lemma_name_lt_irreflexive(name@);
        }
    }
    let found = lo < table.len() && chars_eq_str(nc.as_slice(), table[lo].0);
    let r = if found {
        Some(table[lo].1)
    } else {
        proof {
            assert forall|j: int| 0 <= j < t.len() implies #[trigger] t[j].0@ != name@ by {
                if j >= lo && t[j].0@ == name@ {
                    assert(j > lo);
                    assert(t[lo as int].0@ != name@);
                    assert(!name_lt(t[lo as int].0@, name@));
                    lemma_name_lt_total(t[lo as int].0@, name@);
                    assert(!name_lt(t[j].0@, t[lo as int].0@));
                }
            }
        }
        None
    };
    proof {
        if r is Some {
            let i = lo as int;
            assert(t.contains(t[i]));
            assert(arity_table().contains(t[i]));
            let k = choose|k: int| 0 <= k < arity_table().len() && arity_table()[k] == t[i];
            assert(arity_table()[k].0@ == name@);
        } else {
            assert forall|k: int| 0 <= k < arity_table().len() implies #[trigger] arity_table()[k].0@ != name@ by {
                assert(arity_table().contains(arity_table()[k]));
                assert(t.contains(arity_table()[k]));
                let m = choose|m: int| 0 <= m < t.len() && t[m] == arity_table()[k];
                assert(t[m].0@ != name@);
            }
        }
        assert forall|a: InstructionArity| r == Some(a) implies exists|i: int|
            0 <= i < arity_table().len() && #[trigger] arity_table()[i].0@ == name@ && arity_table()[i].1 == a by {
            let i = lo as int;
            assert(t.contains(t[i]));
            assert(arity_table().contains(t[i]));
            let k = choose|k: int| 0 <= k < arity_table().len() && arity_table()[k] == t[i];
            assert(arity_table()[k].0@ == name@ && arity_table()[k].1 == a);
        }
    }
    r
}

/// All instruction arities, keyed by instruction name, in name order.
pub fn get_instruction_arity_map() -> (v: Vec<(&'static str, InstructionArity)>)
    ensures
        v@ == sorted_arity_table(),
        arities_sorted(v@),
{
    init_arity_table()
}

/// Whether the instruction ends control flow, making the code after it unreachable.
pub fn is_terminating_instruction(name: &str) -> (b: bool)
    ensures
        b == (name@ == "unreachable"@ || name@ == "return"@ || name@ == "br"@ || name@
            == "br_table"@ || name@ == "throw"@ || name@ == "throw_ref"@ || name@ == "rethrow"@
            || name@ == "return_call"@ || name@ == "return_call_indirect"@ || name@
            == "return_call_ref"@),
{
    let c = chars_of(name);
    let c = c.as_slice();
    chars_eq_str(c, "unreachable") || chars_eq_str(c, "return") || chars_eq_str(c, "br")
        || chars_eq_str(c, "br_table") || chars_eq_str(c, "throw") || chars_eq_str(c, "throw_ref")
        || chars_eq_str(c, "rethrow") || chars_eq_str(c, "return_call") || chars_eq_str(
        c,
        "return_call_indirect",
    ) || chars_eq_str(c, "return_call_ref")
}

/// The part of `s` after its last `.` (all of `s` when it has none).
pub open spec fn last_dot_segment(s: Seq<char>) -> Seq<char> {
    match text::find_last(s, "."@) {
        Some(i) => s.skip(i + 1),
        None => s,
    }
}

/// Suffixes of lane operations that take one operand.
pub open spec fn is_unary_lane_suffix(suffix: Seq<char>) -> bool {
    suffix == "neg"@ || suffix == "abs"@ || suffix == "popcnt"@ || suffix == "sqrt"@ || suffix
        == "ceil"@ || suffix == "floor"@ || suffix == "trunc"@ || suffix == "nearest"@ || suffix
        == "not"@ || suffix == "trunc_sat_f32x4_s"@ || suffix == "trunc_sat_f32x4_u"@ || suffix
        == "trunc_sat_f64x2_s"@ || suffix == "trunc_sat_f64x2_u"@ || text::starts_with(
        suffix,
        "extend_low"@,
    ) || text::starts_with(suffix, "extend_high"@) || text::starts_with(suffix, "extadd_pairwise"@)
        || text::starts_with(suffix, "promote_low"@) || text::starts_with(suffix, "demote"@) || text::starts_with(
        suffix,
        "convert"@,
    )
}

/// Whether `n` names a lane-typed SIMD operation.
pub open spec fn is_simd_lane_name(n: Seq<char>) -> bool {
    text::starts_with(n, "i8x16."@) || text::starts_with(n, "i16x8."@) || text::starts_with(n, "i32x4."@)
        || text::starts_with(n, "i64x2."@) || text::starts_with(n, "f32x4."@) || text::starts_with(n, "f64x2."@)
}

/// (consumed, produced) stack values of a SIMD instruction, from its name.
pub open spec fn simd_arity(n: Seq<char>) -> Option<(usize, usize)> {
    if text::starts_with(n, "v128."@) {
        if n == "v128.const"@ {
            Some((0, 1))
        } else if n == "v128.not"@ || n == "v128.any_true"@ {
            Some((1, 1))
        } else if n == "v128.and"@ || n == "v128.or"@ || n == "v128.xor"@ || n == "v128.andnot"@ {
            Some((2, 1))
        } else if n == "v128.bitselect"@ {
            Some((3, 1))
        } else if text::starts_with(n, "v128.load"@) {
            if text::contains(n, "_lane"@) {
                Some((2, 1))
            } else {
                Some((1, 1))
            }
        } else if text::starts_with(n, "v128.store"@) {
            Some((2, 0))
        } else {
            None
        }
    } else if !is_simd_lane_name(n) {
        None
    } else if text::ends_with(n, ".splat"@) {
        Some((1, 1))
    } else if text::contains(n, ".extract_lane"@) {
        Some((1, 1))
    } else if text::contains(n, ".replace_lane"@) {
        Some((2, 1))
    } else if text::ends_with(n, ".all_true"@) || text::ends_with(n, ".bitmask"@) {
        Some((1, 1))
    } else if text::contains(n, ".relaxed_"@) {
        if text::contains(n, ".relaxed_madd"@) || text::contains(n, ".relaxed_nmadd"@) || text::contains(
            n,
            ".relaxed_laneselect"@,
        ) || text::contains(n, ".relaxed_dot_i8x16_i7x16_add"@) {
            Some((3, 1))
        } else if text::contains(n, ".relaxed_trunc"@) {
            Some((1, 1))
        } else {
            Some((2, 1))
        }
    } else if is_unary_lane_suffix(last_dot_segment(n)) {
        Some((1, 1))
    } else {
        Some((2, 1))
    }
}

fn is_unary_lane_suffix_exec(suffix: &[char]) -> (b: bool)
    ensures
        b == is_unary_lane_suffix(suffix@),
{
    chars_eq_str(suffix, "neg") || chars_eq_str(suffix, "abs") || chars_eq_str(suffix, "popcnt")
        || chars_eq_str(suffix, "sqrt") || chars_eq_str(suffix, "ceil") || chars_eq_str(
        suffix,
        "floor",
    ) || chars_eq_str(suffix, "trunc") || chars_eq_str(suffix, "nearest") || chars_eq_str(
        suffix,
        "not",
    ) || chars_eq_str(suffix, "trunc_sat_f32x4_s") || chars_eq_str(suffix, "trunc_sat_f32x4_u")
        || chars_eq_str(suffix, "trunc_sat_f64x2_s") || chars_eq_str(suffix, "trunc_sat_f64x2_u")
        || starts_with_str(suffix, "extend_low") || starts_with_str(suffix, "extend_high")
        || starts_with_str(suffix, "extadd_pairwise") || starts_with_str(suffix, "promote_low")
        || starts_with_str(suffix, "demote") || starts_with_str(suffix, "convert")
}

/// Infer the stack arity of a SIMD instruction from its name pattern:
/// `Some((consumes, produces))` for recognized SIMD patterns.
pub fn infer_simd_instruction_arity(name: &str) -> (r: Option<(usize, usize)>)
    ensures
        r == simd_arity(name@),
{
    let nv = chars_of(name);
    let n = nv.as_slice();
    if starts_with_str(n, "v128.") {
        if chars_eq_str(n, "v128.const") {
            return Some((0, 1));
        } else if chars_eq_str(n, "v128.not") || chars_eq_str(n, "v128.any_true") {
            return Some((1, 1));
        } else if chars_eq_str(n, "v128.and") || chars_eq_str(n, "v128.or") || chars_eq_str(
            n,
            "v128.xor",
        ) || chars_eq_str(n, "v128.andnot") {
            return Some((2, 1));
        } else if chars_eq_str(n, "v128.bitselect") {
            return Some((3, 1));
        } else if starts_with_str(n, "v128.load") {
            if contains_str(n, "_lane") {
                return Some((2, 1));
            } else {
                return Some((1, 1));
            }
        } else if starts_with_str(n, "v128.store") {
            return Some((2, 0));
        } else {
            return None;
        }
    }
    let is_simd_lane = starts_with_str(n, "i8x16.") || starts_with_str(n, "i16x8.")
        || starts_with_str(n, "i32x4.") || starts_with_str(n, "i64x2.") || starts_with_str(
        n,
        "f32x4.",
    ) || starts_with_str(n, "f64x2.");
    if !is_simd_lane {
        return None;
    }
    if ends_with_str(n, ".splat") {
        return Some((1, 1));
    }
    if contains_str(n, ".extract_lane") {
        return Some((1, 1));
    }
    if contains_str(n, ".replace_lane") {
        return Some((2, 1));
    }
    if ends_with_str(n, ".all_true") || ends_with_str(n, ".bitmask") {
        return Some((1, 1));
    }
    if contains_str(n, ".relaxed_") {
        if contains_str(n, ".relaxed_madd") || contains_str(n, ".relaxed_nmadd") || contains_str(
            n,
            ".relaxed_laneselect",
        ) || contains_str(n, ".relaxed_dot_i8x16_i7x16_add") {
            return Some((3, 1));
        }
        if contains_str(n, ".relaxed_trunc") {
            return Some((1, 1));
        }
        return Some((2, 1));
    }
    let dot = chars_of(".");
    proof {
        reveal_strlit(".");
        text::lemma_find_last_bound(n@, "."@);
    }
    let suffix_start = match find_last_exec(n, dot.as_slice()) {
        Some(i) => {
            assert(text::occurs_at(n@, "."@, i as int));
            assert("."@.len() == 1);
            assert(i + 1 <= n@.len());
            assert(n@.len() == n.len());
            i + 1
        },
        None => 0,
    };
    let suffix_v = sub_chars(n, suffix_start, n.len());
    let suffix = suffix_v.as_slice();
    proof {
        text::lemma_find_last_bound(n@, "."@);
        assert(suffix@ == last_dot_segment(n@));
    }
    if is_unary_lane_suffix_exec(suffix) {
        return Some((1, 1));
    }
    Some((2, 1))
}

} // verus!





verus! {

proof fn lemma_arity_steps_0()
    ensures
        forall|k: int| 0 <= k < 25 ==> name_lt((#[trigger] arity_table()[k]).0@, arity_table()[k + 1].0@),
{
    reveal_with_fuel(name_lt, 20);
    reveal_strlit("any.convert_extern");
    reveal_strlit("array.copy");
    reveal_strlit("array.fill");
    reveal_strlit("array.get");
    reveal_strlit("array.get_s");
    reveal_strlit("array.get_u");
    reveal_strlit("array.init_data");
    reveal_strlit("array.init_elem");
    reveal_strlit("array.len");
    reveal_strlit("array.new");
    reveal_strlit("array.new_data");
    reveal_strlit("array.new_default");
    reveal_strlit("array.new_elem");
    reveal_strlit("array.new_fixed");
    reveal_strlit("array.set");
    reveal_strlit("atomic.fence");
    reveal_strlit("br");
    reveal_strlit("br_if");
    reveal_strlit("br_on_cast");
    reveal_strlit("br_on_cast_fail");
    reveal_strlit("br_on_non_null");
    reveal_strlit("br_on_null");
    reveal_strlit("br_table");
    reveal_strlit("call");
    reveal_strlit("call_indirect");
    reveal_strlit("call_ref");
    assert(name_lt(arity_table()[0].0@, arity_table()[1].0@));
    assert(name_lt(arity_table()[1].0@, arity_table()[2].0@));
    assert(name_lt(arity_table()[2].0@, arity_table()[3].0@));
    assert(name_lt(arity_table()[3].0@, arity_table()[4].0@));
    assert(name_lt(arity_table()[4].0@, arity_table()[5].0@));
    assert(name_lt(arity_table()[5].0@, arity_table()[6].0@));
    assert(name_lt(arity_table()[6].0@, arity_table()[7].0@));
    assert(name_lt(arity_table()[7].0@, arity_table()[8].0@));
    assert(name_lt(arity_table()[8].0@, arity_table()[9].0@));
    assert(name_lt(arity_table()[9].0@, arity_table()[10].0@));
    assert(name_lt(arity_table()[10].0@, arity_table()[11].0@));
    assert(name_lt(arity_table()[11].0@, arity_table()[12].0@));
    assert(name_lt(arity_table()[12].0@, arity_table()[13].0@));
    assert(name_lt(arity_table()[13].0@, arity_table()[14].0@));
    assert(name_lt(arity_table()[14].0@, arity_table()[15].0@));
    assert(name_lt(arity_table()[15].0@, arity_table()[16].0@));
    assert(name_lt(arity_table()[16].0@, arity_table()[17].0@));
    assert(name_lt(arity_table()[17].0@, arity_table()[18].0@));
    assert(name_lt(arity_table()[18].0@, arity_table()[19].0@));
    assert(name_lt(arity_table()[19].0@, arity_table()[20].0@));
    assert(name_lt(arity_table()[20].0@, arity_table()[21].0@));
    assert(name_lt(arity_table()[21].0@, arity_table()[22].0@));
    assert(name_lt(arity_table()[22].0@, arity_table()[23].0@));
    assert(name_lt(arity_table()[23].0@, arity_table()[24].0@));
    assert(name_lt(arity_table()[24].0@, arity_table()[25].0@));
    assert forall|k: int| 0 <= k < 25 implies name_lt((#[trigger] arity_table()[k]).0@, arity_table()[k + 1].0@) by {
        if k == 0 {
        }        else if k == 1 {
        }        else if k == 2 {
        }        else if k == 3 {
        }        else if k == 4 {
        }        else if k == 5 {
        }        else if k == 6 {
        }        else if k == 7 {
        }        else if k == 8 {
        }        else if k == 9 {
        }        else if k == 10 {
        }        else if k == 11 {
        }        else if k == 12 {
        }        else if k == 13 {
        }        else if k == 14 {
        }        else if k == 15 {
        }        else if k == 16 {
        }        else if k == 17 {
        }        else if k == 18 {
        }        else if k == 19 {
        }        else if k == 20 {
        }        else if k == 21 {
        }        else if k == 22 {
        }        else if k == 23 {
        }        else if k == 24 {
        }
    }
}

proof fn lemma_arity_steps_25()
    ensures
        forall|k: int| 25 <= k < 50 ==> name_lt((#[trigger] arity_table()[k]).0@, arity_table()[k + 1].0@),
{
    reveal_with_fuel(name_lt, 20);
    reveal_strlit("call_ref");
    reveal_strlit("data.drop");
    reveal_strlit("drop");
    reveal_strlit("elem.drop");
    reveal_strlit("extern.convert_any");
    reveal_strlit("f32.abs");
    reveal_strlit("f32.add");
    reveal_strlit("f32.ceil");
    reveal_strlit("f32.const");
    reveal_strlit("f32.convert_i32_s");
    reveal_strlit("f32.convert_i32_u");
    reveal_strlit("f32.convert_i64_s");
    reveal_strlit("f32.convert_i64_u");
    reveal_strlit("f32.copysign");
    reveal_strlit("f32.demote_f64");
    reveal_strlit("f32.div");
    reveal_strlit("f32.eq");
    reveal_strlit("f32.floor");
    reveal_strlit("f32.ge");
    reveal_strlit("f32.gt");
    reveal_strlit("f32.le");
    reveal_strlit("f32.load");
    reveal_strlit("f32.lt");
    reveal_strlit("f32.max");
    reveal_strlit("f32.min");
    reveal_strlit("f32.mul");
    assert(name_lt(arity_table()[25].0@, arity_table()[26].0@));
    assert(name_lt(arity_table()[26].0@, arity_table()[27].0@));
    assert(name_lt(arity_table()[27].0@, arity_table()[28].0@));
    assert(name_lt(arity_table()[28].0@, arity_table()[29].0@));
    assert(name_lt(arity_table()[29].0@, arity_table()[30].0@));
    assert(name_lt(arity_table()[30].0@, arity_table()[31].0@));
    assert(name_lt(arity_table()[31].0@, arity_table()[32].0@));
    assert(name_lt(arity_table()[32].0@, arity_table()[33].0@));
    assert(name_lt(arity_table()[33].0@, arity_table()[34].0@));
    assert(name_lt(arity_table()[34].0@, arity_table()[35].0@));
    assert(name_lt(arity_table()[35].0@, arity_table()[36].0@));
    assert(name_lt(arity_table()[36].0@, arity_table()[37].0@));
    assert(name_lt(arity_table()[37].0@, arity_table()[38].0@));
    assert(name_lt(arity_table()[38].0@, arity_table()[39].0@));
    assert(name_lt(arity_table()[39].0@, arity_table()[40].0@));
    assert(name_lt(arity_table()[40].0@, arity_table()[41].0@));
    assert(name_lt(arity_table()[41].0@, arity_table()[42].0@));
    assert(name_lt(arity_table()[42].0@, arity_table()[43].0@));
    assert(name_lt(arity_table()[43].0@, arity_table()[44].0@));
    assert(name_lt(arity_table()[44].0@, arity_table()[45].0@));
    assert(name_lt(arity_table()[45].0@, arity_table()[46].0@));
    assert(name_lt(arity_table()[46].0@, arity_table()[47].0@));
    assert(name_lt(arity_table()[47].0@, arity_table()[48].0@));
    assert(name_lt(arity_table()[48].0@, arity_table()[49].0@));
    assert(name_lt(arity_table()[49].0@, arity_table()[50].0@));
    assert forall|k: int| 25 <= k < 50 implies name_lt((#[trigger] arity_table()[k]).0@, arity_table()[k + 1].0@) by {
        if k == 25 {
        }        else if k == 26 {
        }        else if k == 27 {
        }        else if k == 28 {
        }        else if k == 29 {
        }        else if k == 30 {
        }        else if k == 31 {
        }        else if k == 32 {
        }        else if k == 33 {
        }        else if k == 34 {
        }        else if k == 35 {
        }        else if k == 36 {
        }        else if k == 37 {
        }        else if k == 38 {
        }        else if k == 39 {
        }        else if k == 40 {
        }        else if k == 41 {
        }        else if k == 42 {
        }        else if k == 43 {
        }        else if k == 44 {
        }        else if k == 45 {
        }        else if k == 46 {
        }        else if k == 47 {
        }        else if k == 48 {
        }        else if k == 49 {
        }
    }
}

proof fn lemma_arity_steps_50()
    ensures
        forall|k: int| 50 <= k < 75 ==> name_lt((#[trigger] arity_table()[k]).0@, arity_table()[k + 1].0@),
{
    reveal_with_fuel(name_lt, 20);
    reveal_strlit("f32.mul");
    reveal_strlit("f32.ne");
    reveal_strlit("f32.nearest");
    reveal_strlit("f32.neg");
    reveal_strlit("f32.reinterpret_i32");
    reveal_strlit("f32.sqrt");
    reveal_strlit("f32.store");
    reveal_strlit("f32.sub");
    reveal_strlit("f32.trunc");
    reveal_strlit("f64.abs");
    reveal_strlit("f64.add");
    reveal_strlit("f64.ceil");
    reveal_strlit("f64.const");
    reveal_strlit("f64.convert_i32_s");
    reveal_strlit("f64.convert_i32_u");
    reveal_strlit("f64.convert_i64_s");
    reveal_strlit("f64.convert_i64_u");
    reveal_strlit("f64.copysign");
    reveal_strlit("f64.div");
    reveal_strlit("f64.eq");
    reveal_strlit("f64.floor");
    reveal_strlit("f64.ge");
    reveal_strlit("f64.gt");
    reveal_strlit("f64.le");
    reveal_strlit("f64.load");
    reveal_strlit("f64.lt");
    assert(name_lt(arity_table()[50].0@, arity_table()[51].0@));
    assert(name_lt(arity_table()[51].0@, arity_table()[52].0@));
    assert(name_lt(arity_table()[52].0@, arity_table()[53].0@));
    assert(name_lt(arity_table()[53].0@, arity_table()[54].0@));
    assert(name_lt(arity_table()[54].0@, arity_table()[55].0@));
    assert(name_lt(arity_table()[55].0@, arity_table()[56].0@));
    assert(name_lt(arity_table()[56].0@, arity_table()[57].0@));
    assert(name_lt(arity_table()[57].0@, arity_table()[58].0@));
    assert(name_lt(arity_table()[58].0@, arity_table()[59].0@));
    assert(name_lt(arity_table()[59].0@, arity_table()[60].0@));
    assert(name_lt(arity_table()[60].0@, arity_table()[61].0@));
    assert(name_lt(arity_table()[61].0@, arity_table()[62].0@));
    assert(name_lt(arity_table()[62].0@, arity_table()[63].0@));
    assert(name_lt(arity_table()[63].0@, arity_table()[64].0@));
    assert(name_lt(arity_table()[64].0@, arity_table()[65].0@));
    assert(name_lt(arity_table()[65].0@, arity_table()[66].0@));
    assert(name_lt(arity_table()[66].0@, arity_table()[67].0@));
    assert(name_lt(arity_table()[67].0@, arity_table()[68].0@));
    assert(name_lt(arity_table()[68].0@, arity_table()[69].0@));
    assert(name_lt(arity_table()[69].0@, arity_table()[70].0@));
    assert(name_lt(arity_table()[70].0@, arity_table()[71].0@));
    assert(name_lt(arity_table()[71].0@, arity_table()[72].0@));
    assert(name_lt(arity_table()[72].0@, arity_table()[73].0@));
    assert(name_lt(arity_table()[73].0@, arity_table()[74].0@));
    assert(name_lt(arity_table()[74].0@, arity_table()[75].0@));
    assert forall|k: int| 50 <= k < 75 implies name_lt((#[trigger] arity_table()[k]).0@, arity_table()[k + 1].0@) by {
        if k == 50 {
        }        else if k == 51 {
        }        else if k == 52 {
        }        else if k == 53 {
        }        else if k == 54 {
        }        else if k == 55 {
        }        else if k == 56 {
        }        else if k == 57 {
        }        else if k == 58 {
        }        else if k == 59 {
        }        else if k == 60 {
        }        else if k == 61 {
        }        else if k == 62 {
        }        else if k == 63 {
        }        else if k == 64 {
        }        else if k == 65 {
        }        else if k == 66 {
        }        else if k == 67 {
        }        else if k == 68 {
        }        else if k == 69 {
        }        else if k == 70 {
        }        else if k == 71 {
        }        else if k == 72 {
        }        else if k == 73 {
        }        else if k == 74 {
        }
    }
}

proof fn lemma_arity_steps_75()
    ensures
        forall|k: int| 75 <= k < 100 ==> name_lt((#[trigger] arity_table()[k]).0@, arity_table()[k + 1].0@),
{
    reveal_with_fuel(name_lt, 20);
    reveal_strlit("f64.lt");
    reveal_strlit("f64.max");
    reveal_strlit("f64.min");
    reveal_strlit("f64.mul");
    reveal_strlit("f64.ne");
    reveal_strlit("f64.nearest");
    reveal_strlit("f64.neg");
    reveal_strlit("f64.promote_f32");
    reveal_strlit("f64.reinterpret_i64");
    reveal_strlit("f64.sqrt");
    reveal_strlit("f64.store");
    reveal_strlit("f64.sub");
    reveal_strlit("f64.trunc");
    reveal_strlit("global.get");
    reveal_strlit("global.set");
    reveal_strlit("i31.get_s");
    reveal_strlit("i31.get_u");
    reveal_strlit("i32.add");
    reveal_strlit("i32.and");
    reveal_strlit("i32.atomic.load");
    reveal_strlit("i32.atomic.load16_u");
    reveal_strlit("i32.atomic.load8_u");
    reveal_strlit("i32.atomic.rmw.add");
    reveal_strlit("i32.atomic.rmw.and");
    reveal_strlit("i32.atomic.rmw.cmpxchg");
    reveal_strlit("i32.atomic.rmw.or");
    assert(name_lt(arity_table()[75].0@, arity_table()[76].0@));
    assert(name_lt(arity_table()[76].0@, arity_table()[77].0@));
    assert(name_lt(arity_table()[77].0@, arity_table()[78].0@));
    assert(name_lt(arity_table()[78].0@, arity_table()[79].0@));
    assert(name_lt(arity_table()[79].0@, arity_table()[80].0@));
    assert(name_lt(arity_table()[80].0@, arity_table()[81].0@));
    assert(name_lt(arity_table()[81].0@, arity_table()[82].0@));
    assert(name_lt(arity_table()[82].0@, arity_table()[83].0@));
    assert(name_lt(arity_table()[83].0@, arity_table()[84].0@));
    assert(name_lt(arity_table()[84].0@, arity_table()[85].0@));
    assert(name_lt(arity_table()[85].0@, arity_table()[86].0@));
    assert(name_lt(arity_table()[86].0@, arity_table()[87].0@));
    assert(name_lt(arity_table()[87].0@, arity_table()[88].0@));
    assert(name_lt(arity_table()[88].0@, arity_table()[89].0@));
    assert(name_lt(arity_table()[89].0@, arity_table()[90].0@));
    assert(name_lt(arity_table()[90].0@, arity_table()[91].0@));
    assert(name_lt(arity_table()[91].0@, arity_table()[92].0@));
    assert(name_lt(arity_table()[92].0@, arity_table()[93].0@));
    assert(name_lt(arity_table()[93].0@, arity_table()[94].0@));
    assert(name_lt(arity_table()[94].0@, arity_table()[95].0@));
    assert(name_lt(arity_table()[95].0@, arity_table()[96].0@));
    assert(name_lt(arity_table()[96].0@, arity_table()[97].0@));
    assert(name_lt(arity_table()[97].0@, arity_table()[98].0@));
    assert(name_lt(arity_table()[98].0@, arity_table()[99].0@));
    assert(name_lt(arity_table()[99].0@, arity_table()[100].0@));
    assert forall|k: int| 75 <= k < 100 implies name_lt((#[trigger] arity_table()[k]).0@, arity_table()[k + 1].0@) by {
        if k == 75 {
        }        else if k == 76 {
        }        else if k == 77 {
        }        else if k == 78 {
        }        else if k == 79 {
        }        else if k == 80 {
        }        else if k == 81 {
        }        else if k == 82 {
        }        else if k == 83 {
        }        else if k == 84 {
        }        else if k == 85 {
        }        else if k == 86 {
        }        else if k == 87 {
        }        else if k == 88 {
        }        else if k == 89 {
        }        else if k == 90 {
        }        else if k == 91 {
        }        else if k == 92 {
        }        else if k == 93 {
        }        else if k == 94 {
        }        else if k == 95 {
        }        else if k == 96 {
        }        else if k == 97 {
        }        else if k == 98 {
        }        else if k == 99 {
        }
    }
}

proof fn lemma_arity_steps_100()
    ensures
        forall|k: int| 100 <= k < 125 ==> name_lt((#[trigger] arity_table()[k]).0@, arity_table()[k + 1].0@),
{
    reveal_with_fuel(name_lt, 20);
    reveal_strlit("i32.atomic.rmw.or");
    reveal_strlit("i32.atomic.rmw.sub");
    reveal_strlit("i32.atomic.rmw.xchg");
    reveal_strlit("i32.atomic.rmw.xor");
    reveal_strlit("i32.atomic.rmw16.add_u");
    reveal_strlit("i32.atomic.rmw16.and_u");
    reveal_strlit("i32.atomic.rmw16.cmpxchg_u");
    reveal_strlit("i32.atomic.rmw16.or_u");
    reveal_strlit("i32.atomic.rmw16.sub_u");
    reveal_strlit("i32.atomic.rmw16.xchg_u");
    reveal_strlit("i32.atomic.rmw16.xor_u");
    reveal_strlit("i32.atomic.rmw8.add_u");
    reveal_strlit("i32.atomic.rmw8.and_u");
    reveal_strlit("i32.atomic.rmw8.cmpxchg_u");
    reveal_strlit("i32.atomic.rmw8.or_u");
    reveal_strlit("i32.atomic.rmw8.sub_u");
    reveal_strlit("i32.atomic.rmw8.xchg_u");
    reveal_strlit("i32.atomic.rmw8.xor_u");
    reveal_strlit("i32.atomic.store");
    reveal_strlit("i32.atomic.store16");
    reveal_strlit("i32.atomic.store8");
    reveal_strlit("i32.clz");
    reveal_strlit("i32.const");
    reveal_strlit("i32.ctz");
    reveal_strlit("i32.div_s");
    reveal_strlit("i32.div_u");
    assert(name_lt(arity_table()[100].0@, arity_table()[101].0@));
    assert(name_lt(arity_table()[101].0@, arity_table()[102].0@));
    assert(name_lt(arity_table()[102].0@, arity_table()[103].0@));
    assert(name_lt(arity_table()[103].0@, arity_table()[104].0@));
    assert(name_lt(arity_table()[104].0@, arity_table()[105].0@));
    assert(name_lt(arity_table()[105].0@, arity_table()[106].0@));
    assert(name_lt(arity_table()[106].0@, arity_table()[107].0@));
    assert(name_lt(arity_table()[107].0@, arity_table()[108].0@));
    assert(name_lt(arity_table()[108].0@, arity_table()[109].0@));
    assert(name_lt(arity_table()[109].0@, arity_table()[110].0@));
    assert(name_lt(arity_table()[110].0@, arity_table()[111].0@));
    assert(name_lt(arity_table()[111].0@, arity_table()[112].0@));
    assert(name_lt(arity_table()[112].0@, arity_table()[113].0@));
    assert(name_lt(arity_table()[113].0@, arity_table()[114].0@));
    assert(name_lt(arity_table()[114].0@, arity_table()[115].0@));
    assert(name_lt(arity_table()[115].0@, arity_table()[116].0@));
    assert(name_lt(arity_table()[116].0@, arity_table()[117].0@));
    assert(name_lt(arity_table()[117].0@, arity_table()[118].0@));
    assert(name_lt(arity_table()[118].0@, arity_table()[119].0@));
    assert(name_lt(arity_table()[119].0@, arity_table()[120].0@));
    assert(name_lt(arity_table()[120].0@, arity_table()[121].0@));
    assert(name_lt(arity_table()[121].0@, arity_table()[122].0@));
    assert(name_lt(arity_table()[122].0@, arity_table()[123].0@));
    assert(name_lt(arity_table()[123].0@, arity_table()[124].0@));
    assert(name_lt(arity_table()[124].0@, arity_table()[125].0@));
    assert forall|k: int| 100 <= k < 125 implies name_lt((#[trigger] arity_table()[k]).0@, arity_table()[k + 1].0@) by {
        if k == 100 {
        }        else if k == 101 {
        }        else if k == 102 {
        }        else if k == 103 {
        }        else if k == 104 {
        }        else if k == 105 {
        }        else if k == 106 {
        }        else if k == 107 {
        }        else if k == 108 {
        }        else if k == 109 {
        }        else if k == 110 {
        }        else if k == 111 {
        }        else if k == 112 {
        }        else if k == 113 {
        }        else if k == 114 {
        }        else if k == 115 {
        }        else if k == 116 {
        }        else if k == 117 {
        }        else if k == 118 {
        }        else if k == 119 {
        }        else if k == 120 {
        }        else if k == 121 {
        }        else if k == 122 {
        }        else if k == 123 {
        }        else if k == 124 {
        }
    }
}

proof fn lemma_arity_steps_125()
    ensures
        forall|k: int| 125 <= k < 150 ==> name_lt((#[trigger] arity_table()[k]).0@, arity_table()[k + 1].0@),
{
    reveal_with_fuel(name_lt, 20);
    reveal_strlit("i32.div_u");
    reveal_strlit("i32.eq");
    reveal_strlit("i32.eqz");
    reveal_strlit("i32.extend16_s");
    reveal_strlit("i32.extend8_s");
    reveal_strlit("i32.ge_s");
    reveal_strlit("i32.ge_u");
    reveal_strlit("i32.gt_s");
    reveal_strlit("i32.gt_u");
    reveal_strlit("i32.le_s");
    reveal_strlit("i32.le_u");
    reveal_strlit("i32.load");
    reveal_strlit("i32.load16_s");
    reveal_strlit("i32.load16_u");
    reveal_strlit("i32.load8_s");
    reveal_strlit("i32.load8_u");
    reveal_strlit("i32.lt_s");
    reveal_strlit("i32.lt_u");
    reveal_strlit("i32.mul");
    reveal_strlit("i32.ne");
    reveal_strlit("i32.or");
    reveal_strlit("i32.popcnt");
    reveal_strlit("i32.reinterpret_f32");
    reveal_strlit("i32.rem_s");
    reveal_strlit("i32.rem_u");
    reveal_strlit("i32.rotl");
    assert(name_lt(arity_table()[125].0@, arity_table()[126].0@));
    assert(name_lt(arity_table()[126].0@, arity_table()[127].0@));
    assert(name_lt(arity_table()[127].0@, arity_table()[128].0@));
    assert(name_lt(arity_table()[128].0@, arity_table()[129].0@));
    assert(name_lt(arity_table()[129].0@, arity_table()[130].0@));
    assert(name_lt(arity_table()[130].0@, arity_table()[131].0@));
    assert(name_lt(arity_table()[131].0@, arity_table()[132].0@));
    assert(name_lt(arity_table()[132].0@, arity_table()[133].0@));
    assert(name_lt(arity_table()[133].0@, arity_table()[134].0@));
    assert(name_lt(arity_table()[134].0@, arity_table()[135].0@));
    assert(name_lt(arity_table()[135].0@, arity_table()[136].0@));
    assert(name_lt(arity_table()[136].0@, arity_table()[137].0@));
    assert(name_lt(arity_table()[137].0@, arity_table()[138].0@));
    assert(name_lt(arity_table()[138].0@, arity_table()[139].0@));
    assert(name_lt(arity_table()[139].0@, arity_table()[140].0@));
    assert(name_lt(arity_table()[140].0@, arity_table()[141].0@));
    assert(name_lt(arity_table()[141].0@, arity_table()[142].0@));
    assert(name_lt(arity_table()[142].0@, arity_table()[143].0@));
    assert(name_lt(arity_table()[143].0@, arity_table()[144].0@));
    assert(name_lt(arity_table()[144].0@, arity_table()[145].0@));
    assert(name_lt(arity_table()[145].0@, arity_table()[146].0@));
    assert(name_lt(arity_table()[146].0@, arity_table()[147].0@));
    assert(name_lt(arity_table()[147].0@, arity_table()[148].0@));
    assert(name_lt(arity_table()[148].0@, arity_table()[149].0@));
    assert(name_lt(arity_table()[149].0@, arity_table()[150].0@));
    assert forall|k: int| 125 <= k < 150 implies name_lt((#[trigger] arity_table()[k]).0@, arity_table()[k + 1].0@) by {
        if k == 125 {
        }        else if k == 126 {
        }        else if k == 127 {
        }        else if k == 128 {
        }        else if k == 129 {
        }        else if k == 130 {
        }        else if k == 131 {
        }        else if k == 132 {
        }        else if k == 133 {
        }        else if k == 134 {
        }        else if k == 135 {
        }        else if k == 136 {
        }        else if k == 137 {
        }        else if k == 138 {
        }        else if k == 139 {
        }        else if k == 140 {
        }        else if k == 141 {
        }        else if k == 142 {
        }        else if k == 143 {
        }        else if k == 144 {
        }        else if k == 145 {
        }        else if k == 146 {
        }        else if k == 147 {
        }        else if k == 148 {
        }        else if k == 149 {
        }
    }
}

proof fn lemma_arity_steps_150()
    ensures
        forall|k: int| 150 <= k < 175 ==> name_lt((#[trigger] arity_table()[k]).0@, arity_table()[k + 1].0@),
{
    reveal_with_fuel(name_lt, 20);
    reveal_strlit("i32.rotl");
    reveal_strlit("i32.rotr");
    reveal_strlit("i32.shl");
    reveal_strlit("i32.shr_s");
    reveal_strlit("i32.shr_u");
    reveal_strlit("i32.store");
    reveal_strlit("i32.store16");
    reveal_strlit("i32.store8");
    reveal_strlit("i32.sub");
    reveal_strlit("i32.trunc_f32_s");
    reveal_strlit("i32.trunc_f32_u");
    reveal_strlit("i32.trunc_f64_s");
    reveal_strlit("i32.trunc_f64_u");
    reveal_strlit("i32.trunc_sat_f32_s");
    reveal_strlit("i32.trunc_sat_f32_u");
    reveal_strlit("i32.trunc_sat_f64_s");
    reveal_strlit("i32.trunc_sat_f64_u");
    reveal_strlit("i32.wrap_i64");
    reveal_strlit("i32.xor");
    reveal_strlit("i64.add");
    reveal_strlit("i64.and");
    reveal_strlit("i64.atomic.load");
    reveal_strlit("i64.atomic.load16_u");
    reveal_strlit("i64.atomic.load32_u");
    reveal_strlit("i64.atomic.load8_u");
    reveal_strlit("i64.atomic.rmw.add");
    assert(name_lt(arity_table()[150].0@, arity_table()[151].0@));
    assert(name_lt(arity_table()[151].0@, arity_table()[152].0@));
    assert(name_lt(arity_table()[152].0@, arity_table()[153].0@));
    assert(name_lt(arity_table()[153].0@, arity_table()[154].0@));
    assert(name_lt(arity_table()[154].0@, arity_table()[155].0@));
    assert(name_lt(arity_table()[155].0@, arity_table()[156].0@));
    assert(name_lt(arity_table()[156].0@, arity_table()[157].0@));
    assert(name_lt(arity_table()[157].0@, arity_table()[158].0@));
    assert(name_lt(arity_table()[158].0@, arity_table()[159].0@));
    assert(name_lt(arity_table()[159].0@, arity_table()[160].0@));
    assert(name_lt(arity_table()[160].0@, arity_table()[161].0@));
    assert(name_lt(arity_table()[161].0@, arity_table()[162].0@));
    assert(name_lt(arity_table()[162].0@, arity_table()[163].0@));
    assert(name_lt(arity_table()[163].0@, arity_table()[164].0@));
    assert(name_lt(arity_table()[164].0@, arity_table()[165].0@));
    assert(name_lt(arity_table()[165].0@, arity_table()[166].0@));
    assert(name_lt(arity_table()[166].0@, arity_table()[167].0@));
    assert(name_lt(arity_table()[167].0@, arity_table()[168].0@));
    assert(name_lt(arity_table()[168].0@, arity_table()[169].0@));
    assert(name_lt(arity_table()[169].0@, arity_table()[170].0@));
    assert(name_lt(arity_table()[170].0@, arity_table()[171].0@));
    assert(name_lt(arity_table()[171].0@, arity_table()[172].0@));
    assert(name_lt(arity_table()[172].0@, arity_table()[173].0@));
    assert(name_lt(arity_table()[173].0@, arity_table()[174].0@));
    assert(name_lt(arity_table()[174].0@, arity_table()[175].0@));
    assert forall|k: int| 150 <= k < 175 implies name_lt((#[trigger] arity_table()[k]).0@, arity_table()[k + 1].0@) by {
        if k == 150 {
        }        else if k == 151 {
        }        else if k == 152 {
        }        else if k == 153 {
        }        else if k == 154 {
        }        else if k == 155 {
        }        else if k == 156 {
        }        else if k == 157 {
        }        else if k == 158 {
        }        else if k == 159 {
        }        else if k == 160 {
        }        else if k == 161 {
        }        else if k == 162 {
        }        else if k == 163 {
        }        else if k == 164 {
        }        else if k == 165 {
        }        else if k == 166 {
        }        else if k == 167 {
        }        else if k == 168 {
        }        else if k == 169 {
        }        else if k == 170 {
        }        else if k == 171 {
        }        else if k == 172 {
        }        else if k == 173 {
        }        else if k == 174 {
        }
    }
}

proof fn lemma_arity_steps_175()
    ensures
        forall|k: int| 175 <= k < 200 ==> name_lt((#[trigger] arity_table()[k]).0@, arity_table()[k + 1].0@),
{
    reveal_with_fuel(name_lt, 20);
    reveal_strlit("i64.atomic.rmw.add");
    reveal_strlit("i64.atomic.rmw.and");
    reveal_strlit("i64.atomic.rmw.cmpxchg");
    reveal_strlit("i64.atomic.rmw.or");
    reveal_strlit("i64.atomic.rmw.sub");
    reveal_strlit("i64.atomic.rmw.xchg");
    reveal_strlit("i64.atomic.rmw.xor");
    reveal_strlit("i64.atomic.rmw16.add_u");
    reveal_strlit("i64.atomic.rmw16.and_u");
    reveal_strlit("i64.atomic.rmw16.cmpxchg_u");
    reveal_strlit("i64.atomic.rmw16.or_u");
    reveal_strlit("i64.atomic.rmw16.sub_u");
    reveal_strlit("i64.atomic.rmw16.xchg_u");
    reveal_strlit("i64.atomic.rmw16.xor_u");
    reveal_strlit("i64.atomic.rmw32.add_u");
    reveal_strlit("i64.atomic.rmw32.and_u");
    reveal_strlit("i64.atomic.rmw32.cmpxchg_u");
    reveal_strlit("i64.atomic.rmw32.or_u");
    reveal_strlit("i64.atomic.rmw32.sub_u");
    reveal_strlit("i64.atomic.rmw32.xchg_u");
    reveal_strlit("i64.atomic.rmw32.xor_u");
    reveal_strlit("i64.atomic.rmw8.add_u");
    reveal_strlit("i64.atomic.rmw8.and_u");
    reveal_strlit("i64.atomic.rmw8.cmpxchg_u");
    reveal_strlit("i64.atomic.rmw8.or_u");
    reveal_strlit("i64.atomic.rmw8.sub_u");
    assert(name_lt(arity_table()[175].0@, arity_table()[176].0@));
    assert(name_lt(arity_table()[176].0@, arity_table()[177].0@));
    assert(name_lt(arity_table()[177].0@, arity_table()[178].0@));
    assert(name_lt(arity_table()[178].0@, arity_table()[179].0@));
    assert(name_lt(arity_table()[179].0@, arity_table()[180].0@));
    assert(name_lt(arity_table()[180].0@, arity_table()[181].0@));
    assert(name_lt(arity_table()[181].0@, arity_table()[182].0@));
    assert(name_lt(arity_table()[182].0@, arity_table()[183].0@));
    assert(name_lt(arity_table()[183].0@, arity_table()[184].0@));
    assert(name_lt(arity_table()[184].0@, arity_table()[185].0@));
    assert(name_lt(arity_table()[185].0@, arity_table()[186].0@));
    assert(name_lt(arity_table()[186].0@, arity_table()[187].0@));
    assert(name_lt(arity_table()[187].0@, arity_table()[188].0@));
    assert(name_lt(arity_table()[188].0@, arity_table()[189].0@));
    assert(name_lt(arity_table()[189].0@, arity_table()[190].0@));
    assert(name_lt(arity_table()[190].0@, arity_table()[191].0@));
    assert(name_lt(arity_table()[191].0@, arity_table()[192].0@));
    assert(name_lt(arity_table()[192].0@, arity_table()[193].0@));
    assert(name_lt(arity_table()[193].0@, arity_table()[194].0@));
    assert(name_lt(arity_table()[194].0@, arity_table()[195].0@));
    assert(name_lt(arity_table()[195].0@, arity_table()[196].0@));
    assert(name_lt(arity_table()[196].0@, arity_table()[197].0@));
    assert(name_lt(arity_table()[197].0@, arity_table()[198].0@));
    assert(name_lt(arity_table()[198].0@, arity_table()[199].0@));
    assert(name_lt(arity_table()[199].0@, arity_table()[200].0@));
    assert forall|k: int| 175 <= k < 200 implies name_lt((#[trigger] arity_table()[k]).0@, arity_table()[k + 1].0@) by {
        if k == 175 {
        }        else if k == 176 {
        }        else if k == 177 {
        }        else if k == 178 {
        }        else if k == 179 {
        }        else if k == 180 {
        }        else if k == 181 {
        }        else if k == 182 {
        }        else if k == 183 {
        }        else if k == 184 {
        }        else if k == 185 {
        }        else if k == 186 {
        }        else if k == 187 {
        }        else if k == 188 {
        }        else if k == 189 {
        }        else if k == 190 {
        }        else if k == 191 {
        }        else if k == 192 {
        }        else if k == 193 {
        }        else if k == 194 {
        }        else if k == 195 {
        }        else if k == 196 {
        }        else if k == 197 {
        }        else if k == 198 {
        }        else if k == 199 {
        }
    }
}

proof fn lemma_arity_steps_200()
    ensures
        forall|k: int| 200 <= k < 225 ==> name_lt((#[trigger] arity_table()[k]).0@, arity_table()[k + 1].0@),
{
    reveal_with_fuel(name_lt, 20);
    reveal_strlit("i64.atomic.rmw8.sub_u");
    reveal_strlit("i64.atomic.rmw8.xchg_u");
    reveal_strlit("i64.atomic.rmw8.xor_u");
    reveal_strlit("i64.atomic.store");
    reveal_strlit("i64.atomic.store16");
    reveal_strlit("i64.atomic.store32");
    reveal_strlit("i64.atomic.store8");
    reveal_strlit("i64.clz");
    reveal_strlit("i64.const");
    reveal_strlit("i64.ctz");
    reveal_strlit("i64.div_s");
    reveal_strlit("i64.div_u");
    reveal_strlit("i64.eq");
    reveal_strlit("i64.eqz");
    reveal_strlit("i64.extend16_s");
    reveal_strlit("i64.extend32_s");
    reveal_strlit("i64.extend8_s");
    reveal_strlit("i64.extend_i32_s");
    reveal_strlit("i64.extend_i32_u");
    reveal_strlit("i64.ge_s");
    reveal_strlit("i64.ge_u");
    reveal_strlit("i64.gt_s");
    reveal_strlit("i64.gt_u");
    reveal_strlit("i64.le_s");
    reveal_strlit("i64.le_u");
    reveal_strlit("i64.load");
    assert(name_lt(arity_table()[200].0@, arity_table()[201].0@));
    assert(name_lt(arity_table()[201].0@, arity_table()[202].0@));
    assert(name_lt(arity_table()[202].0@, arity_table()[203].0@));
    assert(name_lt(arity_table()[203].0@, arity_table()[204].0@));
    assert(name_lt(arity_table()[204].0@, arity_table()[205].0@));
    assert(name_lt(arity_table()[205].0@, arity_table()[206].0@));
    assert(name_lt(arity_table()[206].0@, arity_table()[207].0@));
    assert(name_lt(arity_table()[207].0@, arity_table()[208].0@));
    assert(name_lt(arity_table()[208].0@, arity_table()[209].0@));
    assert(name_lt(arity_table()[209].0@, arity_table()[210].0@));
    assert(name_lt(arity_table()[210].0@, arity_table()[211].0@));
    assert(name_lt(arity_table()[211].0@, arity_table()[212].0@));
    assert(name_lt(arity_table()[212].0@, arity_table()[213].0@));
    assert(name_lt(arity_table()[213].0@, arity_table()[214].0@));
    assert(name_lt(arity_table()[214].0@, arity_table()[215].0@));
    assert(name_lt(arity_table()[215].0@, arity_table()[216].0@));
    assert(name_lt(arity_table()[216].0@, arity_table()[217].0@));
    assert(name_lt(arity_table()[217].0@, arity_table()[218].0@));
    assert(name_lt(arity_table()[218].0@, arity_table()[219].0@));
    assert(name_lt(arity_table()[219].0@, arity_table()[220].0@));
    assert(name_lt(arity_table()[220].0@, arity_table()[221].0@));
    assert(name_lt(arity_table()[221].0@, arity_table()[222].0@));
    assert(name_lt(arity_table()[222].0@, arity_table()[223].0@));
    assert(name_lt(arity_table()[223].0@, arity_table()[224].0@));
    assert(name_lt(arity_table()[224].0@, arity_table()[225].0@));
    assert forall|k: int| 200 <= k < 225 implies name_lt((#[trigger] arity_table()[k]).0@, arity_table()[k + 1].0@) by {
        if k == 200 {
        }        else if k == 201 {
        }        else if k == 202 {
        }        else if k == 203 {
        }        else if k == 204 {
        }        else if k == 205 {
        }        else if k == 206 {
        }        else if k == 207 {
        }        else if k == 208 {
        }        else if k == 209 {
        }        else if k == 210 {
        }        else if k == 211 {
        }        else if k == 212 {
        }        else if k == 213 {
        }        else if k == 214 {
        }        else if k == 215 {
        }        else if k == 216 {
        }        else if k == 217 {
        }        else if k == 218 {
        }        else if k == 219 {
        }        else if k == 220 {
        }        else if k == 221 {
        }        else if k == 222 {
        }        else if k == 223 {
        }        else if k == 224 {
        }
    }
}

proof fn lemma_arity_steps_225()
    ensures
        forall|k: int| 225 <= k < 250 ==> name_lt((#[trigger] arity_table()[k]).0@, arity_table()[k + 1].0@),
{
    reveal_with_fuel(name_lt, 20);
    reveal_strlit("i64.load");
    reveal_strlit("i64.load16_s");
    reveal_strlit("i64.load16_u");
    reveal_strlit("i64.load32_s");
    reveal_strlit("i64.load32_u");
    reveal_strlit("i64.load8_s");
    reveal_strlit("i64.load8_u");
    reveal_strlit("i64.lt_s");
    reveal_strlit("i64.lt_u");
    reveal_strlit("i64.mul");
    reveal_strlit("i64.ne");
    reveal_strlit("i64.or");
    reveal_strlit("i64.popcnt");
    reveal_strlit("i64.reinterpret_f64");
    reveal_strlit("i64.rem_s");
    reveal_strlit("i64.rem_u");
    reveal_strlit("i64.rotl");
    reveal_strlit("i64.rotr");
    reveal_strlit("i64.shl");
    reveal_strlit("i64.shr_s");
    reveal_strlit("i64.shr_u");
    reveal_strlit("i64.store");
    reveal_strlit("i64.store16");
    reveal_strlit("i64.store32");
    reveal_strlit("i64.store8");
    reveal_strlit("i64.sub");
    assert(name_lt(arity_table()[225].0@, arity_table()[226].0@));
    assert(name_lt(arity_table()[226].0@, arity_table()[227].0@));
    assert(name_lt(arity_table()[227].0@, arity_table()[228].0@));
    assert(name_lt(arity_table()[228].0@, arity_table()[229].0@));
    assert(name_lt(arity_table()[229].0@, arity_table()[230].0@));
    assert(name_lt(arity_table()[230].0@, arity_table()[231].0@));
    assert(name_lt(arity_table()[231].0@, arity_table()[232].0@));
    assert(name_lt(arity_table()[232].0@, arity_table()[233].0@));
    assert(name_lt(arity_table()[233].0@, arity_table()[234].0@));
    assert(name_lt(arity_table()[234].0@, arity_table()[235].0@));
    assert(name_lt(arity_table()[235].0@, arity_table()[236].0@));
    assert(name_lt(arity_table()[236].0@, arity_table()[237].0@));
    assert(name_lt(arity_table()[237].0@, arity_table()[238].0@));
    assert(name_lt(arity_table()[238].0@, arity_table()[239].0@));
    assert(name_lt(arity_table()[239].0@, arity_table()[240].0@));
    assert(name_lt(arity_table()[240].0@, arity_table()[241].0@));
    assert(name_lt(arity_table()[241].0@, arity_table()[242].0@));
    assert(name_lt(arity_table()[242].0@, arity_table()[243].0@));
    assert(name_lt(arity_table()[243].0@, arity_table()[244].0@));
    assert(name_lt(arity_table()[244].0@, arity_table()[245].0@));
    assert(name_lt(arity_table()[245].0@, arity_table()[246].0@));
    assert(name_lt(arity_table()[246].0@, arity_table()[247].0@));
    assert(name_lt(arity_table()[247].0@, arity_table()[248].0@));
    assert(name_lt(arity_table()[248].0@, arity_table()[249].0@));
    assert(name_lt(arity_table()[249].0@, arity_table()[250].0@));
    assert forall|k: int| 225 <= k < 250 implies name_lt((#[trigger] arity_table()[k]).0@, arity_table()[k + 1].0@) by {
        if k == 225 {
        }        else if k == 226 {
        }        else if k == 227 {
        }        else if k == 228 {
        }        else if k == 229 {
        }        else if k == 230 {
        }        else if k == 231 {
        }        else if k == 232 {
        }        else if k == 233 {
        }        else if k == 234 {
        }        else if k == 235 {
        }        else if k == 236 {
        }        else if k == 237 {
        }        else if k == 238 {
        }        else if k == 239 {
        }        else if k == 240 {
        }        else if k == 241 {
        }        else if k == 242 {
        }        else if k == 243 {
        }        else if k == 244 {
        }        else if k == 245 {
        }        else if k == 246 {
        }        else if k == 247 {
        }        else if k == 248 {
        }        else if k == 249 {
        }
    }
}

proof fn lemma_arity_steps_250()
    ensures
        forall|k: int| 250 <= k < 275 ==> name_lt((#[trigger] arity_table()[k]).0@, arity_table()[k + 1].0@),
{
    reveal_with_fuel(name_lt, 20);
    reveal_strlit("i64.sub");
    reveal_strlit("i64.trunc_f32_s");
    reveal_strlit("i64.trunc_f32_u");
    reveal_strlit("i64.trunc_f64_s");
    reveal_strlit("i64.trunc_f64_u");
    reveal_strlit("i64.trunc_sat_f32_s");
    reveal_strlit("i64.trunc_sat_f32_u");
    reveal_strlit("i64.trunc_sat_f64_s");
    reveal_strlit("i64.trunc_sat_f64_u");
    reveal_strlit("i64.xor");
    reveal_strlit("local.get");
    reveal_strlit("local.set");
    reveal_strlit("local.tee");
    reveal_strlit("memory.atomic.notify");
    reveal_strlit("memory.atomic.wait32");
    reveal_strlit("memory.atomic.wait64");
    reveal_strlit("memory.copy");
    reveal_strlit("memory.fill");
    reveal_strlit("memory.grow");
    reveal_strlit("memory.init");
    reveal_strlit("memory.size");
    reveal_strlit("nop");
    reveal_strlit("ref.as_non_null");
    reveal_strlit("ref.cast");
    reveal_strlit("ref.cast_null");
    reveal_strlit("ref.eq");
    assert(name_lt(arity_table()[250].0@, arity_table()[251].0@));
    assert(name_lt(arity_table()[251].0@, arity_table()[252].0@));
    assert(name_lt(arity_table()[252].0@, arity_table()[253].0@));
    assert(name_lt(arity_table()[253].0@, arity_table()[254].0@));
    assert(name_lt(arity_table()[254].0@, arity_table()[255].0@));
    assert(name_lt(arity_table()[255].0@, arity_table()[256].0@));
    assert(name_lt(arity_table()[256].0@, arity_table()[257].0@));
    assert(name_lt(arity_table()[257].0@, arity_table()[258].0@));
    assert(name_lt(arity_table()[258].0@, arity_table()[259].0@));
    assert(name_lt(arity_table()[259].0@, arity_table()[260].0@));
    assert(name_lt(arity_table()[260].0@, arity_table()[261].0@));
    assert(name_lt(arity_table()[261].0@, arity_table()[262].0@));
    assert(name_lt(arity_table()[262].0@, arity_table()[263].0@));
    assert(name_lt(arity_table()[263].0@, arity_table()[264].0@));
    assert(name_lt(arity_table()[264].0@, arity_table()[265].0@));
    assert(name_lt(arity_table()[265].0@, arity_table()[266].0@));
    assert(name_lt(arity_table()[266].0@, arity_table()[267].0@));
    assert(name_lt(arity_table()[267].0@, arity_table()[268].0@));
    assert(name_lt(arity_table()[268].0@, arity_table()[269].0@));
    assert(name_lt(arity_table()[269].0@, arity_table()[270].0@));
    assert(name_lt(arity_table()[270].0@, arity_table()[271].0@));
    assert(name_lt(arity_table()[271].0@, arity_table()[272].0@));
    assert(name_lt(arity_table()[272].0@, arity_table()[273].0@));
    assert(name_lt(arity_table()[273].0@, arity_table()[274].0@));
    assert(name_lt(arity_table()[274].0@, arity_table()[275].0@));
    assert forall|k: int| 250 <= k < 275 implies name_lt((#[trigger] arity_table()[k]).0@, arity_table()[k + 1].0@) by {
        if k == 250 {
        }        else if k == 251 {
        }        else if k == 252 {
        }        else if k == 253 {
        }        else if k == 254 {
        }        else if k == 255 {
        }        else if k == 256 {
        }        else if k == 257 {
        }        else if k == 258 {
        }        else if k == 259 {
        }        else if k == 260 {
        }        else if k == 261 {
        }        else if k == 262 {
        }        else if k == 263 {
        }        else if k == 264 {
        }        else if k == 265 {
        }        else if k == 266 {
        }        else if k == 267 {
        }        else if k == 268 {
        }        else if k == 269 {
        }        else if k == 270 {
        }        else if k == 271 {
        }        else if k == 272 {
        }        else if k == 273 {
        }        else if k == 274 {
        }
    }
}

proof fn lemma_arity_steps_275()
    ensures
        forall|k: int| 275 <= k < 300 ==> name_lt((#[trigger] arity_table()[k]).0@, arity_table()[k + 1].0@),
{
    reveal_with_fuel(name_lt, 20);
    reveal_strlit("ref.eq");
    reveal_strlit("ref.extern");
    reveal_strlit("ref.func");
    reveal_strlit("ref.i31");
    reveal_strlit("ref.is_null");
    reveal_strlit("ref.null");
    reveal_strlit("ref.test");
    reveal_strlit("rethrow");
    reveal_strlit("return");
    reveal_strlit("return_call");
    reveal_strlit("return_call_indirect");
    reveal_strlit("return_call_ref");
    reveal_strlit("select");
    reveal_strlit("struct.get");
    reveal_strlit("struct.get_s");
    reveal_strlit("struct.get_u");
    reveal_strlit("struct.new");
    reveal_strlit("struct.new_default");
    reveal_strlit("struct.set");
    reveal_strlit("table.copy");
    reveal_strlit("table.fill");
    reveal_strlit("table.get");
    reveal_strlit("table.grow");
    reveal_strlit("table.init");
    reveal_strlit("table.set");
    reveal_strlit("table.size");
    assert(name_lt(arity_table()[275].0@, arity_table()[276].0@));
    assert(name_lt(arity_table()[276].0@, arity_table()[277].0@));
    assert(name_lt(arity_table()[277].0@, arity_table()[278].0@));
    assert(name_lt(arity_table()[278].0@, arity_table()[279].0@));
    assert(name_lt(arity_table()[279].0@, arity_table()[280].0@));
    assert(name_lt(arity_table()[280].0@, arity_table()[281].0@));
    assert(name_lt(arity_table()[281].0@, arity_table()[282].0@));
    assert(name_lt(arity_table()[282].0@, arity_table()[283].0@));
    assert(name_lt(arity_table()[283].0@, arity_table()[284].0@));
    assert(name_lt(arity_table()[284].0@, arity_table()[285].0@));
    assert(name_lt(arity_table()[285].0@, arity_table()[286].0@));
    assert(name_lt(arity_table()[286].0@, arity_table()[287].0@));
    assert(name_lt(arity_table()[287].0@, arity_table()[288].0@));
    assert(name_lt(arity_table()[288].0@, arity_table()[289].0@));
    assert(name_lt(arity_table()[289].0@, arity_table()[290].0@));
    assert(name_lt(arity_table()[290].0@, arity_table()[291].0@));
    assert(name_lt(arity_table()[291].0@, arity_table()[292].0@));
    assert(name_lt(arity_table()[292].0@, arity_table()[293].0@));
    assert(name_lt(arity_table()[293].0@, arity_table()[294].0@));
    assert(name_lt(arity_table()[294].0@, arity_table()[295].0@));
    assert(name_lt(arity_table()[295].0@, arity_table()[296].0@));
    assert(name_lt(arity_table()[296].0@, arity_table()[297].0@));
    assert(name_lt(arity_table()[297].0@, arity_table()[298].0@));
    assert(name_lt(arity_table()[298].0@, arity_table()[299].0@));
    assert(name_lt(arity_table()[299].0@, arity_table()[300].0@));
    assert forall|k: int| 275 <= k < 300 implies name_lt((#[trigger] arity_table()[k]).0@, arity_table()[k + 1].0@) by {
        if k == 275 {
        }        else if k == 276 {
        }        else if k == 277 {
        }        else if k == 278 {
        }        else if k == 279 {
        }        else if k == 280 {
        }        else if k == 281 {
        }        else if k == 282 {
        }        else if k == 283 {
        }        else if k == 284 {
        }        else if k == 285 {
        }        else if k == 286 {
        }        else if k == 287 {
        }        else if k == 288 {
        }        else if k == 289 {
        }        else if k == 290 {
        }        else if k == 291 {
        }        else if k == 292 {
        }        else if k == 293 {
        }        else if k == 294 {
        }        else if k == 295 {
        }        else if k == 296 {
        }        else if k == 297 {
        }        else if k == 298 {
        }        else if k == 299 {
        }
    }
}

proof fn lemma_arity_steps_300()
    ensures
        forall|k: int| 300 <= k < 303 ==> name_lt((#[trigger] arity_table()[k]).0@, arity_table()[k + 1].0@),
{
    reveal_with_fuel(name_lt, 20);
    reveal_strlit("table.size");
    reveal_strlit("throw");
    reveal_strlit("throw_ref");
    reveal_strlit("unreachable");
    assert(name_lt(arity_table()[300].0@, arity_table()[301].0@));
    assert(name_lt(arity_table()[301].0@, arity_table()[302].0@));
    assert(name_lt(arity_table()[302].0@, arity_table()[303].0@));
    assert forall|k: int| 300 <= k < 303 implies name_lt((#[trigger] arity_table()[k]).0@, arity_table()[k + 1].0@) by {
        if k == 300 {
        }        else if k == 301 {
        }        else if k == 302 {
        }
    }
}

/// Each name of the arity table comes before the next one.
proof fn lemma_arity_steps()
    ensures
        forall|k: int| 0 <= k < arity_table().len() - 1 ==> name_lt(
            (#[trigger] arity_table()[k]).0@,
            arity_table()[k + 1].0@,
        ),
{
    assert(arity_table().len() == 304);
    assert forall|k: int| 0 <= k < arity_table().len() - 1 implies name_lt(
        (#[trigger] arity_table()[k]).0@,
        arity_table()[k + 1].0@,
    ) by {
        if k < 25 {
            lemma_arity_steps_0();
        }        else if k < 50 {
            lemma_arity_steps_25();
        }        else if k < 75 {
            lemma_arity_steps_50();
        }        else if k < 100 {
            lemma_arity_steps_75();
        }        else if k < 125 {
            lemma_arity_steps_100();
        }        else if k < 150 {
            lemma_arity_steps_125();
        }        else if k < 175 {
            lemma_arity_steps_150();
        }        else if k < 200 {
            lemma_arity_steps_175();
        }        else if k < 225 {
            lemma_arity_steps_200();
        }        else if k < 250 {
            lemma_arity_steps_225();
        }        else if k < 275 {
            lemma_arity_steps_250();
        }        else if k < 300 {
            lemma_arity_steps_275();
        }        else if k < 303 {
            lemma_arity_steps_300();
        }
    }
}

/// Names that each come before the next come each before every later one.
proof fn lemma_steps_to_pairs(rs: Seq<(&'static str, InstructionArity)>, a: int, b: int)
    requires
        forall|k: int| 0 <= k < rs.len() - 1 ==> name_lt((#[trigger] rs[k]).0@, rs[k + 1].0@),
        0 <= a < b < rs.len(),
    ensures
        name_lt(rs[a].0@, rs[b].0@),
    decreases b - a,
{
    if b > a + 1 {
        lemma_steps_to_pairs(rs, a, b - 1);
        assert(name_lt(rs[b - 1].0@, rs[b].0@));
        lemma_name_lt_transitive(rs[a].0@, rs[b - 1].0@, rs[b].0@);
    } else {
        assert(name_lt(rs[a].0@, rs[a + 1].0@));
    }
}

/// Sorting entries already in strict name order leaves them as they are.
proof fn lemma_sort_arities_of_sorted(rs: Seq<(&'static str, InstructionArity)>)
    requires
        forall|a: int, b: int| 0 <= a < b < rs.len() ==> name_lt(#[trigger] rs[a].0@, #[trigger] rs[b].0@),
    ensures
        sort_arities(rs) == rs,
    decreases rs.len(),
{
    if rs.len() > 0 {
        let p = rs.drop_last();
        assert forall|a: int, b: int| 0 <= a < b < p.len() implies name_lt(#[trigger] p[a].0@, #[trigger] p[b].0@) by {
            assert(p[a] == rs[a] && p[b] == rs[b]);
        }
        lemma_sort_arities_of_sorted(p);
        let x = rs.last();
        lemma_arity_insert_point(p, x, 0);
        let k = arity_insert_point(p, x, 0);
        if k < p.len() {
            assert(name_lt(x.0@, p[k].0@));
            assert(name_lt(rs[k].0@, rs[rs.len() - 1].0@));
            lemma_name_lt_transitive(x.0@, p[k].0@, x.0@);
            lemma_name_lt_irreflexive(x.0@);
        }
        assert(p.take(k).push(x) + p.skip(k) =~= rs);
    }
}

/// The arity table is written down in strict name order, so sorting it
/// changes nothing: the table that lookups search lists every instruction
/// once, each name before every later one (so no name twice), and every
/// entry allows at most as many immediates as its maximum.
pub proof fn law_arity_table_sorted()
    ensures
        sorted_arity_table() == arity_table(),
        forall|a: int, b: int|
            0 <= a < b < sorted_arity_table().len() ==> name_lt(
                #[trigger] sorted_arity_table()[a].0@,
                #[trigger] sorted_arity_table()[b].0@,
            ),
        forall|a: int, b: int|
            0 <= a < b < sorted_arity_table().len() ==> #[trigger] sorted_arity_table()[a].0@
                != #[trigger] sorted_arity_table()[b].0@,
        forall|i: int|
            0 <= i < sorted_arity_table().len() ==> (#[trigger] sorted_arity_table()[i]).1.min_params
                <= sorted_arity_table()[i].1.max_params,
{
    let t = arity_table();
    lemma_arity_steps();
    assert forall|a: int, b: int| 0 <= a < b < t.len() implies name_lt(#[trigger] t[a].0@, #[trigger] t[b].0@) by {
        lemma_steps_to_pairs(t, a, b);
    }
    lemma_sort_arities_of_sorted(t);
    assert forall|a: int, b: int| 0 <= a < b < t.len() implies #[trigger] t[a].0@ != #[trigger] t[b].0@ by {
        lemma_steps_to_pairs(t, a, b);
        lemma_name_lt_irreflexive(t[a].0@);
    }
    assert forall|i: int| 0 <= i < t.len() implies (#[trigger] t[i]).1.min_params <= t[i].1.max_params by {
        lemma_arity_range(i);
    }
}

/// Every entry of the arity table allows at most its maximum of immediates.
proof fn lemma_arity_range(i: int)
    requires
        0 <= i < arity_table().len(),
    ensures
        arity_table()[i].1.min_params <= arity_table()[i].1.max_params,
{
}

/// Looking up the name of any entry of the arity table gives that entry's
/// arity (names being distinct, no other entry can answer first).
pub proof fn law_lookup_finds_each_entry(i: int)
    requires
        0 <= i < arity_table().len(),
    ensures
        arity_lookup(sorted_arity_table(), arity_table()[i].0@) == Some(arity_table()[i].1),
{
    law_arity_table_sorted();
    let t = sorted_arity_table();
    let w = arity_table()[i].0@;
    lemma_arity_lookup(t, w);
    assert forall|j: int| 0 <= j < i implies #[trigger] t[j].0@ != w by {
        assert(t[j].0@ != t[i].0@);
    }
    assert(t[i] == arity_table()[i]);
}

} // verus!
