//! Unary arithmetic instructions: negate and bitwise-not, applied in place.
use vstd::prelude::*;
use crate::asm_symbols::{
    alloc_operand, operand_arg, operand_emits, AsmGenError, AsmInstrV, AsmOperand, AsmSymbol,
    OperandV,
};
use crate::emit::{block_text, AsmLine};
use crate::ledger::{DiffableHashMap, StackAllocationResult, ToStackAllocated};
use crate::parse::SupportedUnaryOperators;

verus! {

/// Whether a unary operator has a hardware instruction.
pub open spec fn unary_op_emits(op: SupportedUnaryOperators) -> bool {
    op is Subtract || op is BitwiseNot
}

/// The mnemonic of a unary operator.
pub open spec fn unary_mnem(op: SupportedUnaryOperators) -> Seq<char> {
    match op {
        SupportedUnaryOperators::Subtract => "negl"@,
        SupportedUnaryOperators::BitwiseNot => "notl"@,
        SupportedUnaryOperators::Not => Seq::empty(),
    }
}

/// The legalized lines of a unary instruction.
pub open spec fn unary_lines(op: SupportedUnaryOperators, dst: OperandV) -> Seq<AsmLine> {
    seq![AsmLine { mnem: unary_mnem(op), args: seq![operand_arg(dst)] }]
}

/// Applies a unary operator to its destination in place.
#[derive(Debug)]
pub struct AsmUnaryInstruction {
    pub operator: SupportedUnaryOperators,
    pub destination: AsmOperand,
}

impl View for AsmUnaryInstruction {
    type V = AsmInstrV;

    open spec fn view(&self) -> AsmInstrV {
        AsmInstrV::Unary { operator: self.operator, dst: self.destination@ }
    }
}

impl Clone for AsmUnaryInstruction {
    fn clone(&self) -> (r: Self)
        ensures
            r@ == self@,
    {
        AsmUnaryInstruction { operator: self.operator, destination: self.destination.clone() }
    }
}

impl AsmUnaryInstruction {
    /// The mnemonic of a supported unary operator; the logical-not operator
    /// has no single hardware instruction and is refused.
    fn operator_to_asm_string(operator: SupportedUnaryOperators) -> (r: Result<
        &'static str,
        AsmGenError,
    >)
        ensures
            match r {
                Ok(s) => unary_op_emits(operator) && s@ == unary_mnem(operator),
                Err(e) => !unary_op_emits(operator) && e is UnsupportedInstruction,
            },
    {
        match operator {
            SupportedUnaryOperators::Subtract => Ok("negl"),
            SupportedUnaryOperators::BitwiseNot => Ok("notl"),
            SupportedUnaryOperators::Not => Err(
                AsmGenError::UnsupportedInstruction(
                    String::from_str("unsupported unary operator"),
                ),
            ),
        }
    }
}

impl AsmSymbol for AsmUnaryInstruction {
    open spec fn render_req(&self) -> bool {
        true
    }

    open spec fn emits(&self) -> bool {
        operand_emits(self.destination@) && unary_op_emits(self.operator)
    }

    open spec fn asm_text(&self) -> Seq<char> {
        block_text(unary_lines(self.operator, self.destination@))
    }

    open spec fn err_shape(&self, e: &AsmGenError) -> bool {
        if !operand_emits(self.destination@) {
            e is InvalidInstructionType
        } else {
            e is UnsupportedInstruction
        }
    }

    fn to_asm_code(self) -> (r: Result<String, AsmGenError>) {
        let ghost op = self.operator;
        let ghost dv = self.destination@;
        let operand_asm = match self.destination.to_asm_code() {
            Ok(s) => s,
            Err(e) => {
                return Err(e);
            },
        };
        let operator_asm = match Self::operator_to_asm_string(self.operator) {
            Ok(s) => s,
            Err(e) => {
                return Err(e);
            },
        };
        let mut asm_code = String::from_str(operator_asm);
        asm_code.append(" ");
        asm_code.append(operand_asm.as_str());
        proof {
            reveal_strlit(" ");
            assert(asm_code@ =~= block_text(unary_lines(op, dv)));
        }
        Ok(asm_code)
    }
}

impl ToStackAllocated for AsmUnaryInstruction {
    open spec fn alloc_result_view(&self, sv: nat, m: Map<u64, u64>) -> AsmInstrV {
        AsmInstrV::Unary { operator: self.operator, dst: alloc_operand(self.destination@, sv, m).0 }
    }

    open spec fn alloc_new_sv(&self, sv: nat, m: Map<u64, u64>) -> nat {
        alloc_operand(self.destination@, sv, m).1
    }

    open spec fn alloc_new_binds(&self, sv: nat, m: Map<u64, u64>) -> Map<u64, u64> {
        alloc_operand(self.destination@, sv, m).2
    }

    fn to_stack_allocated<M: DiffableHashMap>(&self, stack_value: u64, allocations: &M) -> (r: (
        Self,
        StackAllocationResult,
    )) {
        let (operand, alloc_result) = self.destination.to_stack_allocated(stack_value, allocations);
        let new_instruction = AsmUnaryInstruction { operator: self.operator, destination: operand };
        (new_instruction, alloc_result)
    }
}

} // verus!
