//! The integer-division step: dividend and outputs live in fixed registers,
//! and the hardware refuses an immediate divisor.
use vstd::prelude::*;
use crate::asm_symbols::{
    alloc_operand, operand_arg, operand_emits, reg_arg, AsmGenError, AsmInstrV, AsmOperand,
    AsmSymbol, OperandV,
};
use crate::emit::{block_text, lemma_block2, AsmLine};
use crate::ledger::{DiffableHashMap, StackAllocationResult, ToStackAllocated};
use crate::registers::scratch_reg;

verus! {

/// The legalized lines of a division step: an immediate divisor is routed
/// through the scratch register.
pub open spec fn idiv_lines(operand: OperandV) -> Seq<AsmLine> {
    if operand is Immediate {
        seq![
            AsmLine { mnem: "movl"@, args: seq![operand_arg(operand), reg_arg(scratch_reg())] },
            AsmLine { mnem: "idivl"@, args: seq![reg_arg(scratch_reg())] },
        ]
    } else {
        seq![AsmLine { mnem: "idivl"@, args: seq![operand_arg(operand)] }]
    }
}

/// Divides the implicit dividend registers by the operand.
#[derive(Debug)]
pub struct AsmIntegerDivision {
    pub operand: AsmOperand,
}

impl View for AsmIntegerDivision {
    type V = AsmInstrV;

    open spec fn view(&self) -> AsmInstrV {
        AsmInstrV::IntegerDivision { operand: self.operand@ }
    }
}

impl Clone for AsmIntegerDivision {
    fn clone(&self) -> (r: Self)
        ensures
            r@ == self@,
    {
        AsmIntegerDivision { operand: self.operand.clone() }
    }
}

impl AsmIntegerDivision {
    pub fn new(operand: AsmOperand) -> (r: AsmIntegerDivision)
        ensures
            r@ == (AsmInstrV::IntegerDivision { operand: operand@ }),
    {
        AsmIntegerDivision { operand }
    }
}

impl AsmSymbol for AsmIntegerDivision {
    open spec fn render_req(&self) -> bool {
        true
    }

    open spec fn emits(&self) -> bool {
        operand_emits(self.operand@)
    }

    open spec fn asm_text(&self) -> Seq<char> {
        block_text(idiv_lines(self.operand@))
    }

    open spec fn err_shape(&self, e: &AsmGenError) -> bool {
        e is InvalidInstructionType
    }

    fn to_asm_code(self) -> (r: Result<String, AsmGenError>) {
        let ghost ov = self.operand@;
        let is_constant = self.operand.is_constant();
        let operand_asm = match self.operand.to_asm_code() {
            Ok(s) => s,
            Err(e) => {
                return Err(e);
            },
        };
        if is_constant {
            let mut asm_code = String::from_str("movl ");
            asm_code.append(operand_asm.as_str());
            asm_code.append(", %r10d\n");
            asm_code.append("idivl %r10d");
            proof {
                reveal_strlit("movl ");
                reveal_strlit("movl");
                reveal_strlit(" ");
                reveal_strlit(", ");
                reveal_strlit(", %r10d\n");
                reveal_strlit("%r10d");
                reveal_strlit("\n");
                reveal_strlit("idivl %r10d");
                reveal_strlit("idivl");
                lemma_block2(idiv_lines(ov)[0], idiv_lines(ov)[1]);
                assert(asm_code@ =~= block_text(idiv_lines(ov)));
            }
            Ok(asm_code)
        } else {
            let mut asm_code = String::from_str("idivl ");
            asm_code.append(operand_asm.as_str());
            proof {
                reveal_strlit("idivl ");
                reveal_strlit("idivl");
                reveal_strlit(" ");
                assert(asm_code@ =~= block_text(idiv_lines(ov)));
            }
            Ok(asm_code)
        }
    }
}

impl ToStackAllocated for AsmIntegerDivision {
    open spec fn alloc_result_view(&self, sv: nat, m: Map<u64, u64>) -> AsmInstrV {
        AsmInstrV::IntegerDivision { operand: alloc_operand(self.operand@, sv, m).0 }
    }

    open spec fn alloc_new_sv(&self, sv: nat, m: Map<u64, u64>) -> nat {
        alloc_operand(self.operand@, sv, m).1
    }

    open spec fn alloc_new_binds(&self, sv: nat, m: Map<u64, u64>) -> Map<u64, u64> {
        alloc_operand(self.operand@, sv, m).2
    }

    fn to_stack_allocated<M: DiffableHashMap>(&self, stack_value: u64, allocations: &M) -> (r: (
        Self,
        StackAllocationResult,
    )) {
        let (operand, alloc_result) = self.operand.to_stack_allocated(stack_value, allocations);
        let new_instruction = AsmIntegerDivision { operand };
        (new_instruction, alloc_result)
    }
}

} // verus!
