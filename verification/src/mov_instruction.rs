//! The move instruction and its legalization: the target cannot move memory
//! to memory, nor an immediate to memory, in one step.
use vstd::prelude::*;
use crate::asm_symbols::{
    alloc_pair, alloc_two, operand_arg, operand_emits, reg_arg, AsmGenError, AsmInstrV, AsmOperand,
    AsmSymbol, OperandV,
};
use crate::emit::{block_text, lemma_block2, AsmLine};
use crate::ledger::{DiffableHashMap, StackAllocationResult, ToStackAllocated};
use crate::registers::scratch_reg;

verus! {

/// The legalized lines of a move: a stack-or-immediate source bound for a
/// stack destination is routed through the scratch register.
pub open spec fn mov_lines(src: OperandV, dst: OperandV) -> Seq<AsmLine> {
    if (src is Stack || src is Immediate) && dst is Stack {
        seq![
            AsmLine { mnem: "movl"@, args: seq![operand_arg(src), reg_arg(scratch_reg())] },
            AsmLine { mnem: "movl"@, args: seq![reg_arg(scratch_reg()), operand_arg(dst)] },
        ]
    } else {
        seq![AsmLine { mnem: "mov"@, args: seq![operand_arg(src), operand_arg(dst)] }]
    }
}

/// Copies the source operand into the destination operand.
#[derive(Debug)]
pub struct MovInstruction {
    pub source: AsmOperand,
    pub destination: AsmOperand,
}

impl View for MovInstruction {
    type V = AsmInstrV;

    open spec fn view(&self) -> AsmInstrV {
        AsmInstrV::Mov { src: self.source@, dst: self.destination@ }
    }
}

impl Clone for MovInstruction {
    fn clone(&self) -> (r: Self)
        ensures
            r@ == self@,
    {
        MovInstruction { source: self.source.clone(), destination: self.destination.clone() }
    }
}

impl MovInstruction {
    pub fn new(source: AsmOperand, destination: AsmOperand) -> (r: MovInstruction)
        ensures
            r@ == (AsmInstrV::Mov { src: source@, dst: destination@ }),
    {
        MovInstruction { source, destination }
    }
}

impl AsmSymbol for MovInstruction {
    open spec fn render_req(&self) -> bool {
        true
    }

    open spec fn emits(&self) -> bool {
        operand_emits(self.source@) && operand_emits(self.destination@)
    }

    open spec fn asm_text(&self) -> Seq<char> {
        block_text(mov_lines(self.source@, self.destination@))
    }

    open spec fn err_shape(&self, e: &AsmGenError) -> bool {
        e is InvalidInstructionType
    }

    fn to_asm_code(self) -> (r: Result<String, AsmGenError>) {
        let ghost sv = self.source@;
        let ghost dv = self.destination@;
        let is_src_stack_addr = self.source.is_stack_address();
        let is_src_constant = self.source.is_constant();
        let is_dst_stack_addr = self.destination.is_stack_address();

        let src_asm = match self.source.to_asm_code() {
            Ok(s) => s,
            Err(e) => {
                return Err(e);
            },
        };
        let dst_asm = match self.destination.to_asm_code() {
            Ok(s) => s,
            Err(e) => {
                return Err(e);
            },
        };

        if (is_src_stack_addr || is_src_constant) && is_dst_stack_addr {
            let mut asm_code = String::from_str("movl ");
            asm_code.append(src_asm.as_str());
            asm_code.append(", %r10d\n");
            asm_code.append("movl %r10d, ");
            asm_code.append(dst_asm.as_str());
            proof {
                reveal_strlit("movl ");
                reveal_strlit("movl");
                reveal_strlit(" ");
                reveal_strlit(", ");
                reveal_strlit(", %r10d\n");
                reveal_strlit("%r10d");
                reveal_strlit("\n");
                reveal_strlit("movl %r10d, ");
                lemma_block2(mov_lines(sv, dv)[0], mov_lines(sv, dv)[1]);
                assert(asm_code@ =~= block_text(mov_lines(sv, dv)));
            }
            Ok(asm_code)
        } else {
            let mut asm_code = String::from_str("mov ");
            asm_code.append(src_asm.as_str());
            asm_code.append(", ");
            asm_code.append(dst_asm.as_str());
            proof {
                reveal_strlit("mov ");
                reveal_strlit("mov");
                reveal_strlit(" ");
                reveal_strlit(", ");
                assert(asm_code@ =~= block_text(mov_lines(sv, dv)));
            }
            Ok(asm_code)
        }
    }
}

impl ToStackAllocated for MovInstruction {
    open spec fn alloc_result_view(&self, sv: nat, m: Map<u64, u64>) -> AsmInstrV {
        let t = alloc_two(self.source@, self.destination@, sv, m);
        AsmInstrV::Mov { src: t.0, dst: t.1 }
    }

    open spec fn alloc_new_sv(&self, sv: nat, m: Map<u64, u64>) -> nat {
        alloc_two(self.source@, self.destination@, sv, m).2
    }

    open spec fn alloc_new_binds(&self, sv: nat, m: Map<u64, u64>) -> Map<u64, u64> {
        alloc_two(self.source@, self.destination@, sv, m).3
    }

    fn to_stack_allocated<M: DiffableHashMap>(&self, stack_value: u64, allocations: &M) -> (r: (
        Self,
        StackAllocationResult,
    )) {
        let (source, destination, new_sv, changes) = alloc_pair(
            &self.source,
            &self.destination,
            stack_value,
            allocations,
        );
        let new_instruction = MovInstruction { source, destination };
        (new_instruction, StackAllocationResult::new_with_allocations(new_sv, changes))
    }
}

} // verus!
