//! Comparison instructions: compare, conditional jump, and set-from-flags.
use vstd::prelude::*;
use crate::asm_symbols::{
    operand_arg, reg_arg, AsmGenError, AsmOperand, OperandV,
};
use crate::emit::{AsmLine, LineArg};
use crate::parse::{Identifier, SupportedBinaryOperators};
use crate::registers::{dst_scratch_reg, scratch_reg};

verus! {

/// The comparison a set-from-flags instruction materializes.
#[derive(Clone, Copy, Debug, PartialEq, Eq, Structural)]
pub enum ConditionalCompareTypes {
    Equal,
    NotEqual,
    GreaterThan,
    GreaterThanOrEqual,
    LessThan,
    LessThanOrEqual,
}

impl ConditionalCompareTypes {
    /// The comparison a relational binary operator stands for, if any.
    pub open spec fn convert_from_spec(op: SupportedBinaryOperators) -> Option<
        ConditionalCompareTypes,
    > {
        match op {
            SupportedBinaryOperators::CheckEqual => Some(ConditionalCompareTypes::Equal),
            SupportedBinaryOperators::NotEqual => Some(ConditionalCompareTypes::NotEqual),
            SupportedBinaryOperators::GreaterThan => Some(ConditionalCompareTypes::GreaterThan),
            SupportedBinaryOperators::GreaterOrEqual => Some(
                ConditionalCompareTypes::GreaterThanOrEqual,
            ),
            SupportedBinaryOperators::LessThan => Some(ConditionalCompareTypes::LessThan),
            SupportedBinaryOperators::LessOrEqual => Some(ConditionalCompareTypes::LessThanOrEqual),
            _ => None,
        }
    }

    pub fn convert_from(op: SupportedBinaryOperators) -> (r: Result<
        ConditionalCompareTypes,
        AsmGenError,
    >)
        ensures
            match r {
                Ok(c) => Self::convert_from_spec(op) == Some(c),
                Err(e) => Self::convert_from_spec(op) is None && e is UnsupportedInstruction,
            },
    {
        match op {
            SupportedBinaryOperators::CheckEqual => Ok(ConditionalCompareTypes::Equal),
            SupportedBinaryOperators::NotEqual => Ok(ConditionalCompareTypes::NotEqual),
            SupportedBinaryOperators::GreaterThan => Ok(ConditionalCompareTypes::GreaterThan),
            SupportedBinaryOperators::GreaterOrEqual => Ok(
                ConditionalCompareTypes::GreaterThanOrEqual,
            ),
            SupportedBinaryOperators::LessThan => Ok(ConditionalCompareTypes::LessThan),
            SupportedBinaryOperators::LessOrEqual => Ok(ConditionalCompareTypes::LessThanOrEqual),
            _ => Err(
                AsmGenError::UnsupportedInstruction(
                    String::from_str("unsupported comparison output operator"),
                ),
            ),
        }
    }
}

/// The mnemonic that materializes a comparison result.
pub open spec fn setcc_mnem(c: ConditionalCompareTypes) -> Seq<char> {
    match c {
        ConditionalCompareTypes::Equal => "sete"@,
        ConditionalCompareTypes::NotEqual => "setne"@,
        ConditionalCompareTypes::GreaterThan => "setg"@,
        ConditionalCompareTypes::GreaterThanOrEqual => "setge"@,
        ConditionalCompareTypes::LessThan => "setl"@,
        ConditionalCompareTypes::LessThanOrEqual => "setle"@,
    }
}

pub fn setcc_mnem_str(c: ConditionalCompareTypes) -> (s: &'static str)
    ensures
        s@ == setcc_mnem(c),
{
    match c {
        ConditionalCompareTypes::Equal => "sete",
        ConditionalCompareTypes::NotEqual => "setne",
        ConditionalCompareTypes::GreaterThan => "setg",
        ConditionalCompareTypes::GreaterThanOrEqual => "setge",
        ConditionalCompareTypes::LessThan => "setl",
        ConditionalCompareTypes::LessThanOrEqual => "setle",
    }
}

/// The legalized lines of a compare: two stack operands are routed through
/// the scratch register, and an immediate in comparison-target position is
/// routed through the second scratch register.
pub open spec fn cmp_lines(left: OperandV, right: OperandV) -> Seq<AsmLine> {
    if left is Stack && right is Stack {
        seq![
            AsmLine { mnem: "movl"@, args: seq![operand_arg(left), reg_arg(scratch_reg())] },
            AsmLine { mnem: "cmpl"@, args: seq![reg_arg(scratch_reg()), operand_arg(right)] },
        ]
    } else if right is Immediate {
        seq![
            AsmLine { mnem: "movl"@, args: seq![operand_arg(right), reg_arg(dst_scratch_reg())] },
            AsmLine { mnem: "cmpl"@, args: seq![operand_arg(left), reg_arg(dst_scratch_reg())] },
        ]
    } else {
        seq![AsmLine { mnem: "cmpl"@, args: seq![operand_arg(left), operand_arg(right)] }]
    }
}

/// The legalized line of a set-from-flags instruction.
pub open spec fn setcc_lines(condition: ConditionalCompareTypes, dst: OperandV) -> Seq<AsmLine> {
    seq![AsmLine { mnem: setcc_mnem(condition), args: seq![operand_arg(dst)] }]
}

/// Compares two operands and sets the machine flags.
#[derive(Debug)]
pub struct AsmCompareInstruction {
    pub left: AsmOperand,
    pub right: AsmOperand,
}

impl View for AsmCompareInstruction {
    type V = crate::asm_symbols::AsmInstrV;

    open spec fn view(&self) -> crate::asm_symbols::AsmInstrV {
        crate::asm_symbols::AsmInstrV::Compare { left: self.left@, right: self.right@ }
    }
}

impl AsmCompareInstruction {
    pub fn new(left: AsmOperand, right: AsmOperand) -> (r: AsmCompareInstruction)
        ensures
            r.left@ == left@,
            r.right@ == right@,
    {
        AsmCompareInstruction { left, right }
    }
}

impl Clone for AsmCompareInstruction {
    fn clone(&self) -> (r: Self)
        ensures
            r.left@ == self.left@,
            r.right@ == self.right@,
    {
        AsmCompareInstruction { left: self.left.clone(), right: self.right.clone() }
    }
}

/// Jumps to a label when the flags satisfy a comparison.
#[derive(Debug)]
pub struct AsmJumpConditionalInstruction {
    pub identifier: Identifier,
    pub condition: ConditionalCompareTypes,
}

impl AsmJumpConditionalInstruction {
    pub fn new(identifier: Identifier, condition: ConditionalCompareTypes) -> (r:
        AsmJumpConditionalInstruction)
        ensures
            r.identifier@ == identifier@,
            r.condition == condition,
    {
        AsmJumpConditionalInstruction { identifier, condition }
    }
}

/// Writes a comparison result into the low byte of its destination.
#[derive(Debug)]
pub struct AsmSetConditionalInstruction {
    pub destination: AsmOperand,
    pub condition: ConditionalCompareTypes,
}

impl View for AsmSetConditionalInstruction {
    type V = crate::asm_symbols::AsmInstrV;

    open spec fn view(&self) -> crate::asm_symbols::AsmInstrV {
        crate::asm_symbols::AsmInstrV::SetConditional {
            dst: self.destination@,
            condition: self.condition,
        }
    }
}

impl AsmSetConditionalInstruction {
    pub fn new(destination: AsmOperand, condition: ConditionalCompareTypes) -> (r:
        AsmSetConditionalInstruction)
        ensures
            r.destination@ == destination@,
            r.condition == condition,
    {
        AsmSetConditionalInstruction { destination, condition }
    }
}

impl Clone for AsmSetConditionalInstruction {
    fn clone(&self) -> (r: Self)
        ensures
            r.destination@ == self.destination@,
            r.condition == self.condition,
    {
        AsmSetConditionalInstruction {
            destination: self.destination.clone(),
            condition: self.condition,
        }
    }
}

impl crate::asm_symbols::AsmSymbol for AsmCompareInstruction {
    open spec fn render_req(&self) -> bool {
        true
    }

    open spec fn emits(&self) -> bool {
        crate::asm_symbols::operand_emits(self.left@) && crate::asm_symbols::operand_emits(
            self.right@,
        )
    }

    open spec fn asm_text(&self) -> Seq<char> {
        crate::emit::block_text(cmp_lines(self.left@, self.right@))
    }

    open spec fn err_shape(&self, e: &AsmGenError) -> bool {
        e is InvalidInstructionType
    }

    fn to_asm_code(self) -> (r: Result<String, AsmGenError>) {
        let ghost lv = self.left@;
        let ghost rv = self.right@;
        let is_left_stack_addr = self.left.is_stack_address();
        let is_right_stack_addr = self.right.is_stack_address();
        let is_right_constant = self.right.is_constant();

        let left_asm = match self.left.to_asm_code() {
            Ok(s) => s,
            Err(e) => {
                return Err(e);
            },
        };
        let right_asm = match self.right.to_asm_code() {
            Ok(s) => s,
            Err(e) => {
                return Err(e);
            },
        };

        if is_left_stack_addr && is_right_stack_addr {
            let mut asm_code = String::from_str("movl ");
            asm_code.append(left_asm.as_str());
            asm_code.append(", %r10d\n");
            asm_code.append("cmpl %r10d, ");
            asm_code.append(right_asm.as_str());
            proof {
                reveal_strlit("movl ");
                reveal_strlit("movl");
                reveal_strlit(" ");
                reveal_strlit(", ");
                reveal_strlit(", %r10d\n");
                reveal_strlit("%r10d");
                reveal_strlit("\n");
                reveal_strlit("cmpl %r10d, ");
                reveal_strlit("cmpl");
                crate::emit::lemma_block2(cmp_lines(lv, rv)[0], cmp_lines(lv, rv)[1]);
                assert(asm_code@ =~= crate::emit::block_text(cmp_lines(lv, rv)));
            }
            Ok(asm_code)
        } else if is_right_constant {
            let mut asm_code = String::from_str("movl ");
            asm_code.append(right_asm.as_str());
            asm_code.append(", %r11d\n");
            asm_code.append("cmpl ");
            asm_code.append(left_asm.as_str());
            asm_code.append(", %r11d");
            proof {
                reveal_strlit("movl ");
                reveal_strlit("movl");
                reveal_strlit(" ");
                reveal_strlit(", ");
                reveal_strlit(", %r11d\n");
                reveal_strlit(", %r11d");
                reveal_strlit("%r11d");
                reveal_strlit("\n");
                reveal_strlit("cmpl ");
                reveal_strlit("cmpl");
                crate::emit::lemma_block2(cmp_lines(lv, rv)[0], cmp_lines(lv, rv)[1]);
                assert(asm_code@ =~= crate::emit::block_text(cmp_lines(lv, rv)));
            }
            Ok(asm_code)
        } else {
            let mut asm_code = String::from_str("cmpl ");
            asm_code.append(left_asm.as_str());
            asm_code.append(", ");
            asm_code.append(right_asm.as_str());
            proof {
                reveal_strlit("cmpl ");
                reveal_strlit("cmpl");
                reveal_strlit(" ");
                reveal_strlit(", ");
                assert(asm_code@ =~= crate::emit::block_text(cmp_lines(lv, rv)));
            }
            Ok(asm_code)
        }
    }
}

impl crate::ledger::ToStackAllocated for AsmCompareInstruction {
    open spec fn alloc_result_view(&self, sv: nat, m: Map<u64, u64>) -> crate::asm_symbols::AsmInstrV {
        let t = crate::asm_symbols::alloc_two(self.left@, self.right@, sv, m);
        crate::asm_symbols::AsmInstrV::Compare { left: t.0, right: t.1 }
    }

    open spec fn alloc_new_sv(&self, sv: nat, m: Map<u64, u64>) -> nat {
        crate::asm_symbols::alloc_two(self.left@, self.right@, sv, m).2
    }

    open spec fn alloc_new_binds(&self, sv: nat, m: Map<u64, u64>) -> Map<u64, u64> {
        crate::asm_symbols::alloc_two(self.left@, self.right@, sv, m).3
    }

    fn to_stack_allocated<M: crate::ledger::DiffableHashMap>(
        &self,
        stack_value: u64,
        allocations: &M,
    ) -> (r: (Self, crate::ledger::StackAllocationResult)) {
        let (left, right, new_sv, changes) = crate::asm_symbols::alloc_pair(
            &self.left,
            &self.right,
            stack_value,
            allocations,
        );
        let new_instruction = AsmCompareInstruction { left, right };
        (
            new_instruction,
            crate::ledger::StackAllocationResult::new_with_allocations(new_sv, changes),
        )
    }
}

impl crate::asm_symbols::AsmSymbol for AsmSetConditionalInstruction {
    open spec fn render_req(&self) -> bool {
        true
    }

    open spec fn emits(&self) -> bool {
        crate::asm_symbols::operand_emits(self.destination@)
    }

    open spec fn asm_text(&self) -> Seq<char> {
        crate::emit::block_text(setcc_lines(self.condition, self.destination@))
    }

    open spec fn err_shape(&self, e: &AsmGenError) -> bool {
        e is InvalidInstructionType
    }

    fn to_asm_code(self) -> (r: Result<String, AsmGenError>) {
        let ghost cond = self.condition;
        let ghost dv = self.destination@;
        let dst_asm = match self.destination.to_asm_code() {
            Ok(s) => s,
            Err(e) => {
                return Err(e);
            },
        };
        let mut asm_code = String::from_str(setcc_mnem_str(self.condition));
        asm_code.append(" ");
        asm_code.append(dst_asm.as_str());
        proof {
            reveal_strlit(" ");
            assert(asm_code@ =~= crate::emit::block_text(setcc_lines(cond, dv)));
        }
        Ok(asm_code)
    }
}

impl crate::ledger::ToStackAllocated for AsmSetConditionalInstruction {
    open spec fn alloc_result_view(&self, sv: nat, m: Map<u64, u64>) -> crate::asm_symbols::AsmInstrV {
        crate::asm_symbols::AsmInstrV::SetConditional {
            dst: crate::asm_symbols::alloc_operand(self.destination@, sv, m).0,
            condition: self.condition,
        }
    }

    open spec fn alloc_new_sv(&self, sv: nat, m: Map<u64, u64>) -> nat {
        crate::asm_symbols::alloc_operand(self.destination@, sv, m).1
    }

    open spec fn alloc_new_binds(&self, sv: nat, m: Map<u64, u64>) -> Map<u64, u64> {
        crate::asm_symbols::alloc_operand(self.destination@, sv, m).2
    }

    fn to_stack_allocated<M: crate::ledger::DiffableHashMap>(
        &self,
        stack_value: u64,
        allocations: &M,
    ) -> (r: (Self, crate::ledger::StackAllocationResult)) {
        let (destination, alloc_result) = crate::ledger::ToStackAllocated::to_stack_allocated(
            &self.destination,
            stack_value,
            allocations,
        );
        let new_instruction = AsmSetConditionalInstruction {
            destination,
            condition: self.condition,
        };
        (new_instruction, alloc_result)
    }
}

} // verus!
