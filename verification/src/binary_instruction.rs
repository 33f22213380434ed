//! Direct binary arithmetic (add, subtract, multiply) and the choice between
//! the division outputs; multiplication is rewritten around its in-place
//! hardware semantics.
use vstd::prelude::*;
use crate::asm_symbols::{
    alloc_pair, alloc_two, operand_arg, operand_emits, reg_arg, AsmGenError, AsmInstrV, AsmOperand,
    AsmSymbol, OperandV,
};
use crate::emit::{block_text, AsmLine, LineArg};
use crate::ledger::{DiffableHashMap, StackAllocationResult, ToStackAllocated};
use crate::parse::SupportedBinaryOperators;
use crate::registers::{dst_scratch_reg, scratch_reg};

verus! {

/// A binary operation the target encodes as one in-place instruction.
#[derive(Clone, Copy, Debug, PartialEq, Eq, Structural)]
pub enum AsmDirectBinaryOperators {
    Add,
    Subtract,
    Multiply,
}

/// The mnemonic of a direct binary operator.
pub open spec fn bin_mnem(op: AsmDirectBinaryOperators) -> Seq<char> {
    match op {
        AsmDirectBinaryOperators::Add => "addl"@,
        AsmDirectBinaryOperators::Subtract => "subl"@,
        AsmDirectBinaryOperators::Multiply => "imull"@,
    }
}

impl AsmDirectBinaryOperators {
    pub fn to_asm_string(&self) -> (r: String)
        ensures
            r@ == bin_mnem(*self),
    {
        match self {
            AsmDirectBinaryOperators::Add => String::from_str("addl"),
            AsmDirectBinaryOperators::Subtract => String::from_str("subl"),
            AsmDirectBinaryOperators::Multiply => String::from_str("imull"),
        }
    }

    /// The direct operator an IR binary operator stands for, if any.
    pub open spec fn from_supported_spec(op: SupportedBinaryOperators) -> Option<
        AsmDirectBinaryOperators,
    > {
        match op {
            SupportedBinaryOperators::Add => Some(AsmDirectBinaryOperators::Add),
            SupportedBinaryOperators::Subtract => Some(AsmDirectBinaryOperators::Subtract),
            SupportedBinaryOperators::Multiply => Some(AsmDirectBinaryOperators::Multiply),
            _ => None,
        }
    }

    pub fn from_supported(op: SupportedBinaryOperators) -> (r: Result<
        AsmDirectBinaryOperators,
        AsmGenError,
    >)
        ensures
            match r {
                Ok(b) => Self::from_supported_spec(op) == Some(b),
                Err(e) => Self::from_supported_spec(op) is None && e is UnsupportedInstruction,
            },
    {
        match op {
            SupportedBinaryOperators::Add => Ok(AsmDirectBinaryOperators::Add),
            SupportedBinaryOperators::Subtract => Ok(AsmDirectBinaryOperators::Subtract),
            SupportedBinaryOperators::Multiply => Ok(AsmDirectBinaryOperators::Multiply),
            _ => Err(
                AsmGenError::UnsupportedInstruction(
                    String::from_str("unsupported binary operator"),
                ),
            ),
        }
    }
}

/// Which output of the hardware division an IR operator wants.
#[derive(Clone, Copy, Debug, PartialEq, Eq, Structural)]
pub enum DivisionOutputs {
    Quotient,
    Remainder,
}

impl DivisionOutputs {
    /// The division output an IR binary operator stands for, if any.
    pub open spec fn from_binary_operator_spec(op: SupportedBinaryOperators) -> Option<
        DivisionOutputs,
    > {
        match op {
            SupportedBinaryOperators::Divide => Some(DivisionOutputs::Quotient),
            SupportedBinaryOperators::Modulo => Some(DivisionOutputs::Remainder),
            _ => None,
        }
    }

    pub fn from_binary_operator(op: SupportedBinaryOperators) -> (r: Result<
        DivisionOutputs,
        AsmGenError,
    >)
        ensures
            match r {
                Ok(d) => Self::from_binary_operator_spec(op) == Some(d),
                Err(e) => Self::from_binary_operator_spec(op) is None && e
                    is UnsupportedInstruction,
            },
    {
        match op {
            SupportedBinaryOperators::Divide => Ok(DivisionOutputs::Quotient),
            SupportedBinaryOperators::Modulo => Ok(DivisionOutputs::Remainder),
            _ => Err(
                AsmGenError::UnsupportedInstruction(
                    String::from_str("unsupported division output operator"),
                ),
            ),
        }
    }
}

/// The rewrite of an in-place multiply: the destination is loaded into the
/// second scratch register, multiplied there, and written back.
pub open spec fn mul_lines(src_arg: LineArg, dst: OperandV) -> Seq<AsmLine> {
    seq![
        AsmLine { mnem: "movl"@, args: seq![operand_arg(dst), reg_arg(dst_scratch_reg())] },
        AsmLine { mnem: "imull"@, args: seq![src_arg, reg_arg(dst_scratch_reg())] },
        AsmLine { mnem: "movl"@, args: seq![reg_arg(dst_scratch_reg()), operand_arg(dst)] },
    ]
}

/// The legalized lines of a direct binary instruction: two stack operands are
/// split by routing the source through the scratch register, and a multiply
/// always runs in the second scratch register.
pub open spec fn binary_lines(
    op: AsmDirectBinaryOperators,
    src: OperandV,
    dst: OperandV,
) -> Seq<AsmLine> {
    if src is Stack && dst is Stack {
        if op is Multiply {
            seq![AsmLine { mnem: "movl"@, args: seq![operand_arg(src), reg_arg(scratch_reg())] }]
                + mul_lines(reg_arg(scratch_reg()), dst)
        } else {
            seq![
                AsmLine { mnem: "movl"@, args: seq![operand_arg(src), reg_arg(scratch_reg())] },
                AsmLine { mnem: bin_mnem(op), args: seq![reg_arg(scratch_reg()), operand_arg(dst)] },
            ]
        }
    } else {
        if op is Multiply {
            mul_lines(operand_arg(src), dst)
        } else {
            seq![AsmLine { mnem: bin_mnem(op), args: seq![operand_arg(src), operand_arg(dst)] }]
        }
    }
}

/// The in-place multiply rewrite as text.
fn generate_multiply_asm(src_asm: &str, dst_asm: &str) -> (r: String)
    ensures
        r@ == "movl "@ + dst_asm@ + ", %r11d\n"@ + "imull "@ + src_asm@ + ", %r11d\n"@
            + "movl %r11d, "@ + dst_asm@,
{
    let mut asm_code = String::from_str("movl ");
    asm_code.append(dst_asm);
    asm_code.append(", %r11d\n");
    asm_code.append("imull ");
    asm_code.append(src_asm);
    asm_code.append(", %r11d\n");
    asm_code.append("movl %r11d, ");
    asm_code.append(dst_asm);
    proof {
        assert(asm_code@ =~= "movl "@ + dst_asm@ + ", %r11d\n"@ + "imull "@ + src_asm@
            + ", %r11d\n"@ + "movl %r11d, "@ + dst_asm@);
    }
    asm_code
}

/// The text of the multiply rewrite matches its line model.
proof fn lemma_mul_text(src_arg: LineArg, dst: OperandV)
    ensures
        block_text(mul_lines(src_arg, dst)) =~= "movl "@ + operand_arg(dst).text + ", %r11d\n"@
            + "imull "@ + src_arg.text + ", %r11d\n"@ + "movl %r11d, "@ + operand_arg(dst).text,
{
    reveal_strlit("movl ");
    reveal_strlit("movl");
    reveal_strlit("imull ");
    reveal_strlit("imull");
    reveal_strlit(" ");
    reveal_strlit(", ");
    reveal_strlit(", %r11d\n");
    reveal_strlit("%r11d");
    reveal_strlit("\n");
    reveal_strlit("movl %r11d, ");
    crate::emit::lemma_block3(
        mul_lines(src_arg, dst)[0],
        mul_lines(src_arg, dst)[1],
        mul_lines(src_arg, dst)[2],
    );
}

/// The expansion of an IR division or modulo: the dividend moves into the
/// accumulator, is sign-extended, the division runs, and the wanted output
/// register moves into the destination.
pub open spec fn divide_instrs(
    left: OperandV,
    right: OperandV,
    dst: OperandV,
    desired_output: DivisionOutputs,
) -> Seq<AsmInstrV> {
    let output_register = match desired_output {
        DivisionOutputs::Quotient => crate::registers::Register::EAX,
        DivisionOutputs::Remainder => crate::registers::Register::EDX,
    };
    seq![
        AsmInstrV::Mov { src: left, dst: OperandV::Register(crate::registers::Register::EAX) },
        AsmInstrV::SignExtension,
        AsmInstrV::IntegerDivision { operand: right },
        AsmInstrV::Mov { src: OperandV::Register(output_register), dst },
    ]
}

/// The expansion of an IR relational comparison: compare, clear every bit of
/// the destination, then set it from the flags (the set instruction writes
/// only the low byte).
pub open spec fn comparison_instrs(
    left: OperandV,
    right: OperandV,
    dst: OperandV,
    comparison_flag: crate::cmp_instruction::ConditionalCompareTypes,
) -> Seq<AsmInstrV> {
    seq![
        AsmInstrV::Compare { left: right, right: left },
        AsmInstrV::Mov {
            src: OperandV::Immediate(
                crate::asm_symbols::ImmV { value: 0, provs: Seq::empty() },
            ),
            dst,
        },
        AsmInstrV::SetConditional { dst, condition: comparison_flag },
    ]
}

/// The expansion of an IR direct binary operation: move the left operand into
/// the destination, then apply the operator in place with the right operand.
pub open spec fn direct_binary_instrs(
    operator: AsmDirectBinaryOperators,
    left: OperandV,
    right: OperandV,
    dst: OperandV,
) -> Seq<AsmInstrV> {
    seq![
        AsmInstrV::Mov { src: left, dst },
        AsmInstrV::Binary { operator, src: right, dst },
    ]
}

/// The expansion of any IR binary instruction, by operator kind.
pub open spec fn select_binary(
    operator: crate::parse::SupportedBinaryOperators,
    left: crate::tacky::TackyValueV,
    right: crate::tacky::TackyValueV,
    dst: crate::tacky::TackyVarV,
) -> Seq<AsmInstrV> {
    let l = crate::asm_symbols::operand_of_tacky(left);
    let r = crate::asm_symbols::operand_of_tacky(right);
    let d = OperandV::Pseudo(crate::asm_symbols::PseudoRegister::of_tacky_var(dst));
    if DivisionOutputs::from_binary_operator_spec(operator) is Some {
        divide_instrs(l, r, d, DivisionOutputs::from_binary_operator_spec(operator).unwrap())
    } else if crate::cmp_instruction::ConditionalCompareTypes::convert_from_spec(operator)
        is Some {
        comparison_instrs(
            l,
            r,
            d,
            crate::cmp_instruction::ConditionalCompareTypes::convert_from_spec(operator).unwrap(),
        )
    } else if AsmDirectBinaryOperators::from_supported_spec(operator) is Some {
        direct_binary_instrs(AsmDirectBinaryOperators::from_supported_spec(operator).unwrap(), l, r, d)
    } else {
        Seq::empty()
    }
}

/// Applies a direct binary operator: `destination := destination op source`.
#[derive(Debug)]
pub struct AsmBinaryInstruction {
    pub operator: AsmDirectBinaryOperators,
    pub source: AsmOperand,
    pub destination: AsmOperand,
}

impl View for AsmBinaryInstruction {
    type V = AsmInstrV;

    open spec fn view(&self) -> AsmInstrV {
        AsmInstrV::Binary { operator: self.operator, src: self.source@, dst: self.destination@ }
    }
}

impl Clone for AsmBinaryInstruction {
    fn clone(&self) -> (r: Self)
        ensures
            r@ == self@,
    {
        AsmBinaryInstruction {
            operator: self.operator,
            source: self.source.clone(),
            destination: self.destination.clone(),
        }
    }
}

impl AsmSymbol for AsmBinaryInstruction {
    open spec fn render_req(&self) -> bool {
        true
    }

    open spec fn emits(&self) -> bool {
        operand_emits(self.source@) && operand_emits(self.destination@)
    }

    open spec fn asm_text(&self) -> Seq<char> {
        block_text(binary_lines(self.operator, self.source@, self.destination@))
    }

    open spec fn err_shape(&self, e: &AsmGenError) -> bool {
        e is InvalidInstructionType
    }

    fn to_asm_code(self) -> (r: Result<String, AsmGenError>) {
        let ghost op = self.operator;
        let ghost sv = self.source@;
        let ghost dv = self.destination@;
        let operator_asm = self.operator.to_asm_string();
        let is_src_stack_addr = self.source.is_stack_address();
        let is_multiply = match self.operator {
            AsmDirectBinaryOperators::Multiply => true,
            _ => false,
        };
        let src_asm = match self.source.to_asm_code() {
            Ok(s) => s,
            Err(e) => {
                return Err(e);
            },
        };
        let is_dst_stack_addr = self.destination.is_stack_address();
        let dst_asm = match self.destination.to_asm_code() {
            Ok(s) => s,
            Err(e) => {
                return Err(e);
            },
        };

        if is_src_stack_addr && is_dst_stack_addr {
            let mut asm_code = String::from_str("movl ");
            asm_code.append(src_asm.as_str());
            asm_code.append(", %r10d\n");

            if is_multiply {
                asm_code.append(generate_multiply_asm("%r10d", dst_asm.as_str()).as_str());
                proof {
                    reveal_strlit("movl ");
                    reveal_strlit("movl");
                    reveal_strlit(" ");
                    reveal_strlit(", ");
                    reveal_strlit(", %r10d\n");
                    reveal_strlit("%r10d");
                    reveal_strlit("\n");
                    lemma_mul_text(reg_arg(scratch_reg()), dv);
                    let lines = binary_lines(op, sv, dv);
                    assert(lines.drop_first() =~= mul_lines(reg_arg(scratch_reg()), dv));
                    assert(block_text(lines) == lines[0].text() + "\n"@ + block_text(
                        lines.drop_first(),
                    ));
                    assert(asm_code@ =~= block_text(binary_lines(op, sv, dv)));
                }
                Ok(asm_code)
            } else {
                asm_code.append(operator_asm.as_str());
                asm_code.append(" %r10d, ");
                asm_code.append(dst_asm.as_str());
                proof {
                    reveal_strlit("movl ");
                    reveal_strlit("movl");
                    reveal_strlit(" ");
                    reveal_strlit(", ");
                    reveal_strlit(", %r10d\n");
                    reveal_strlit("%r10d");
                    reveal_strlit("\n");
                    reveal_strlit(" %r10d, ");
                    crate::emit::lemma_block2(
                        binary_lines(op, sv, dv)[0],
                        binary_lines(op, sv, dv)[1],
                    );
                    assert(asm_code@ =~= block_text(binary_lines(op, sv, dv)));
                }
                Ok(asm_code)
            }
        } else {
            if is_multiply {
                let asm_code = generate_multiply_asm(src_asm.as_str(), dst_asm.as_str());
                proof {
                    lemma_mul_text(operand_arg(sv), dv);
                    assert(asm_code@ =~= block_text(binary_lines(op, sv, dv)));
                }
                Ok(asm_code)
            } else {
                let mut asm_code = operator_asm;
                asm_code.append(" ");
                asm_code.append(src_asm.as_str());
                asm_code.append(", ");
                asm_code.append(dst_asm.as_str());
                proof {
                    reveal_strlit(" ");
                    reveal_strlit(", ");
                    assert(asm_code@ =~= block_text(binary_lines(op, sv, dv)));
                }
                Ok(asm_code)
            }
        }
    }
}

impl AsmBinaryInstruction {
    /// Expands an IR division or modulo into the four-step hardware sequence.
    pub fn build_divide_instructions(
        left_operand: AsmOperand,
        right_operand: AsmOperand,
        dst_operand: AsmOperand,
        desired_output: DivisionOutputs,
    ) -> (r: Vec<crate::asm_symbols::AsmInstruction>)
        ensures
            crate::asm_symbols::views_of_instrs(r@) == divide_instrs(
                left_operand@,
                right_operand@,
                dst_operand@,
                desired_output,
            ),
    {
        let move_into_instruction = crate::mov_instruction::MovInstruction::new(
            left_operand.clone(),
            AsmOperand::Register(crate::registers::Register::EAX),
        );
        let output_register = match desired_output {
            DivisionOutputs::Quotient => AsmOperand::Register(crate::registers::Register::EAX),
            DivisionOutputs::Remainder => AsmOperand::Register(crate::registers::Register::EDX),
        };
        let move_out_instruction = crate::mov_instruction::MovInstruction::new(
            output_register,
            dst_operand.clone(),
        );
        let mut r: Vec<crate::asm_symbols::AsmInstruction> = Vec::new();
        r.push(crate::asm_symbols::AsmInstruction::Mov(move_into_instruction));
        r.push(crate::asm_symbols::AsmInstruction::SignExtension);
        r.push(
            crate::asm_symbols::AsmInstruction::IntegerDivision(
                crate::integer_division::AsmIntegerDivision::new(right_operand.clone()),
            ),
        );
        r.push(crate::asm_symbols::AsmInstruction::Mov(move_out_instruction));
        proof {
            assert(crate::asm_symbols::views_of_instrs(r@) =~= divide_instrs(
                left_operand@,
                right_operand@,
                dst_operand@,
                desired_output,
            ));
        }
        r
    }

    /// Expands an IR relational comparison into compare, clear, set-from-flags.
    pub fn build_comparison_instructions(
        left_operand: AsmOperand,
        right_operand: AsmOperand,
        dst_operand: AsmOperand,
        comparison_flag: crate::cmp_instruction::ConditionalCompareTypes,
    ) -> (r: Vec<crate::asm_symbols::AsmInstruction>)
        ensures
            crate::asm_symbols::views_of_instrs(r@) == comparison_instrs(
                left_operand@,
                right_operand@,
                dst_operand@,
                comparison_flag,
            ),
    {
        let cmp_instruction = crate::asm_symbols::AsmInstruction::Compare(
            crate::cmp_instruction::AsmCompareInstruction::new(right_operand, left_operand),
        );
        let clear_dst_instruction = crate::mov_instruction::MovInstruction::new(
            AsmOperand::ImmediateValue(crate::asm_symbols::AsmImmediateValue::new(0)),
            dst_operand.clone(),
        );
        let set_cc_instruction = crate::asm_symbols::AsmInstruction::SetConditional(
            crate::cmp_instruction::AsmSetConditionalInstruction::new(dst_operand, comparison_flag),
        );
        let mut r: Vec<crate::asm_symbols::AsmInstruction> = Vec::new();
        r.push(cmp_instruction);
        r.push(crate::asm_symbols::AsmInstruction::Mov(clear_dst_instruction));
        r.push(set_cc_instruction);
        proof {
            assert(crate::asm_symbols::views_of_instrs(r@) =~= comparison_instrs(
                left_operand@,
                right_operand@,
                dst_operand@,
                comparison_flag,
            ));
        }
        r
    }

    /// Expands one IR binary instruction, choosing among the division,
    /// comparison, and direct forms; an operator with none of those forms is
    /// an unsupported construct.
    pub fn unpack_from_tacky(binary_instruction: crate::tacky::BinaryInstruction) -> (r: Result<
        Vec<crate::asm_symbols::AsmInstruction>,
        AsmGenError,
    >)
        requires
            crate::asm_symbols::tacky_value_ok(binary_instruction.left@),
            crate::asm_symbols::tacky_value_ok(binary_instruction.right@),
        ensures
            match r {
                Ok(instrs) => select_binary(
                    binary_instruction.operator,
                    binary_instruction.left@,
                    binary_instruction.right@,
                    binary_instruction.dst@,
                ) == crate::asm_symbols::views_of_instrs(instrs@) && crate::asm_symbols::instr_selectable(
                    binary_instruction@,
                ),
                Err(e) => !crate::asm_symbols::instr_selectable(binary_instruction@) && e
                    is UnsupportedInstruction,
            },
    {
        let operator = binary_instruction.operator;
        let left_operand = crate::asm_symbols::AsmOperand::from_tacky_value(
            binary_instruction.left,
        );
        let right_operand = crate::asm_symbols::AsmOperand::from_tacky_value(
            binary_instruction.right,
        );
        let dst_operand = crate::asm_symbols::AsmOperand::Pseudo(
            crate::asm_symbols::PseudoRegister::from_tacky_var(binary_instruction.dst),
        );

        match DivisionOutputs::from_binary_operator(operator) {
            Ok(division_operator) => {
                return Ok(
                    Self::build_divide_instructions(
                        left_operand,
                        right_operand,
                        dst_operand,
                        division_operator,
                    ),
                );
            },
            _ => {},
        }

        match crate::cmp_instruction::ConditionalCompareTypes::convert_from(operator) {
            Ok(comparison_operator) => {
                return Ok(
                    Self::build_comparison_instructions(
                        left_operand,
                        right_operand,
                        dst_operand,
                        comparison_operator,
                    ),
                );
            },
            _ => {},
        }

        let asm_binary_operator = match AsmDirectBinaryOperators::from_supported(operator) {
            Ok(op) => op,
            Err(e) => {
                return Err(e);
            },
        };
        let asm_mov_instruction = crate::mov_instruction::MovInstruction::new(
            left_operand,
            dst_operand.clone(),
        );
        let asm_binary_instruction = AsmBinaryInstruction {
            operator: asm_binary_operator,
            source: right_operand,
            destination: dst_operand,
        };
        let mut r: Vec<crate::asm_symbols::AsmInstruction> = Vec::new();
        r.push(crate::asm_symbols::AsmInstruction::Mov(asm_mov_instruction));
        r.push(crate::asm_symbols::AsmInstruction::Binary(asm_binary_instruction));
        proof {
            assert(crate::asm_symbols::views_of_instrs(r@) =~= select_binary(
                binary_instruction.operator,
                binary_instruction.left@,
                binary_instruction.right@,
                binary_instruction.dst@,
            ));
        }
        Ok(r)
    }
}

impl ToStackAllocated for AsmBinaryInstruction {
    open spec fn alloc_result_view(&self, sv: nat, m: Map<u64, u64>) -> AsmInstrV {
        let t = alloc_two(self.source@, self.destination@, sv, m);
        AsmInstrV::Binary { operator: self.operator, src: t.0, dst: t.1 }
    }

    open spec fn alloc_new_sv(&self, sv: nat, m: Map<u64, u64>) -> nat {
        alloc_two(self.source@, self.destination@, sv, m).2
    }

    open spec fn alloc_new_binds(&self, sv: nat, m: Map<u64, u64>) -> Map<u64, u64> {
        alloc_two(self.source@, self.destination@, sv, m).3
    }

    fn to_stack_allocated<M: DiffableHashMap>(&self, stack_value: u64, allocations: &M) -> (r: (
        Self,
        StackAllocationResult,
    )) {
        let (source, destination, new_sv, changes) = alloc_pair(
            &self.source,
            &self.destination,
            stack_value,
            allocations,
        );
        let new_instruction = AsmBinaryInstruction { operator: self.operator, source, destination };
        (new_instruction, StackAllocationResult::new_with_allocations(new_sv, changes))
    }
}

} // verus!
