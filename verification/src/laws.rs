//! The load-bearing guarantees of the backend, stated and proved over the
//! allocation and legalization models: the allocation pass binds every
//! pseudo-register exactly once to its own slot-aligned offset, a second run
//! changes nothing, and no legalized line touches memory twice.
use vstd::prelude::*;
use crate::asm_symbols::{
    alloc_instr, alloc_instr_list, alloc_operand, alloc_two, instr_lines, AsmInstrV, OperandV,
};
use crate::binary_instruction::AsmDirectBinaryOperators;
use crate::emit::AsmLine;

verus! {

/// The pseudo-register ids an operand mentions.
pub open spec fn pseudo_ids_op(v: OperandV) -> Set<u64> {
    match v {
        OperandV::Pseudo(p) => Set::empty().insert(p.id),
        _ => Set::empty(),
    }
}

/// The pseudo-register ids an instruction mentions.
pub open spec fn pseudo_ids_instr(i: AsmInstrV) -> Set<u64> {
    match i {
        AsmInstrV::Mov { src, dst } => pseudo_ids_op(src).union(pseudo_ids_op(dst)),
        AsmInstrV::Unary { operator, dst } => pseudo_ids_op(dst),
        AsmInstrV::Binary { operator, src, dst } => pseudo_ids_op(src).union(pseudo_ids_op(dst)),
        AsmInstrV::Compare { left, right } => pseudo_ids_op(left).union(pseudo_ids_op(right)),
        AsmInstrV::SetConditional { dst, condition } => pseudo_ids_op(dst),
        AsmInstrV::IntegerDivision { operand } => pseudo_ids_op(operand),
        _ => Set::empty(),
    }
}

/// The pseudo-register ids an instruction list mentions.
pub open spec fn pseudo_ids_list(s: Seq<AsmInstrV>) -> Set<u64>
    decreases s.len(),
{
    if s.len() == 0 {
        Set::empty()
    } else {
        pseudo_ids_list(s.drop_last()).union(pseudo_ids_instr(s.last()))
    }
}

/// A well-formed intermediate ledger: every bound offset lies below the next
/// free offset, is slot-aligned, and no two ids share an offset.
pub open spec fn ledger_ok(m: Map<u64, u64>, sv: nat) -> bool {
    &&& forall|k: u64| #[trigger] m.contains_key(k) ==> (m[k] as nat) < sv && m[k] % 4 == 0
    &&& forall|k1: u64, k2: u64|
        m.contains_key(k1) && m.contains_key(k2) && k1 != k2 ==> #[trigger] m[k1] != #[trigger] m[k2]
}

/// One operand-level step keeps the ledger well formed, stays slot-aligned,
/// and binds exactly the new pseudo-register ids.
proof fn lemma_alloc_operand_props(v: OperandV, sv: nat, m: Map<u64, u64>)
    requires
        sv % 4 == 0,
        ledger_ok(m, sv),
        alloc_operand(v, sv, m).1 <= u64::MAX as nat + 1,
    ensures
        ({
            let a = alloc_operand(v, sv, m);
            &&& a.1 % 4 == 0
            &&& ledger_ok(m.union_prefer_right(a.2), a.1)
            &&& a.2.dom() =~= pseudo_ids_op(v).difference(m.dom())
            &&& forall|k: u64| #[trigger] a.2.contains_key(k) ==> sv <= a.2[k] && (a.2[k] as nat)
                < a.1
        }),
{
    let a = alloc_operand(v, sv, m);
    match v {
        OperandV::Pseudo(p) => {
            if m.contains_key(p.id) {
                assert(m.union_prefer_right(a.2) =~= m);
            } else {
                assert(a.2 =~= Map::empty().insert(p.id, sv as u64));
                assert forall|k: u64| #[trigger] m.union_prefer_right(a.2).contains_key(k) implies (
                m.union_prefer_right(a.2)[k] as nat) < a.1 && m.union_prefer_right(a.2)[k] % 4
                    == 0 by {
                    if k == p.id {
                        assert(m.union_prefer_right(a.2)[k] == sv as u64);
                    } else {
                        assert(m.union_prefer_right(a.2)[k] == m[k]);
                    }
                }
                assert forall|k1: u64, k2: u64|
                    m.union_prefer_right(a.2).contains_key(k1) && m.union_prefer_right(
                        a.2,
                    ).contains_key(k2) && k1 != k2 implies #[trigger] m.union_prefer_right(a.2)[k1]
                    != #[trigger] m.union_prefer_right(a.2)[k2] by {
                    if k1 == p.id {
                        assert((m[k2] as nat) < sv);
                    } else if k2 == p.id {
                        assert((m[k1] as nat) < sv);
                    }
                }
            }
        },
        _ => {
            assert(m.union_prefer_right(a.2) =~= m);
        },
    }
}

/// Two operand-level steps in sequence keep every property of one step.
proof fn lemma_alloc_two_props(a: OperandV, b: OperandV, sv: nat, m: Map<u64, u64>)
    requires
        sv % 4 == 0,
        ledger_ok(m, sv),
        alloc_two(a, b, sv, m).2 <= u64::MAX as nat + 1,
    ensures
        ({
            let t = alloc_two(a, b, sv, m);
            &&& t.2 % 4 == 0
            &&& ledger_ok(m.union_prefer_right(t.3), t.2)
            &&& t.3.dom() =~= pseudo_ids_op(a).union(pseudo_ids_op(b)).difference(m.dom())
            &&& forall|k: u64| #[trigger] t.3.contains_key(k) ==> sv <= t.3[k] && (t.3[k] as nat)
                < t.2
        }),
{
    let s1 = alloc_operand(a, sv, m);
    let m1 = m.union_prefer_right(s1.2);
    let s2 = alloc_operand(b, s1.1, m1);
    crate::asm_symbols::lemma_alloc_operand_fresh(a, sv, m);
    crate::asm_symbols::lemma_alloc_operand_fresh(b, s1.1, m1);
    lemma_alloc_operand_props(a, sv, m);
    lemma_alloc_operand_props(b, s1.1, m1);
    let t = alloc_two(a, b, sv, m);
    assert(m.union_prefer_right(t.3) =~= m1.union_prefer_right(s2.2));
    assert(t.3.dom() =~= pseudo_ids_op(a).union(pseudo_ids_op(b)).difference(m.dom()));
}

/// One instruction-level step keeps every property of an operand step.
proof fn lemma_alloc_instr_props(i: AsmInstrV, sv: nat, m: Map<u64, u64>)
    requires
        sv % 4 == 0,
        ledger_ok(m, sv),
        alloc_instr(i, sv, m).1 <= u64::MAX as nat + 1,
    ensures
        ({
            let t = alloc_instr(i, sv, m);
            &&& t.1 % 4 == 0
            &&& ledger_ok(m.union_prefer_right(t.2), t.1)
            &&& t.2.dom() =~= pseudo_ids_instr(i).difference(m.dom())
            &&& forall|k: u64| #[trigger] t.2.contains_key(k) ==> sv <= t.2[k] && (t.2[k] as nat)
                < t.1
        }),
{
    match i {
        AsmInstrV::Mov { src, dst } => lemma_alloc_two_props(src, dst, sv, m),
        AsmInstrV::Unary { operator, dst } => lemma_alloc_operand_props(dst, sv, m),
        AsmInstrV::Binary { operator, src, dst } => lemma_alloc_two_props(src, dst, sv, m),
        AsmInstrV::Compare { left, right } => lemma_alloc_two_props(left, right, sv, m),
        AsmInstrV::SetConditional { dst, condition } => lemma_alloc_operand_props(dst, sv, m),
        AsmInstrV::IntegerDivision { operand } => lemma_alloc_operand_props(operand, sv, m),
        _ => {
            let t = alloc_instr(i, sv, m);
            assert(m.union_prefer_right(t.2) =~= m);
            assert(t.2.dom() =~= pseudo_ids_instr(i).difference(m.dom()));
        },
    }
}

/// The list-level pass keeps the ledger well formed and binds exactly the
/// pseudo-register ids the list mentions and the ledger lacked.
proof fn lemma_alloc_list_props(s: Seq<AsmInstrV>, sv: nat, m: Map<u64, u64>)
    requires
        sv % 4 == 0,
        ledger_ok(m, sv),
        alloc_instr_list(s, sv, m).1 <= u64::MAX as nat + 1,
    ensures
        ({
            let t = alloc_instr_list(s, sv, m);
            &&& t.1 % 4 == 0
            &&& ledger_ok(m.union_prefer_right(t.2), t.1)
            &&& t.2.dom() =~= pseudo_ids_list(s).difference(m.dom())
            &&& forall|k: u64| #[trigger] t.2.contains_key(k) ==> sv <= t.2[k] && (t.2[k] as nat)
                < t.1
        }),
    decreases s.len(),
{
    if s.len() == 0 {
        let t = alloc_instr_list(s, sv, m);
        assert(m.union_prefer_right(t.2) =~= m);
        assert(t.2.dom() =~= pseudo_ids_list(s).difference(m.dom()));
    } else {
        let t0 = alloc_instr_list(s.drop_last(), sv, m);
        let m1 = m.union_prefer_right(t0.2);
        let h = alloc_instr(s.last(), t0.1, m1);
        crate::asm_symbols::lemma_alloc_instr_list_fresh(s.drop_last(), sv, m);
        crate::asm_symbols::lemma_alloc_instr_fresh(s.last(), t0.1, m1);
        lemma_alloc_list_props(s.drop_last(), sv, m);
        lemma_alloc_instr_props(s.last(), t0.1, m1);
        let t = alloc_instr_list(s, sv, m);
        assert(m.union_prefer_right(t.2) =~= m1.union_prefer_right(h.2));
        assert(t.2.dom() =~= pseudo_ids_list(s).difference(m.dom()));
    }
}

/// Totality and injectivity of the allocation pass: starting from an empty
/// ledger, the pass binds exactly the pseudo-register ids the instruction
/// list mentions — one binding per id — and no two ids share an offset; every
/// offset is a multiple of the four-byte slot width.
pub proof fn lemma_allocation_total_and_injective(instrs: Seq<AsmInstrV>)
    requires
        alloc_instr_list(instrs, 0, Map::empty()).1 <= u64::MAX as nat + 1,
    ensures
        ({
            let t = alloc_instr_list(instrs, 0, Map::empty());
            &&& t.2.dom() =~= pseudo_ids_list(instrs)
            &&& forall|k: u64| #[trigger] t.2.contains_key(k) ==> t.2[k] % 4 == 0
            &&& forall|k1: u64, k2: u64|
                t.2.contains_key(k1) && t.2.contains_key(k2) && k1 != k2 ==> #[trigger] t.2[k1]
                    != #[trigger] t.2[k2]
        }),
{
    lemma_alloc_list_props(instrs, 0, Map::empty());
    let t = alloc_instr_list(instrs, 0, Map::empty());
    assert(t.2.dom() =~= pseudo_ids_list(instrs));
    assert forall|k: u64| #[trigger] t.2.contains_key(k) implies t.2[k] % 4 == 0 by {
        assert(Map::<u64, u64>::empty().union_prefer_right(t.2) =~= t.2);
        assert(Map::<u64, u64>::empty().union_prefer_right(t.2).contains_key(k));
    }
    assert forall|k1: u64, k2: u64|
        t.2.contains_key(k1) && t.2.contains_key(k2) && k1 != k2 implies #[trigger] t.2[k1]
        != #[trigger] t.2[k2] by {
        assert(Map::<u64, u64>::empty().union_prefer_right(t.2) =~= t.2);
    }
}

/// Whether an operand is no longer a pseudo-register.
pub open spec fn op_no_pseudo(v: OperandV) -> bool {
    !(v is Pseudo)
}

/// Whether an instruction carries no pseudo-register operand.
pub open spec fn instr_no_pseudo(i: AsmInstrV) -> bool {
    match i {
        AsmInstrV::Mov { src, dst } => op_no_pseudo(src) && op_no_pseudo(dst),
        AsmInstrV::Unary { operator, dst } => op_no_pseudo(dst),
        AsmInstrV::Binary { operator, src, dst } => op_no_pseudo(src) && op_no_pseudo(dst),
        AsmInstrV::Compare { left, right } => op_no_pseudo(left) && op_no_pseudo(right),
        AsmInstrV::SetConditional { dst, condition } => op_no_pseudo(dst),
        AsmInstrV::IntegerDivision { operand } => op_no_pseudo(operand),
        _ => true,
    }
}

/// Whether a list carries no pseudo-register operand.
pub open spec fn list_no_pseudo(s: Seq<AsmInstrV>) -> bool {
    forall|i: int| 0 <= i < s.len() ==> instr_no_pseudo(#[trigger] s[i])
}

/// The allocation pass eliminates every pseudo-register.
pub proof fn lemma_allocation_eliminates_pseudos(s: Seq<AsmInstrV>, sv: nat, m: Map<u64, u64>)
    ensures
        list_no_pseudo(alloc_instr_list(s, sv, m).0),
    decreases s.len(),
{
    if s.len() > 0 {
        let t0 = alloc_instr_list(s.drop_last(), sv, m);
        lemma_allocation_eliminates_pseudos(s.drop_last(), sv, m);
        let h = alloc_instr(s.last(), t0.1, m.union_prefer_right(t0.2));
        assert(instr_no_pseudo(h.0));
        let t = alloc_instr_list(s, sv, m);
        assert forall|i: int| 0 <= i < t.0.len() implies instr_no_pseudo(#[trigger] t.0[i]) by {
            if i < t.0.len() - 1 {
                assert(t.0[i] == t0.0[i]);
            } else {
                assert(t.0[i] == h.0);
            }
        }
    }
}

/// Idempotence of the allocation pass: on input with no pseudo-register left
/// — such as the pass's own output — the pass returns the input unchanged,
/// moves the next free offset nowhere, and discovers no binding.
pub proof fn lemma_allocation_idempotent(s: Seq<AsmInstrV>, sv: nat, m: Map<u64, u64>)
    requires
        list_no_pseudo(s),
    ensures
        alloc_instr_list(s, sv, m).0 =~= s,
        alloc_instr_list(s, sv, m).1 == sv,
        alloc_instr_list(s, sv, m).2 =~= Map::<u64, u64>::empty(),
    decreases s.len(),
{
    if s.len() > 0 {
        assert(forall|i: int|
            0 <= i < s.drop_last().len() ==> instr_no_pseudo(#[trigger] s.drop_last()[i]));
        lemma_allocation_idempotent(s.drop_last(), sv, m);
        let t0 = alloc_instr_list(s.drop_last(), sv, m);
        assert(instr_no_pseudo(s.last()));
        let h = alloc_instr(s.last(), t0.1, m.union_prefer_right(t0.2));
        assert(h.0 == s.last() && h.1 == t0.1 && h.2 =~= Map::<u64, u64>::empty());
        assert(alloc_instr_list(s, sv, m).0 =~= s.drop_last().push(s.last()));
        assert(s.drop_last().push(s.last()) =~= s);
        assert(alloc_instr_list(s, sv, m).2 =~= Map::<u64, u64>::empty());
    }
}

/// No dual-memory-operand lines: every line of every legalized instruction
/// names at most one stack operand; the other is an immediate or a register.
pub proof fn lemma_legalized_single_memory(i: AsmInstrV)
    ensures
        forall|j: int|
            0 <= j < instr_lines(i).len() ==> (#[trigger] instr_lines(i)[j]).mem_operands() <= 1,
{
    let lines = instr_lines(i);
    assert forall|j: int| 0 <= j < lines.len() implies (#[trigger] lines[j]).mem_operands()
        <= 1 by {
        match i {
            AsmInstrV::Mov { src, dst } => {
                assert(lines =~= crate::mov_instruction::mov_lines(src, dst));
            },
            AsmInstrV::Binary { operator, src, dst } => {
                assert(lines =~= crate::binary_instruction::binary_lines(operator, src, dst));
            },
            AsmInstrV::Compare { left, right } => {
                assert(lines =~= crate::cmp_instruction::cmp_lines(left, right));
            },
            _ => {},
        }
    }
}

/// Multiply legalization: when both operands of a multiply are stack
/// resident, the emitted sequence routes the source through the first
/// scratch register and runs the hardware multiply entirely in the second,
/// so the multiply line itself touches no memory.
pub proof fn lemma_multiply_legalization(src: OperandV, dst: OperandV)
    requires
        src is Stack,
        dst is Stack,
    ensures
        ({
            let lines = instr_lines(
                AsmInstrV::Binary { operator: AsmDirectBinaryOperators::Multiply, src, dst },
            );
            &&& lines.len() == 4
            &&& lines[0].mnem == "movl"@ && lines[0].args == seq![
                crate::asm_symbols::operand_arg(src),
                crate::asm_symbols::reg_arg(crate::registers::scratch_reg()),
            ]
            &&& lines[1].mnem == "movl"@ && lines[1].args == seq![
                crate::asm_symbols::operand_arg(dst),
                crate::asm_symbols::reg_arg(crate::registers::dst_scratch_reg()),
            ]
            &&& lines[2].mnem == "imull"@ && lines[2].args == seq![
                crate::asm_symbols::reg_arg(crate::registers::scratch_reg()),
                crate::asm_symbols::reg_arg(crate::registers::dst_scratch_reg()),
            ]
            &&& lines[2].mem_operands() == 0
            &&& lines[3].mnem == "movl"@ && lines[3].args == seq![
                crate::asm_symbols::reg_arg(crate::registers::dst_scratch_reg()),
                crate::asm_symbols::operand_arg(dst),
            ]
        }),
{
    let lines = instr_lines(
        AsmInstrV::Binary { operator: AsmDirectBinaryOperators::Multiply, src, dst },
    );
    assert(lines =~= seq![
        AsmLine {
            mnem: "movl"@,
            args: seq![
                crate::asm_symbols::operand_arg(src),
                crate::asm_symbols::reg_arg(crate::registers::scratch_reg()),
            ],
        },
        AsmLine {
            mnem: "movl"@,
            args: seq![
                crate::asm_symbols::operand_arg(dst),
                crate::asm_symbols::reg_arg(crate::registers::dst_scratch_reg()),
            ],
        },
        AsmLine {
            mnem: "imull"@,
            args: seq![
                crate::asm_symbols::reg_arg(crate::registers::scratch_reg()),
                crate::asm_symbols::reg_arg(crate::registers::dst_scratch_reg()),
            ],
        },
        AsmLine {
            mnem: "movl"@,
            args: seq![
                crate::asm_symbols::reg_arg(crate::registers::dst_scratch_reg()),
                crate::asm_symbols::operand_arg(dst),
            ],
        },
    ]);
}

} // verus!
