//! The linear three-address IR the backend consumes: values are constants or
//! named temporaries, instructions are straight-line with explicit jumps.
use vstd::prelude::*;
use crate::parse::{
    ASTConstant, Identifier, PoppedTokenContext, SupportedBinaryOperators, SupportedUnaryOperators,
};

verus! {

/// The ghost shape of a temporary: its id and name.
pub ghost struct TackyVarV {
    pub id: u64,
    pub name: Seq<char>,
}

/// A named temporary, identified by its id alone.
#[derive(Debug)]
pub struct TackyVariable {
    pub id: u64,
    pub name: String,
}

impl View for TackyVariable {
    type V = TackyVarV;

    open spec fn view(&self) -> TackyVarV {
        TackyVarV { id: self.id, name: self.name@ }
    }
}

impl Clone for TackyVariable {
    fn clone(&self) -> (r: Self)
        ensures
            r@ == self@,
    {
        TackyVariable { id: self.id, name: self.name.clone() }
    }
}

impl PartialEq for TackyVariable {
    fn eq(&self, other: &Self) -> (r: bool) {
        self.id == other.id
    }
}

impl vstd::std_specs::cmp::PartialEqSpecImpl for TackyVariable {
    open spec fn obeys_eq_spec() -> bool {
        true
    }

    open spec fn eq_spec(&self, other: &Self) -> bool {
        self.id == other.id
    }
}

impl Eq for TackyVariable {

}

impl TackyVariable {
    pub fn new(id: u64) -> (r: TackyVariable)
        ensures
            r.id == id,
            r.name@ == Seq::<char>::empty(),
    {
        proof {
            reveal_strlit("");
        }
        TackyVariable { id, name: String::from_str("") }
    }
}

/// The ghost shape of an IR value.
pub ghost enum TackyValueV {
    Constant { text: Seq<char>, prov: Option<PoppedTokenContext> },
    Var(TackyVarV),
}

/// An IR value: a literal constant or a temporary.
#[derive(Debug)]
pub enum TackyValue {
    Constant(ASTConstant),
    Var(TackyVariable),
}

impl View for TackyValue {
    type V = TackyValueV;

    open spec fn view(&self) -> TackyValueV {
        match self {
            TackyValue::Constant(c) => TackyValueV::Constant { text: c.value@, prov: c.pop_context },
            TackyValue::Var(v) => TackyValueV::Var(v@),
        }
    }
}

impl Clone for TackyValue {
    fn clone(&self) -> (r: Self)
        ensures
            r@ == self@,
    {
        match self {
            TackyValue::Constant(c) => TackyValue::Constant(c.duplicate()),
            TackyValue::Var(v) => TackyValue::Var(v.clone()),
        }
    }
}

impl TackyValue {
    pub fn new_var(id: u64) -> (r: TackyValue)
        ensures
            r@ == (TackyValueV::Var(TackyVarV { id, name: Seq::<char>::empty() })),
    {
        TackyValue::Var(TackyVariable::new(id))
    }

    pub fn new_constant(value: &str) -> (r: TackyValue)
        ensures
            r@ == (TackyValueV::Constant { text: value@, prov: None }),
    {
        TackyValue::Constant(ASTConstant::new(value))
    }

    /// The id of the temporary this value names, if it names one.
    pub fn get_id(&self) -> (r: Option<u64>)
        ensures
            match self {
                TackyValue::Constant(_) => r is None,
                TackyValue::Var(v) => r == Some(v.id),
            },
    {
        match self {
            TackyValue::Constant(_) => None,
            TackyValue::Var(v) => Some(v.id),
        }
    }
}

/// The ghost shape of an IR instruction.
pub ghost enum TackyInstrV {
    Unary {
        operator: SupportedUnaryOperators,
        src: TackyValueV,
        dst: TackyVarV,
        prov: Option<PoppedTokenContext>,
    },
    Binary {
        operator: SupportedBinaryOperators,
        left: TackyValueV,
        right: TackyValueV,
        dst: TackyVarV,
        prov: Option<PoppedTokenContext>,
    },
    Copy { src: TackyValueV, dst: TackyVarV, prov: Option<PoppedTokenContext> },
    Jump { target: Seq<char>, prov: Option<PoppedTokenContext> },
    JumpIfZero { condition: TackyValueV, target: Seq<char>, prov: Option<PoppedTokenContext> },
    JumpIfNotZero { condition: TackyValueV, target: Seq<char>, prov: Option<PoppedTokenContext> },
    Label { label: Seq<char>, prov: Option<PoppedTokenContext> },
    AnnotationStart { label: Seq<char>, prov: Option<PoppedTokenContext> },
    AnnotationEnd { label: Seq<char>, prov: Option<PoppedTokenContext> },
    Return(TackyValueV),
}

/// Applies a unary operator to a value, into a fresh temporary.
#[derive(Debug)]
pub struct UnaryInstruction {
    pub operator: SupportedUnaryOperators,
    pub src: TackyValue,
    pub dst: TackyVariable,
    pub pop_context: Option<PoppedTokenContext>,
}

impl View for UnaryInstruction {
    type V = TackyInstrV;

    open spec fn view(&self) -> TackyInstrV {
        TackyInstrV::Unary {
            operator: self.operator,
            src: self.src@,
            dst: self.dst@,
            prov: self.pop_context,
        }
    }
}

impl Clone for UnaryInstruction {
    fn clone(&self) -> (r: Self)
        ensures
            r@ == self@,
    {
        UnaryInstruction {
            operator: self.operator,
            src: self.src.clone(),
            dst: self.dst.clone(),
            pop_context: self.pop_context,
        }
    }
}

impl UnaryInstruction {
    pub fn new(operator: SupportedUnaryOperators, src: TackyValue, dst: TackyVariable) -> (r:
        UnaryInstruction)
        ensures
            r@ == (TackyInstrV::Unary { operator, src: src@, dst: dst@, prov: None }),
    {
        UnaryInstruction { operator, src, dst, pop_context: None }
    }
}

/// Applies a binary operator to two values, into a fresh temporary.
#[derive(Debug)]
pub struct BinaryInstruction {
    pub operator: SupportedBinaryOperators,
    pub left: TackyValue,
    pub right: TackyValue,
    pub dst: TackyVariable,
    pub pop_context: Option<PoppedTokenContext>,
}

impl View for BinaryInstruction {
    type V = TackyInstrV;

    open spec fn view(&self) -> TackyInstrV {
        TackyInstrV::Binary {
            operator: self.operator,
            left: self.left@,
            right: self.right@,
            dst: self.dst@,
            prov: self.pop_context,
        }
    }
}

impl Clone for BinaryInstruction {
    fn clone(&self) -> (r: Self)
        ensures
            r@ == self@,
    {
        BinaryInstruction {
            operator: self.operator,
            left: self.left.clone(),
            right: self.right.clone(),
            dst: self.dst.clone(),
            pop_context: self.pop_context,
        }
    }
}

impl BinaryInstruction {
    pub fn new(
        operator: SupportedBinaryOperators,
        left: TackyValue,
        right: TackyValue,
        dst: TackyVariable,
    ) -> (r: BinaryInstruction)
        ensures
            r@ == (TackyInstrV::Binary { operator, left: left@, right: right@, dst: dst@, prov: None }),
    {
        BinaryInstruction { operator, left, right, dst, pop_context: None }
    }
}

/// Copies a value into a temporary.
#[derive(Debug)]
pub struct CopyInstruction {
    pub src: TackyValue,
    pub dst: TackyVariable,
    pub pop_context: Option<PoppedTokenContext>,
}

impl View for CopyInstruction {
    type V = TackyInstrV;

    open spec fn view(&self) -> TackyInstrV {
        TackyInstrV::Copy { src: self.src@, dst: self.dst@, prov: self.pop_context }
    }
}

impl Clone for CopyInstruction {
    fn clone(&self) -> (r: Self)
        ensures
            r@ == self@,
    {
        CopyInstruction { src: self.src.clone(), dst: self.dst.clone(), pop_context: self.pop_context }
    }
}

impl CopyInstruction {
    pub fn new(src: TackyValue, dst: TackyVariable) -> (r: CopyInstruction)
        ensures
            r@ == (TackyInstrV::Copy { src: src@, dst: dst@, prov: None }),
    {
        CopyInstruction { src, dst, pop_context: None }
    }
}

/// Jumps unconditionally to a label.
#[derive(Debug)]
pub struct JumpInstruction {
    pub target: Identifier,
    pub pop_context: Option<PoppedTokenContext>,
}

impl View for JumpInstruction {
    type V = TackyInstrV;

    open spec fn view(&self) -> TackyInstrV {
        TackyInstrV::Jump { target: self.target@, prov: self.pop_context }
    }
}

impl Clone for JumpInstruction {
    fn clone(&self) -> (r: Self)
        ensures
            r@ == self@,
    {
        JumpInstruction { target: self.target.duplicate(), pop_context: self.pop_context }
    }
}

impl JumpInstruction {
    pub fn new(target: Identifier) -> (r: JumpInstruction)
        ensures
            r@ == (TackyInstrV::Jump { target: target@, prov: None }),
    {
        JumpInstruction { target, pop_context: None }
    }
}

/// Jumps to a label when the condition value is zero.
#[derive(Debug)]
pub struct JumpIfZeroInstruction {
    pub condition: TackyValue,
    pub target: Identifier,
    pub pop_context: Option<PoppedTokenContext>,
}

impl View for JumpIfZeroInstruction {
    type V = TackyInstrV;

    open spec fn view(&self) -> TackyInstrV {
        TackyInstrV::JumpIfZero {
            condition: self.condition@,
            target: self.target@,
            prov: self.pop_context,
        }
    }
}

impl Clone for JumpIfZeroInstruction {
    fn clone(&self) -> (r: Self)
        ensures
            r@ == self@,
    {
        JumpIfZeroInstruction {
            condition: self.condition.clone(),
            target: self.target.duplicate(),
            pop_context: self.pop_context,
        }
    }
}

impl JumpIfZeroInstruction {
    pub fn new(condition: TackyValue, target: Identifier) -> (r: JumpIfZeroInstruction)
        ensures
            r@ == (TackyInstrV::JumpIfZero { condition: condition@, target: target@, prov: None }),
    {
        JumpIfZeroInstruction { condition, target, pop_context: None }
    }
}

/// Jumps to a label when the condition value is not zero.
#[derive(Debug)]
pub struct JumpIfNotZeroInstruction {
    pub condition: TackyValue,
    pub target: Identifier,
    pub pop_context: Option<PoppedTokenContext>,
}

impl View for JumpIfNotZeroInstruction {
    type V = TackyInstrV;

    open spec fn view(&self) -> TackyInstrV {
        TackyInstrV::JumpIfNotZero {
            condition: self.condition@,
            target: self.target@,
            prov: self.pop_context,
        }
    }
}

impl Clone for JumpIfNotZeroInstruction {
    fn clone(&self) -> (r: Self)
        ensures
            r@ == self@,
    {
        JumpIfNotZeroInstruction {
            condition: self.condition.clone(),
            target: self.target.duplicate(),
            pop_context: self.pop_context,
        }
    }
}

impl JumpIfNotZeroInstruction {
    pub fn new(condition: TackyValue, target: Identifier) -> (r: JumpIfNotZeroInstruction)
        ensures
            r@ == (TackyInstrV::JumpIfNotZero { condition: condition@, target: target@, prov: None }),
    {
        JumpIfNotZeroInstruction { condition, target, pop_context: None }
    }
}

/// Marks a jump target.
#[derive(Debug)]
pub struct LabelInstruction {
    pub label: Identifier,
    pub pop_context: Option<PoppedTokenContext>,
}

impl View for LabelInstruction {
    type V = TackyInstrV;

    open spec fn view(&self) -> TackyInstrV {
        TackyInstrV::Label { label: self.label@, prov: self.pop_context }
    }
}

impl Clone for LabelInstruction {
    fn clone(&self) -> (r: Self)
        ensures
            r@ == self@,
    {
        LabelInstruction { label: self.label.duplicate(), pop_context: self.pop_context }
    }
}

impl LabelInstruction {
    pub fn new(label: Identifier) -> (r: LabelInstruction)
        ensures
            r@ == (TackyInstrV::Label { label: label@, prov: None }),
    {
        LabelInstruction { label, pop_context: None }
    }
}

/// Opens an annotated region of instructions, for diagnostics only.
#[derive(Debug)]
pub struct AnnotationStartInstruction {
    pub label: Identifier,
    pub pop_context: Option<PoppedTokenContext>,
}

impl View for AnnotationStartInstruction {
    type V = TackyInstrV;

    open spec fn view(&self) -> TackyInstrV {
        TackyInstrV::AnnotationStart { label: self.label@, prov: self.pop_context }
    }
}

impl Clone for AnnotationStartInstruction {
    fn clone(&self) -> (r: Self)
        ensures
            r@ == self@,
    {
        AnnotationStartInstruction { label: self.label.duplicate(), pop_context: self.pop_context }
    }
}

impl AnnotationStartInstruction {
    pub fn new(label: Identifier, pop_context: Option<PoppedTokenContext>) -> (r:
        AnnotationStartInstruction)
        ensures
            r@ == (TackyInstrV::AnnotationStart { label: label@, prov: pop_context }),
    {
        AnnotationStartInstruction { label, pop_context }
    }
}

/// Closes an annotated region of instructions, for diagnostics only.
#[derive(Debug)]
pub struct AnnotationEndInstruction {
    pub label: Identifier,
    pub pop_context: Option<PoppedTokenContext>,
}

impl View for AnnotationEndInstruction {
    type V = TackyInstrV;

    open spec fn view(&self) -> TackyInstrV {
        TackyInstrV::AnnotationEnd { label: self.label@, prov: self.pop_context }
    }
}

impl Clone for AnnotationEndInstruction {
    fn clone(&self) -> (r: Self)
        ensures
            r@ == self@,
    {
        AnnotationEndInstruction { label: self.label.duplicate(), pop_context: self.pop_context }
    }
}

impl AnnotationEndInstruction {
    pub fn new(label: Identifier, pop_context: Option<PoppedTokenContext>) -> (r:
        AnnotationEndInstruction)
        ensures
            r@ == (TackyInstrV::AnnotationEnd { label: label@, prov: pop_context }),
    {
        AnnotationEndInstruction { label, pop_context }
    }
}

/// One IR instruction.
#[derive(Debug)]
pub enum TackyInstruction {
    UnaryInstruction(UnaryInstruction),
    BinaryInstruction(BinaryInstruction),
    CopyInstruction(CopyInstruction),
    JumpInstruction(JumpInstruction),
    JumpIfZeroInstruction(JumpIfZeroInstruction),
    JumpIfNotZeroInstruction(JumpIfNotZeroInstruction),
    LabelInstruction(LabelInstruction),
    AnnotationStartInstruction(AnnotationStartInstruction),
    AnnotationEndInstruction(AnnotationEndInstruction),
    Return(TackyValue),
}

impl View for TackyInstruction {
    type V = TackyInstrV;

    open spec fn view(&self) -> TackyInstrV {
        match self {
            TackyInstruction::UnaryInstruction(i) => i@,
            TackyInstruction::BinaryInstruction(i) => i@,
            TackyInstruction::CopyInstruction(i) => i@,
            TackyInstruction::JumpInstruction(i) => i@,
            TackyInstruction::JumpIfZeroInstruction(i) => i@,
            TackyInstruction::JumpIfNotZeroInstruction(i) => i@,
            TackyInstruction::LabelInstruction(i) => i@,
            TackyInstruction::AnnotationStartInstruction(i) => i@,
            TackyInstruction::AnnotationEndInstruction(i) => i@,
            TackyInstruction::Return(v) => TackyInstrV::Return(v@),
        }
    }
}

impl Clone for TackyInstruction {
    fn clone(&self) -> (r: Self)
        ensures
            r@ == self@,
    {
        match self {
            TackyInstruction::UnaryInstruction(i) => TackyInstruction::UnaryInstruction(i.clone()),
            TackyInstruction::BinaryInstruction(i) => TackyInstruction::BinaryInstruction(i.clone()),
            TackyInstruction::CopyInstruction(i) => TackyInstruction::CopyInstruction(i.clone()),
            TackyInstruction::JumpInstruction(i) => TackyInstruction::JumpInstruction(i.clone()),
            TackyInstruction::JumpIfZeroInstruction(i) => TackyInstruction::JumpIfZeroInstruction(
                i.clone(),
            ),
            TackyInstruction::JumpIfNotZeroInstruction(i) => {
                TackyInstruction::JumpIfNotZeroInstruction(i.clone())
            },
            TackyInstruction::LabelInstruction(i) => TackyInstruction::LabelInstruction(i.clone()),
            TackyInstruction::AnnotationStartInstruction(i) => {
                TackyInstruction::AnnotationStartInstruction(i.clone())
            },
            TackyInstruction::AnnotationEndInstruction(i) => {
                TackyInstruction::AnnotationEndInstruction(i.clone())
            },
            TackyInstruction::Return(v) => TackyInstruction::Return(v.clone()),
        }
    }
}

/// The ghost shape of an IR function.
pub ghost struct TackyFunctionV {
    pub name: Seq<char>,
    pub instructions: Seq<TackyInstrV>,
    pub prov: Option<PoppedTokenContext>,
}

/// An IR function: its name and its straight-line instruction list.
#[derive(Debug)]
pub struct TackyFunction {
    pub name: Identifier,
    pub instructions: Vec<TackyInstruction>,
    pub pop_context: Option<PoppedTokenContext>,
}

impl View for TackyFunction {
    type V = TackyFunctionV;

    open spec fn view(&self) -> TackyFunctionV {
        TackyFunctionV {
            name: self.name@,
            instructions: Seq::new(self.instructions@.len(), |i: int| self.instructions@[i]@),
            prov: self.pop_context,
        }
    }
}

impl TackyFunction {
    pub fn name_to_string(&self) -> (r: String)
        ensures
            r@ == self@.name,
    {
        self.name.name_to_string()
    }
}

/// The ghost shape of an IR program.
pub ghost struct TackyProgramV {
    pub function: TackyFunctionV,
    pub prov: Option<PoppedTokenContext>,
}

/// An IR program: exactly one function.
#[derive(Debug)]
pub struct TackyProgram {
    pub function: TackyFunction,
    pub pop_context: Option<PoppedTokenContext>,
}

impl View for TackyProgram {
    type V = TackyProgramV;

    open spec fn view(&self) -> TackyProgramV {
        TackyProgramV { function: self.function@, prov: self.pop_context }
    }
}

/// Wraps a concrete instruction form into the instruction enum.
pub trait ToTackyInstruction: Sized {
    /// The instruction this form stands for.
    spec fn instr_view(&self) -> TackyInstrV;

    fn to_tacky_instruction(&self) -> (r: TackyInstruction)
        ensures
            r@ == self.instr_view(),
    ;
}

impl ToTackyInstruction for UnaryInstruction {
    open spec fn instr_view(&self) -> TackyInstrV {
        self@
    }

    fn to_tacky_instruction(&self) -> (r: TackyInstruction) {
        TackyInstruction::UnaryInstruction(self.clone())
    }
}

impl ToTackyInstruction for BinaryInstruction {
    open spec fn instr_view(&self) -> TackyInstrV {
        self@
    }

    fn to_tacky_instruction(&self) -> (r: TackyInstruction) {
        TackyInstruction::BinaryInstruction(self.clone())
    }
}

impl ToTackyInstruction for CopyInstruction {
    open spec fn instr_view(&self) -> TackyInstrV {
        self@
    }

    fn to_tacky_instruction(&self) -> (r: TackyInstruction) {
        TackyInstruction::CopyInstruction(self.clone())
    }
}

impl ToTackyInstruction for JumpInstruction {
    open spec fn instr_view(&self) -> TackyInstrV {
        self@
    }

    fn to_tacky_instruction(&self) -> (r: TackyInstruction) {
        TackyInstruction::JumpInstruction(self.clone())
    }
}

impl ToTackyInstruction for JumpIfZeroInstruction {
    open spec fn instr_view(&self) -> TackyInstrV {
        self@
    }

    fn to_tacky_instruction(&self) -> (r: TackyInstruction) {
        TackyInstruction::JumpIfZeroInstruction(self.clone())
    }
}

impl ToTackyInstruction for JumpIfNotZeroInstruction {
    open spec fn instr_view(&self) -> TackyInstrV {
        self@
    }

    fn to_tacky_instruction(&self) -> (r: TackyInstruction) {
        TackyInstruction::JumpIfNotZeroInstruction(self.clone())
    }
}

impl ToTackyInstruction for LabelInstruction {
    open spec fn instr_view(&self) -> TackyInstrV {
        self@
    }

    fn to_tacky_instruction(&self) -> (r: TackyInstruction) {
        TackyInstruction::LabelInstruction(self.clone())
    }
}

impl ToTackyInstruction for AnnotationStartInstruction {
    open spec fn instr_view(&self) -> TackyInstrV {
        self@
    }

    fn to_tacky_instruction(&self) -> (r: TackyInstruction) {
        TackyInstruction::AnnotationStartInstruction(self.clone())
    }
}

impl ToTackyInstruction for AnnotationEndInstruction {
    open spec fn instr_view(&self) -> TackyInstrV {
        self@
    }

    fn to_tacky_instruction(&self) -> (r: TackyInstruction) {
        TackyInstruction::AnnotationEndInstruction(self.clone())
    }
}

impl ToTackyInstruction for TackyInstruction {
    open spec fn instr_view(&self) -> TackyInstrV {
        self@
    }

    fn to_tacky_instruction(&self) -> (r: TackyInstruction) {
        self.clone()
    }
}

/// The views of a vector of IR instructions.
pub open spec fn views_of_tacky(s: Seq<TackyInstruction>) -> Seq<TackyInstrV> {
    Seq::new(s.len(), |i: int| s[i]@)
}

/// What unrolling one expression hands back: the instructions produced so
/// far, the value holding the expression's result, and the next unused
/// temporary id.
#[derive(Debug)]
pub struct UnrollResult {
    pub instructions: Vec<TackyInstruction>,
    pub value: TackyValue,
    pub next_free_var_id: u64,
}

impl UnrollResult {
    pub fn new(instructions: Vec<TackyInstruction>, value: TackyValue, next_free_var_id: u64) -> (r:
        UnrollResult)
        ensures
            r.instructions == instructions,
            r.value == value,
            r.next_free_var_id == next_free_var_id,
    {
        UnrollResult { instructions, value, next_free_var_id }
    }

    /// The same result wrapped in a start and end annotation, for diagnostics.
    pub fn with_annotation(&self, annotation: AnnotationStartInstruction) -> (r: UnrollResult)
        ensures
            views_of_tacky(r.instructions@) == seq![annotation@] + views_of_tacky(
                self.instructions@,
            ) + seq![
                (TackyInstrV::AnnotationEnd {
                    label: annotation.label@,
                    prov: annotation.pop_context,
                }),
            ],
            r.value@ == self.value@,
            r.next_free_var_id == self.next_free_var_id,
    {
        let end = AnnotationEndInstruction::new(annotation.label.duplicate(), annotation.pop_context);
        let mut new_instructions: Vec<TackyInstruction> = Vec::new();
        new_instructions.push(annotation.to_tacky_instruction());
        let n = self.instructions.len();
        let mut i: usize = 0;
        while i < n
            invariant
                n == self.instructions.len(),
                0 <= i <= n,
                new_instructions@.len() == i + 1,
                views_of_tacky(new_instructions@) =~= seq![annotation@] + views_of_tacky(
                    self.instructions@,
                ).take(i as int),
            decreases n - i,
        {
            let ghost prev = new_instructions@;
            let copied = self.instructions[i].clone();
            proof {
                assert(copied@ == self.instructions@[i as int]@);
            }
            new_instructions.push(copied);
            proof {
                assert(new_instructions@ == prev.push(copied));
                assert forall|j: int| 0 <= j < new_instructions@.len() implies #[trigger] views_of_tacky(
                    new_instructions@,
                )[j] == (seq![annotation@] + views_of_tacky(self.instructions@).take(i as int + 1))[j] by {
                    if j < prev.len() {
                        assert(new_instructions@[j] == prev[j]);
                        assert(views_of_tacky(prev)[j] == (seq![annotation@] + views_of_tacky(
                            self.instructions@,
                        ).take(i as int))[j]);
                    } else {
                        assert(new_instructions@[j] == copied);
                    }
                }
                assert(views_of_tacky(new_instructions@) =~= seq![annotation@] + views_of_tacky(
                    self.instructions@,
                ).take(i as int + 1));
            }
            i = i + 1;
        }
        new_instructions.push(end.to_tacky_instruction());
        let r = UnrollResult {
            instructions: new_instructions,
            value: self.value.clone(),
            next_free_var_id: self.next_free_var_id,
        };
        proof {
            assert(views_of_tacky(self.instructions@).take(n as int) =~= views_of_tacky(
                self.instructions@,
            ));
            assert(views_of_tacky(r.instructions@) =~= seq![annotation@] + views_of_tacky(
                self.instructions@,
            ) + seq![
                (TackyInstrV::AnnotationEnd {
                    label: annotation.label@,
                    prov: annotation.pop_context,
                }),
            ]);
        }
        r
    }
}

/// How many expression nodes an expression holds; each can cost one
/// temporary.
pub open spec fn expr_size(e: &crate::parse::ExpressionVariant) -> nat
    decreases e,
{
    match e {
        crate::parse::ExpressionVariant::Constant(_) => 1,
        crate::parse::ExpressionVariant::UnaryOperation(_, sub) => 1 + expr_size(&sub.expr_item),
        crate::parse::ExpressionVariant::ParensWrapped(sub) => 1 + expr_size(&sub.expr_item),
        crate::parse::ExpressionVariant::BinaryOperation(_, l, r) => 1 + expr_size(&l.expr_item)
            + expr_size(&r.expr_item),
    }
}

/// The ghost temporary with a given id.
pub open spec fn fresh_var(id: nat) -> TackyVarV {
    TackyVarV { id: id as u64, name: Seq::empty() }
}

/// The label of a short-circuit jump target.
pub open spec fn short_circuit_jmp_label(c: nat) -> Seq<char> {
    "short_circuit_jmp_"@ + crate::emit::dec_str(c)
}

/// The label that ends a short-circuit block.
pub open spec fn short_circuit_end_label(c: nat) -> Seq<char> {
    "short_circuit_end_"@ + crate::emit::dec_str(c)
}

/// The conditional jump that short-circuits: on zero for `and`, on non-zero
/// for `or`.
pub open spec fn cond_jump_of(v: TackyValueV, c: nat, is_and: bool) -> TackyInstrV {
    if is_and {
        TackyInstrV::JumpIfZero { condition: v, target: short_circuit_jmp_label(c), prov: None }
    } else {
        TackyInstrV::JumpIfNotZero { condition: v, target: short_circuit_jmp_label(c), prov: None }
    }
}

/// What the unrolling of a short-circuit boolean operation produces.
pub open spec fn unroll_short_circuit_spec(
    left: &crate::parse::ExpressionVariant,
    right: &crate::parse::ExpressionVariant,
    c: nat,
    is_and: bool,
) -> (Seq<TackyInstrV>, TackyValueV, nat)
    decreases expr_size(left) + expr_size(right),
{
    let lu = unroll_expression_spec(left, c);
    let ru = unroll_expression_spec(right, lu.2);
    let v = ru.2;
    let no_jump_text: Seq<char> = if is_and {
        "1"@
    } else {
        "0"@
    };
    let jump_text: Seq<char> = if is_and {
        "0"@
    } else {
        "1"@
    };
    let instrs = lu.0 + seq![cond_jump_of(lu.1, c, is_and)] + ru.0 + seq![
        cond_jump_of(ru.1, c, is_and),
        (TackyInstrV::Copy {
            src: TackyValueV::Constant { text: no_jump_text, prov: None },
            dst: fresh_var(v),
            prov: None,
        }),
        (TackyInstrV::Jump { target: short_circuit_end_label(c), prov: None }),
        (TackyInstrV::Label { label: short_circuit_jmp_label(c), prov: None }),
        (TackyInstrV::Copy {
            src: TackyValueV::Constant { text: jump_text, prov: None },
            dst: fresh_var(v),
            prov: None,
        }),
        (TackyInstrV::Label { label: short_circuit_end_label(c), prov: None }),
    ];
    (instrs, TackyValueV::Var(fresh_var(v)), v + 1)
}

/// What the unrolling of one expression produces: its instructions, its
/// result value, and the next unused temporary id.
pub open spec fn unroll_expression_spec(e: &crate::parse::ExpressionVariant, c: nat) -> (
    Seq<TackyInstrV>,
    TackyValueV,
    nat,
)
    decreases expr_size(e),
{
    match e {
        crate::parse::ExpressionVariant::Constant(con) => (
            Seq::empty(),
            TackyValueV::Constant { text: con.value@, prov: con.pop_context },
            c,
        ),
        crate::parse::ExpressionVariant::UnaryOperation(op, sub) => {
            let inner = unroll_expression_spec(&sub.expr_item, c);
            let v = inner.2;
            (
                inner.0.push(
                    TackyInstrV::Unary {
                        operator: *op,
                        src: inner.1,
                        dst: fresh_var(v),
                        prov: sub.pop_context,
                    },
                ),
                TackyValueV::Var(fresh_var(v)),
                v + 1,
            )
        },
        crate::parse::ExpressionVariant::BinaryOperation(op, l, r) => {
            if (*op is And || *op is Or) {
                unroll_short_circuit_spec(&l.expr_item, &r.expr_item, c, *op is And)
            } else {
                let lu = unroll_expression_spec(&l.expr_item, c);
                let ru = unroll_expression_spec(&r.expr_item, lu.2);
                let v = ru.2;
                (
                    lu.0 + ru.0 + seq![
                        (TackyInstrV::Binary {
                            operator: *op,
                            left: lu.1,
                            right: ru.1,
                            dst: fresh_var(v),
                            prov: r.pop_context,
                        }),
                    ],
                    TackyValueV::Var(fresh_var(v)),
                    v + 1,
                )
            }
        },
        crate::parse::ExpressionVariant::ParensWrapped(sub) => unroll_expression_spec(
            &sub.expr_item,
            c,
        ),
    }
}

/// Appends copies of all instructions of `src` to `dst`.
fn extend_tacky(dst: &mut Vec<TackyInstruction>, src: &Vec<TackyInstruction>)
    ensures
        views_of_tacky(final(dst)@) == views_of_tacky(old(dst)@) + views_of_tacky(src@),
{
    let n = src.len();
    let mut i: usize = 0;
    while i < n
        invariant
            n == src@.len(),
            0 <= i <= n,
            views_of_tacky(dst@) =~= views_of_tacky(old(dst)@) + views_of_tacky(src@).take(i as int),
        decreases n - i,
    {
        let ghost prev = dst@;
        let copied = src[i].clone();
        dst.push(copied);
        proof {
            assert(dst@ == prev.push(copied));
            let a = views_of_tacky(old(dst)@);
            let b = views_of_tacky(src@);
            assert(views_of_tacky(prev) == a + b.take(i as int));
            assert(views_of_tacky(prev).len() == prev.len());
            assert(a.len() == old(dst)@.len());
            assert(b.len() == src@.len());
            assert(b.take(i as int).len() == i);
            assert(prev.len() == a.len() + i);
            assert forall|j: int| 0 <= j < dst@.len() implies #[trigger] views_of_tacky(dst@)[j] == (
            a + b.take(i as int + 1))[j] by {
                assert(views_of_tacky(dst@)[j] == dst@[j]@);
                if j < prev.len() {
                    assert(dst@[j] == prev[j]);
                    assert(views_of_tacky(prev)[j] == prev[j]@);
                    assert(views_of_tacky(prev)[j] == (a + b.take(i as int))[j]);
                    if j < a.len() {
                        assert((a + b.take(i as int))[j] == a[j]);
                        assert((a + b.take(i as int + 1))[j] == a[j]);
                    } else {
                        assert((a + b.take(i as int))[j] == b.take(i as int)[j - a.len()]);
                        assert((a + b.take(i as int + 1))[j] == b.take(i as int + 1)[j - a.len()]);
                        assert(b.take(i as int)[j - a.len()] == b[j - a.len()]);
                        assert(b.take(i as int + 1)[j - a.len()] == b[j - a.len()]);
                    }
                } else {
                    assert(dst@[j] == copied);
                    assert((a + b.take(i as int + 1))[j] == b.take(i as int + 1)[i as int]);
                    assert(b.take(i as int + 1)[i as int] == b[i as int]);
                    assert(copied@ == b[i as int]);
                }
            }
            assert(views_of_tacky(dst@) =~= a + b.take(i as int + 1));
        }
        i = i + 1;
    }
    proof {
        assert(views_of_tacky(src@).take(n as int) == views_of_tacky(src@));
        assert(views_of_tacky(dst@) =~= views_of_tacky(old(dst)@) + views_of_tacky(src@));
    }
}

/// Appends one instruction to `dst`.
fn push_tacky(dst: &mut Vec<TackyInstruction>, instr: TackyInstruction)
    ensures
        views_of_tacky(final(dst)@) == views_of_tacky(old(dst)@).push(instr@),
{
    let ghost prev = dst@;
    let ghost iv = instr@;
    dst.push(instr);
    proof {
        assert forall|j: int| 0 <= j < dst@.len() implies #[trigger] views_of_tacky(dst@)[j]
            == views_of_tacky(prev).push(iv)[j] by {
            if j < prev.len() {
                assert(dst@[j] == prev[j]);
            } else {
                assert(dst@[j]@ == iv);
            }
        }
        assert(views_of_tacky(dst@) =~= views_of_tacky(prev).push(iv));
    }
}

/// Builds the conditional jump that short-circuits: on zero for `and`, on
/// non-zero for `or`.
fn build_conditional_jump(value: TackyValue, jump_label: &Identifier, is_and: bool) -> (r:
    TackyInstruction)
    ensures
        r@ == if is_and {
            (TackyInstrV::JumpIfZero { condition: value@, target: jump_label@, prov: None })
        } else {
            (TackyInstrV::JumpIfNotZero { condition: value@, target: jump_label@, prov: None })
        },
{
    if is_and {
        JumpIfZeroInstruction::new(value, jump_label.duplicate()).to_tacky_instruction()
    } else {
        JumpIfNotZeroInstruction::new(value, jump_label.duplicate()).to_tacky_instruction()
    }
}

impl TackyInstruction {
    /// Unrolls a short-circuit boolean operation into conditional jumps and
    /// copies around two labels.
    pub fn unroll_short_circuit(
        left: &crate::parse::ExpressionVariant,
        right: &crate::parse::ExpressionVariant,
        var_counter: u64,
        is_and: bool,
    ) -> (r: UnrollResult)
        requires
            var_counter + expr_size(left) + expr_size(right) + 1 <= u64::MAX,
        ensures
            ({
                let s = unroll_short_circuit_spec(left, right, var_counter as nat, is_and);
                &&& views_of_tacky(r.instructions@) == s.0
                &&& r.value@ == s.1
                &&& r.next_free_var_id as nat == s.2
            }),
        decreases expr_size(left) + expr_size(right), 0nat,
    {
        let ghost c = var_counter as nat;
        let ghost s = unroll_short_circuit_spec(left, right, c, is_and);
        let jump_label = Identifier::new(
            String::from_str("short_circuit_jmp_").concat(
                crate::emit::u64_to_string(var_counter).as_str(),
            ),
        );
        let end_label = Identifier::new(
            String::from_str("short_circuit_end_").concat(
                crate::emit::u64_to_string(var_counter).as_str(),
            ),
        );
        proof {
            assert(jump_label@ == short_circuit_jmp_label(c));
            assert(end_label@ == short_circuit_end_label(c));
            lemma_unroll_counter(left, c);
        }
        let left_unroll_result = Self::unroll_expression(left, var_counter);
        let ghost lu = unroll_expression_spec(left, c);
        proof {
            lemma_unroll_counter(right, lu.2);
        }
        let var_counter2 = left_unroll_result.next_free_var_id;
        let right_unroll_result = Self::unroll_expression(right, var_counter2);
        let ghost ru = unroll_expression_spec(right, lu.2);
        let result_id = right_unroll_result.next_free_var_id;
        let result_tacky_var = TackyVariable::new(result_id);

        let no_jump_result_value = if is_and {
            TackyValue::Constant(crate::parse::ASTConstant::new("1"))
        } else {
            TackyValue::Constant(crate::parse::ASTConstant::new("0"))
        };
        let jump_result_value = if is_and {
            TackyValue::Constant(crate::parse::ASTConstant::new("0"))
        } else {
            TackyValue::Constant(crate::parse::ASTConstant::new("1"))
        };

        let mut circuit_instructions: Vec<TackyInstruction> = Vec::new();
        extend_tacky(&mut circuit_instructions, &left_unroll_result.instructions);
        push_tacky(
            &mut circuit_instructions,
            build_conditional_jump(left_unroll_result.value, &jump_label, is_and),
        );
        proof {
            assert(views_of_tacky(circuit_instructions@) =~= lu.0 + seq![
                cond_jump_of(lu.1, c, is_and),
            ]);
        }
        extend_tacky(&mut circuit_instructions, &right_unroll_result.instructions);
        push_tacky(
            &mut circuit_instructions,
            build_conditional_jump(right_unroll_result.value, &jump_label, is_and),
        );
        push_tacky(
            &mut circuit_instructions,
            CopyInstruction::new(no_jump_result_value, result_tacky_var.clone())
                .to_tacky_instruction(),
        );
        push_tacky(
            &mut circuit_instructions,
            JumpInstruction::new(end_label.duplicate()).to_tacky_instruction(),
        );
        push_tacky(
            &mut circuit_instructions,
            LabelInstruction::new(jump_label.duplicate()).to_tacky_instruction(),
        );
        push_tacky(
            &mut circuit_instructions,
            CopyInstruction::new(jump_result_value, result_tacky_var.clone())
                .to_tacky_instruction(),
        );
        push_tacky(
            &mut circuit_instructions,
            LabelInstruction::new(end_label).to_tacky_instruction(),
        );
        proof {
            assert(views_of_tacky(circuit_instructions@) =~= s.0);
        }
        UnrollResult::new(
            circuit_instructions,
            TackyValue::Var(result_tacky_var),
            result_id + 1,
        )
    }

    /// Unrolls one expression bottom-up into straight-line instructions over
    /// fresh temporaries.
    pub fn unroll_expression(expr_item: &crate::parse::ExpressionVariant, var_counter: u64) -> (r:
        UnrollResult)
        requires
            var_counter + expr_size(expr_item) <= u64::MAX,
        ensures
            ({
                let s = unroll_expression_spec(expr_item, var_counter as nat);
                &&& views_of_tacky(r.instructions@) == s.0
                &&& r.value@ == s.1
                &&& r.next_free_var_id as nat == s.2
            }),
        decreases expr_size(expr_item), 1nat,
    {
        let ghost c = var_counter as nat;
        match expr_item {
            crate::parse::ExpressionVariant::Constant(ast_constant) => {
                let r = UnrollResult::new(
                    Vec::new(),
                    TackyValue::Constant(ast_constant.duplicate()),
                    var_counter,
                );
                proof {
                    assert(views_of_tacky(r.instructions@) =~= unroll_expression_spec(
                        expr_item,
                        c,
                    ).0);
                }
                r
            },
            crate::parse::ExpressionVariant::UnaryOperation(operator, sub_expr) => {
                let inner_unroll_res = Self::unroll_expression(&sub_expr.expr_item, var_counter);
                proof {
                    lemma_unroll_counter(&sub_expr.expr_item, c);
                }
                let new_id = inner_unroll_res.next_free_var_id;
                let new_var = TackyVariable::new(new_id);
                let new_unary_instruction = UnaryInstruction {
                    operator: *operator,
                    src: inner_unroll_res.value,
                    dst: new_var.clone(),
                    pop_context: sub_expr.pop_context,
                };
                let mut instructions = inner_unroll_res.instructions;
                push_tacky(&mut instructions, new_unary_instruction.to_tacky_instruction());
                let r = UnrollResult::new(instructions, TackyValue::Var(new_var), new_id + 1);
                proof {
                    assert(views_of_tacky(r.instructions@) =~= unroll_expression_spec(
                        expr_item,
                        c,
                    ).0);
                }
                r
            },
            crate::parse::ExpressionVariant::BinaryOperation(operator, left, right) => {
                if operator.is_short_circuit() {
                    let r = Self::unroll_short_circuit(
                        &left.expr_item,
                        &right.expr_item,
                        var_counter,
                        match operator {
                            crate::parse::SupportedBinaryOperators::And => true,
                            _ => false,
                        },
                    );
                    return r;
                }
                let left_unroll = Self::unroll_expression(&left.expr_item, var_counter);
                proof {
                    lemma_unroll_counter(&left.expr_item, c);
                    lemma_unroll_counter(
                        &right.expr_item,
                        unroll_expression_spec(&left.expr_item, c).2,
                    );
                }
                let right_unroll = Self::unroll_expression(
                    &right.expr_item,
                    left_unroll.next_free_var_id,
                );
                let new_id = right_unroll.next_free_var_id;
                let new_var = TackyVariable::new(new_id);
                let new_binary_instruction = BinaryInstruction {
                    operator: *operator,
                    left: left_unroll.value,
                    right: right_unroll.value,
                    dst: new_var.clone(),
                    pop_context: right.pop_context,
                };
                let mut instructions = left_unroll.instructions;
                extend_tacky(&mut instructions, &right_unroll.instructions);
                push_tacky(&mut instructions, new_binary_instruction.to_tacky_instruction());
                let r = UnrollResult::new(instructions, TackyValue::Var(new_var), new_id + 1);
                proof {
                    assert(views_of_tacky(r.instructions@) =~= unroll_expression_spec(
                        expr_item,
                        c,
                    ).0);
                }
                r
            },
            crate::parse::ExpressionVariant::ParensWrapped(sub_expr) => {
                Self::unroll_expression(&sub_expr.expr_item, var_counter)
            },
        }
    }
}

impl TackyFunction {
    /// Flattens a function body: the expression's instructions, then a
    /// return of its value.
    pub fn from_function(function: &crate::parse::ASTFunction) -> (r: TackyFunction)
        requires
            expr_size(&function.body.expression.expr_item) <= u64::MAX,
        ensures
            ({
                let s = unroll_expression_spec(&function.body.expression.expr_item, 0);
                r@ == (TackyFunctionV {
                    name: function.name@,
                    instructions: s.0.push(TackyInstrV::Return(s.1)),
                    prov: function.pop_context,
                })
            }),
    {
        let ghost s = unroll_expression_spec(&function.body.expression.expr_item, 0);
        let inner_unroll = TackyInstruction::unroll_expression(
            &function.body.expression.expr_item,
            0,
        );
        let mut sub_instructions = inner_unroll.instructions;
        push_tacky(&mut sub_instructions, TackyInstruction::Return(inner_unroll.value));
        let r = TackyFunction {
            name: function.name.duplicate(),
            instructions: sub_instructions,
            pop_context: function.pop_context,
        };
        proof {
            assert(r@.instructions =~= s.0.push(TackyInstrV::Return(s.1)));
        }
        r
    }
}

impl TackyProgram {
    /// Flattens a whole program.
    pub fn from_program(program: &crate::parse::ASTProgram) -> (r: TackyProgram)
        requires
            expr_size(&program.function.body.expression.expr_item) <= u64::MAX,
        ensures
            ({
                let s = unroll_expression_spec(&program.function.body.expression.expr_item, 0);
                r@ == (TackyProgramV {
                    function: TackyFunctionV {
                        name: program.function.name@,
                        instructions: s.0.push(TackyInstrV::Return(s.1)),
                        prov: program.function.pop_context,
                    },
                    prov: program.pop_context,
                })
            }),
    {
        TackyProgram {
            pop_context: program.pop_context,
            function: TackyFunction::from_function(&program.function),
        }
    }
}

/// The unrolled counter never falls and never outruns the expression's size.
pub proof fn lemma_unroll_counter(e: &crate::parse::ExpressionVariant, c: nat)
    ensures
        c <= unroll_expression_spec(e, c).2 <= c + expr_size(e),
    decreases expr_size(e), 1nat,
{
    match e {
        crate::parse::ExpressionVariant::Constant(_) => {},
        crate::parse::ExpressionVariant::UnaryOperation(op, sub) => {
            lemma_unroll_counter(&sub.expr_item, c);
        },
        crate::parse::ExpressionVariant::BinaryOperation(op, l, r) => {
            if (*op is And || *op is Or) {
                lemma_unroll_short_counter(&l.expr_item, &r.expr_item, c, *op is And);
            } else {
                let lu = unroll_expression_spec(&l.expr_item, c);
                lemma_unroll_counter(&l.expr_item, c);
                lemma_unroll_counter(&r.expr_item, lu.2);
            }
        },
        crate::parse::ExpressionVariant::ParensWrapped(sub) => {
            lemma_unroll_counter(&sub.expr_item, c);
        },
    }
}

/// The short-circuit counter never falls and never outruns the sizes.
pub proof fn lemma_unroll_short_counter(
    left: &crate::parse::ExpressionVariant,
    right: &crate::parse::ExpressionVariant,
    c: nat,
    is_and: bool,
)
    ensures
        c <= unroll_short_circuit_spec(left, right, c, is_and).2 <= c + expr_size(left) + expr_size(
            right,
        ) + 1,
    decreases expr_size(left) + expr_size(right), 0nat,
{
    let lu = unroll_expression_spec(left, c);
    lemma_unroll_counter(left, c);
    lemma_unroll_counter(right, lu.2);
}

/// The diagnostic text of a temporary.
pub open spec fn print_var_spec(v: &TackyVariable, depth: nat) -> Seq<char> {
    crate::emit::repeat_text(crate::registers::tab_text(), depth) + "TackyVariable: id="@
        + crate::emit::dec_str(v.id as nat) + ", name="@ + v.name@ + "\n"@
}

/// The diagnostic text of a value.
pub open spec fn print_value_spec(v: &TackyValue, depth: nat) -> Seq<char> {
    match v {
        TackyValue::Constant(c) => crate::emit::repeat_text(crate::registers::tab_text(), depth)
            + "Constant: "@ + c.value@ + "\n"@,
        TackyValue::Var(t) => crate::emit::repeat_text(crate::registers::tab_text(), depth)
            + "Var: id="@ + crate::emit::dec_str(t.id as nat) + ", name="@ + t.name@ + "\n"@,
    }
}

/// The diagnostic text of a unary instruction.
pub open spec fn print_unary_spec(u: &UnaryInstruction, depth: nat) -> Seq<char> {
    let ind = crate::emit::repeat_text(crate::registers::tab_text(), depth);
    let tab = crate::registers::tab_text();
    ind + "UnaryInstruction:\n"@ + ind + tab + "Operator: "@ + crate::parse::unary_op_name(
        u.operator,
    ) + "\n"@ + ind + tab + "Src:\n"@ + print_value_spec(&u.src, depth + 2) + ind + tab + "Dst:\n"@
        + print_var_spec(&u.dst, depth + 2)
}

/// The diagnostic text of a binary instruction.
pub open spec fn print_binary_spec(b: &BinaryInstruction, depth: nat) -> Seq<char> {
    let ind = crate::emit::repeat_text(crate::registers::tab_text(), depth);
    let tab = crate::registers::tab_text();
    ind + "BinaryInstruction:\n"@ + ind + tab + "Operator: "@ + crate::parse::binary_op_name(
        b.operator,
    ) + "\n"@ + ind + tab + "Left:\n"@ + print_value_spec(&b.left, depth + 2) + ind + tab
        + "Right:\n"@ + print_value_spec(&b.right, depth + 2) + ind + tab + "Dst:\n"@
        + print_var_spec(&b.dst, depth + 2)
}

/// The diagnostic text of one instruction.
pub open spec fn print_instr_spec(i: &TackyInstruction, depth: nat) -> Seq<char> {
    match i {
        TackyInstruction::UnaryInstruction(u) => print_unary_spec(u, depth),
        TackyInstruction::BinaryInstruction(b) => print_binary_spec(b, depth),
        TackyInstruction::Return(v) => crate::emit::repeat_text(
            crate::registers::tab_text(),
            depth,
        ) + "Return:\n"@ + print_value_spec(v, depth + 1),
        _ => crate::emit::repeat_text(crate::registers::tab_text(), depth)
            + "Unimplemented TackyInstruction\n"@,
    }
}

/// The diagnostic text of an instruction list, in order.
pub open spec fn print_list_spec(s: Seq<TackyInstruction>, depth: nat) -> Seq<char>
    decreases s.len(),
{
    if s.len() == 0 {
        Seq::empty()
    } else {
        print_list_spec(s.drop_last(), depth) + print_instr_spec(&s.last(), depth)
    }
}

/// The diagnostic text of a function.
pub open spec fn print_fn_spec(f: &TackyFunction, depth: nat) -> Seq<char> {
    let ind = crate::emit::repeat_text(crate::registers::tab_text(), depth);
    let tab = crate::registers::tab_text();
    ind + "TackyFunction:\n"@ + ind + tab + "Name: "@ + f.name@ + "\n"@ + ind + tab
        + "Instructions:\n"@ + print_list_spec(f.instructions@, depth + 2)
}

/// The diagnostic text of a program.
pub open spec fn print_prog_spec(p: &TackyProgram, depth: nat) -> Seq<char> {
    crate::emit::repeat_text(crate::registers::tab_text(), depth) + "TackyProgram:\n"@
        + print_fn_spec(&p.function, depth + 1)
}

/// A value that can print itself as an indented diagnostic tree.
pub trait PrintableTacky: Sized {
    /// What machine limit the depth must respect.
    spec fn print_req(&self, depth: u64) -> bool;

    /// The printed text.
    spec fn print_spec(&self, depth: nat) -> Seq<char>;

    fn print_tacky_code(&self, depth: u64) -> (r: String)
        requires
            self.print_req(depth),
        ensures
            r@ == self.print_spec(depth as nat),
    ;
}

impl PrintableTacky for TackyVariable {
    open spec fn print_req(&self, depth: u64) -> bool {
        true
    }

    open spec fn print_spec(&self, depth: nat) -> Seq<char> {
        print_var_spec(self, depth)
    }

    fn print_tacky_code(&self, depth: u64) -> (r: String) {
        let mut s = crate::emit::repeat_str(crate::registers::tab_str(), depth);
        s.append("TackyVariable: id=");
        s.append(crate::emit::u64_to_string(self.id).as_str());
        s.append(", name=");
        s.append(self.name.as_str());
        s.append("\n");
        proof {
            assert(s@ =~= print_var_spec(self, depth as nat));
        }
        s
    }
}

impl PrintableTacky for TackyValue {
    open spec fn print_req(&self, depth: u64) -> bool {
        true
    }

    open spec fn print_spec(&self, depth: nat) -> Seq<char> {
        print_value_spec(self, depth)
    }

    fn print_tacky_code(&self, depth: u64) -> (r: String) {
        let mut s = crate::emit::repeat_str(crate::registers::tab_str(), depth);
        match self {
            TackyValue::Constant(c) => {
                s.append("Constant: ");
                s.append(c.value.as_str());
                s.append("\n");
            },
            TackyValue::Var(v) => {
                s.append("Var: id=");
                s.append(crate::emit::u64_to_string(v.id).as_str());
                s.append(", name=");
                s.append(v.name.as_str());
                s.append("\n");
            },
        }
        proof {
            assert(s@ =~= print_value_spec(self, depth as nat));
        }
        s
    }
}

impl PrintableTacky for UnaryInstruction {
    open spec fn print_req(&self, depth: u64) -> bool {
        depth <= 0xFFFF_FFFF
    }

    open spec fn print_spec(&self, depth: nat) -> Seq<char> {
        print_unary_spec(self, depth)
    }

    fn print_tacky_code(&self, depth: u64) -> (r: String) {
        let indent = crate::emit::repeat_str(crate::registers::tab_str(), depth);
        let mut s = String::new();
        s.append(indent.as_str());
        s.append("UnaryInstruction:\n");
        s.append(indent.as_str());
        s.append(crate::registers::tab_str());
        s.append("Operator: ");
        s.append(crate::parse::unary_op_name_str(self.operator));
        s.append("\n");
        s.append(indent.as_str());
        s.append(crate::registers::tab_str());
        s.append("Src:\n");
        s.append(self.src.print_tacky_code(depth + 2).as_str());
        s.append(indent.as_str());
        s.append(crate::registers::tab_str());
        s.append("Dst:\n");
        s.append(self.dst.print_tacky_code(depth + 2).as_str());
        proof {
            assert(s@ =~= print_unary_spec(self, depth as nat));
        }
        s
    }
}

impl PrintableTacky for BinaryInstruction {
    open spec fn print_req(&self, depth: u64) -> bool {
        depth <= 0xFFFF_FFFF
    }

    open spec fn print_spec(&self, depth: nat) -> Seq<char> {
        print_binary_spec(self, depth)
    }

    fn print_tacky_code(&self, depth: u64) -> (r: String) {
        let indent = crate::emit::repeat_str(crate::registers::tab_str(), depth);
        let mut s = String::new();
        s.append(indent.as_str());
        s.append("BinaryInstruction:\n");
        s.append(indent.as_str());
        s.append(crate::registers::tab_str());
        s.append("Operator: ");
        s.append(crate::parse::binary_op_name_str(self.operator));
        s.append("\n");
        s.append(indent.as_str());
        s.append(crate::registers::tab_str());
        s.append("Left:\n");
        s.append(self.left.print_tacky_code(depth + 2).as_str());
        s.append(indent.as_str());
        s.append(crate::registers::tab_str());
        s.append("Right:\n");
        s.append(self.right.print_tacky_code(depth + 2).as_str());
        s.append(indent.as_str());
        s.append(crate::registers::tab_str());
        s.append("Dst:\n");
        s.append(self.dst.print_tacky_code(depth + 2).as_str());
        proof {
            assert(s@ =~= print_binary_spec(self, depth as nat));
        }
        s
    }
}

impl PrintableTacky for TackyInstruction {
    open spec fn print_req(&self, depth: u64) -> bool {
        depth <= 0xFFFF_FFFF
    }

    open spec fn print_spec(&self, depth: nat) -> Seq<char> {
        print_instr_spec(self, depth)
    }

    fn print_tacky_code(&self, depth: u64) -> (r: String) {
        match self {
            TackyInstruction::UnaryInstruction(unary) => unary.print_tacky_code(depth),
            TackyInstruction::BinaryInstruction(binary) => binary.print_tacky_code(depth),
            TackyInstruction::Return(value) => {
                let mut s = crate::emit::repeat_str(crate::registers::tab_str(), depth);
                s.append("Return:\n");
                s.append(value.print_tacky_code(depth + 1).as_str());
                proof {
                    assert(s@ =~= print_instr_spec(self, depth as nat));
                }
                s
            },
            _ => {
                let mut s = crate::emit::repeat_str(crate::registers::tab_str(), depth);
                s.append("Unimplemented TackyInstruction\n");
                proof {
                    assert(s@ =~= print_instr_spec(self, depth as nat));
                }
                s
            },
        }
    }
}

impl PrintableTacky for TackyFunction {
    open spec fn print_req(&self, depth: u64) -> bool {
        depth <= 0xFFFF_FFF0
    }

    open spec fn print_spec(&self, depth: nat) -> Seq<char> {
        print_fn_spec(self, depth)
    }

    fn print_tacky_code(&self, depth: u64) -> (r: String) {
        let indent = crate::emit::repeat_str(crate::registers::tab_str(), depth);
        let mut s = String::new();
        s.append(indent.as_str());
        s.append("TackyFunction:\n");
        s.append(indent.as_str());
        s.append(crate::registers::tab_str());
        s.append("Name: ");
        s.append(self.name.name.as_str());
        s.append("\n");
        s.append(indent.as_str());
        s.append(crate::registers::tab_str());
        s.append("Instructions:\n");
        let ghost header = s@;
        let n = self.instructions.len();
        let mut i: usize = 0;
        while i < n
            invariant
                n == self.instructions@.len(),
                depth <= 0xFFFF_FFF0,
                s@ == header + print_list_spec(self.instructions@.take(i as int), depth as nat + 2),
                0 <= i <= n,
            decreases n - i,
        {
            s.append(self.instructions[i].print_tacky_code(depth + 2).as_str());
            proof {
                assert(self.instructions@.take(i as int + 1).drop_last() == self.instructions@.take(
                    i as int,
                ));
                assert(self.instructions@.take(i as int + 1).last() == self.instructions@[i as int]);
                assert(s@ =~= header + print_list_spec(
                    self.instructions@.take(i as int + 1),
                    depth as nat + 2,
                ));
            }
            i = i + 1;
        }
        proof {
            assert(self.instructions@.take(n as int) == self.instructions@);
            assert(s@ =~= print_fn_spec(self, depth as nat));
        }
        s
    }
}

impl PrintableTacky for TackyProgram {
    open spec fn print_req(&self, depth: u64) -> bool {
        depth <= 0xFFFF_FFE0
    }

    open spec fn print_spec(&self, depth: nat) -> Seq<char> {
        print_prog_spec(self, depth)
    }

    fn print_tacky_code(&self, depth: u64) -> (r: String) {
        let mut s = crate::emit::repeat_str(crate::registers::tab_str(), depth);
        s.append("TackyProgram:\n");
        s.append(self.function.print_tacky_code(depth + 1).as_str());
        proof {
            assert(s@ =~= print_prog_spec(self, depth as nat));
        }
        s
    }
}

} // verus!
