//! The operand model and assembly-level symbols: immediates, fixed registers,
//! unresolved pseudo-registers, resolved stack addresses, and the program and
//! function wrappers around the instruction list.
use vstd::prelude::*;
use crate::emit::{block_text, dec_str, u64_to_string, AsmLine, LineArg};
use crate::ledger::{AppendOnlyHashMap, DiffableHashMap, StackAllocationResult, ToStackAllocated};
use crate::parse::{
    is_dec_numeral, dec_numeral_value, Expression, ExpressionVariant, ParseError,
    PoppedTokenContext, Statement, SupportedUnaryOperators,
};
use crate::registers::{reg_text, register_str, Register};
use crate::tacky::{TackyValue, TackyVarV, TackyVariable};

verus! {

/// Why assembly generation failed.
#[derive(Debug)]
pub enum AsmGenError {
    /// An operand or instruction reached a stage it must not reach: an
    /// internal-invariant violation of the backend itself.
    InvalidInstructionType(String),
    /// An operator or instruction shape the backend does not implement.
    UnsupportedInstruction(String),
    /// A front-end failure carried through unchanged.
    ParseError(ParseError),
}

/// The ghost shape of an immediate operand.
pub ghost struct ImmV {
    pub value: u64,
    pub provs: Seq<PoppedTokenContext>,
}

/// The ghost shape of a pseudo-register operand.
pub ghost struct PseudoV {
    pub id: u64,
    pub name: Seq<char>,
    pub provs: Seq<PoppedTokenContext>,
    pub tacky_var: Option<TackyVarV>,
}

/// The ghost shape of a stack-address operand.
pub ghost struct StackV {
    pub offset: u64,
    pub offset_size: u64,
    pub provs: Seq<PoppedTokenContext>,
    pub tacky_var: Option<TackyVarV>,
}

/// The ghost shape of an operand.
pub ghost enum OperandV {
    Immediate(ImmV),
    Register(Register),
    Pseudo(PseudoV),
    Stack(StackV),
}

/// Whether an operand may appear in final output: pseudo-registers must have
/// been eliminated by the allocation pass.
pub open spec fn operand_emits(v: OperandV) -> bool {
    !(v is Pseudo)
}

/// An operand's final text.
pub open spec fn operand_text(v: OperandV) -> Seq<char> {
    match v {
        OperandV::Immediate(i) => "$"@ + dec_str(i.value as nat),
        OperandV::Register(r) => reg_text(r),
        OperandV::Stack(s) => "-"@ + dec_str(s.offset as nat) + "(%rbp)"@,
        OperandV::Pseudo(_) => Seq::empty(),
    }
}

/// An operand as it sits on an emitted line.
pub open spec fn operand_arg(v: OperandV) -> LineArg {
    LineArg { text: operand_text(v), is_mem: v is Stack }
}

/// A register as it sits on an emitted line.
pub open spec fn reg_arg(r: Register) -> LineArg {
    LineArg { text: reg_text(r), is_mem: false }
}

/// One step of the stack allocation pass on an operand: a pseudo-register is
/// replaced by a stack address, fresh offsets are handed out in encounter
/// order, and every other operand passes through unchanged.
pub open spec fn alloc_operand(v: OperandV, sv: nat, m: Map<u64, u64>) -> (OperandV, nat, Map<
    u64,
    u64,
>) {
    match v {
        OperandV::Pseudo(p) => {
            if m.contains_key(p.id) {
                (
                    OperandV::Stack(
                        StackV {
                            offset: m[p.id],
                            offset_size: 4,
                            provs: p.provs,
                            tacky_var: p.tacky_var,
                        },
                    ),
                    sv,
                    Map::empty(),
                )
            } else {
                (
                    OperandV::Stack(
                        StackV {
                            offset: sv as u64,
                            offset_size: 4,
                            provs: p.provs,
                            tacky_var: p.tacky_var,
                        },
                    ),
                    sv + 4,
                    Map::empty().insert(p.id, sv as u64),
                )
            }
        },
        _ => (v, sv, Map::empty()),
    }
}

/// Two operands allocated left to right, the second reading through the
/// bindings the first discovered.
pub open spec fn alloc_two(a: OperandV, b: OperandV, sv: nat, m: Map<u64, u64>) -> (
    OperandV,
    OperandV,
    nat,
    Map<u64, u64>,
) {
    let s1 = alloc_operand(a, sv, m);
    let s2 = alloc_operand(b, s1.1, m.union_prefer_right(s1.2));
    (s1.0, s2.0, s2.1, s1.2.union_prefer_right(s2.2))
}

/// A symbol that can render itself as assembly text.
pub trait AsmSymbol: Sized {
    /// What rendering asks of its input; machine limits only.
    spec fn render_req(&self) -> bool;

    /// Whether rendering succeeds.
    spec fn emits(&self) -> bool;

    /// The rendered text, meaningful when rendering succeeds.
    spec fn asm_text(&self) -> Seq<char>;

    /// The failure this symbol reports when rendering fails.
    spec fn err_shape(&self, e: &AsmGenError) -> bool;

    fn to_asm_code(self) -> (r: Result<String, AsmGenError>)
        requires
            self.render_req(),
        ensures
            self.emits() <==> r is Ok,
            match r {
                Ok(s) => s@ == self.asm_text(),
                Err(e) => self.err_shape(&e),
            },
    ;
}

/// A value that carries diagnostic provenance forward.
pub trait HasPopContexts: Sized {
    /// The provenance carried so far.
    spec fn provs(&self) -> Seq<PoppedTokenContext>;

    /// Whether two values agree on everything but their provenance.
    spec fn same_but_provs(&self, other: &Self) -> bool;

    fn _get_pop_contexts(&self) -> (r: &Vec<PoppedTokenContext>)
        ensures
            r@ == self.provs(),
    ;

    fn _add_pop_context(&mut self, pop_context: PoppedTokenContext)
        ensures
            final(self).provs() == old(self).provs().push(pop_context),
            old(self).same_but_provs(final(self)),
    ;

    fn _add_pop_context_opt(&mut self, pop_context: Option<PoppedTokenContext>)
        ensures
            final(self).provs() == match pop_context {
                Some(c) => old(self).provs().push(c),
                None => old(self).provs(),
            },
            old(self).same_but_provs(final(self)),
    ;

    fn with_added_pop_context(self, pop_context: Option<PoppedTokenContext>) -> (r: Self)
        ensures
            r.provs() == match pop_context {
                Some(c) => self.provs().push(c),
                None => self.provs(),
            },
            self.same_but_provs(&r),
    ;

    fn contexts_to_string(&self) -> (r: String)
        ensures
            r@ == contexts_text(self.provs()),
    ;
}

/// One provenance range as a diagnostic comment line.
pub open spec fn context_line_text(c: PoppedTokenContext) -> Seq<char> {
    "// TOKEN_RANGE["@ + dec_str(c.start_token_position as nat) + ", "@ + dec_str(
        c.end_token_position as nat,
    ) + "], SOURCE_RANGE["@ + dec_str(c.start_source_position as nat) + ", "@ + dec_str(
        c.end_source_position as nat,
    ) + "]"@
}

/// All provenance ranges, one comment line each, joined by line breaks.
pub open spec fn contexts_joined(provs: Seq<PoppedTokenContext>) -> Seq<char>
    decreases provs.len(),
{
    if provs.len() == 0 {
        Seq::empty()
    } else if provs.len() == 1 {
        context_line_text(provs[0])
    } else {
        context_line_text(provs[0]) + "\n"@ + contexts_joined(provs.drop_first())
    }
}

/// The provenance block a symbol prints: the joined comment lines and a
/// final line break.
pub open spec fn contexts_text(provs: Seq<PoppedTokenContext>) -> Seq<char> {
    contexts_joined(provs) + "\n"@
}

/// Renders one provenance range as a diagnostic comment.
pub fn context_line_string(c: &PoppedTokenContext) -> (r: String)
    ensures
        r@ == context_line_text(*c),
{
    let mut s = String::from_str("// TOKEN_RANGE[");
    s.append(u64_to_string(c.start_token_position).as_str());
    s.append(", ");
    s.append(u64_to_string(c.end_token_position).as_str());
    s.append("], SOURCE_RANGE[");
    s.append(u64_to_string(c.start_source_position).as_str());
    s.append(", ");
    s.append(u64_to_string(c.end_source_position).as_str());
    s.append("]");
    proof {
        assert(s@ =~= context_line_text(*c));
    }
    s
}

/// Renders a provenance list as its diagnostic block.
pub fn contexts_string_of(provs: &Vec<PoppedTokenContext>) -> (r: String)
    ensures
        r@ == contexts_text(provs@),
{
    let n = provs.len();
    let mut s = String::new();
    let mut i: usize = 0;
    while i < n
        invariant
            n == provs@.len(),
            0 <= i <= n,
            i == 0 ==> s@ == Seq::<char>::empty(),
            i > 0 ==> s@ == contexts_joined(provs@.take(i as int)),
        decreases n - i,
    {
        if i > 0 {
            s.append("\n");
        }
        s.append(context_line_string(&provs[i]).as_str());
        proof {
            lemma_contexts_joined_push(provs@.take(i as int + 1));
            assert(provs@.take(i as int + 1).drop_last() == provs@.take(i as int));
            assert(provs@.take(i as int + 1).last() == provs@[i as int]);
            assert(s@ =~= contexts_joined(provs@.take(i as int + 1)));
        }
        i = i + 1;
    }
    s.append("\n");
    proof {
        assert(provs@.take(n as int) == provs@);
        assert(s@ =~= contexts_text(provs@));
    }
    s
}

/// An unbounded-range placeholder standing for one IR temporary; it must be
/// eliminated by the allocation pass before emission.
#[derive(Debug)]
pub struct PseudoRegister {
    pub id: u64,
    pub name: String,
    pub pop_contexts: Vec<PoppedTokenContext>,
    pub tacky_var: Option<TackyVariable>,
}

/// The ghost shape of an optional IR temporary back-reference.
pub open spec fn tacky_var_view(v: &Option<TackyVariable>) -> Option<TackyVarV> {
    match v {
        Some(t) => Some(t@),
        None => None,
    }
}

impl View for PseudoRegister {
    type V = PseudoV;

    open spec fn view(&self) -> PseudoV {
        PseudoV {
            id: self.id,
            name: self.name@,
            provs: self.pop_contexts@,
            tacky_var: tacky_var_view(&self.tacky_var),
        }
    }
}

/// Copies an optional IR temporary back-reference.
fn clone_tacky_var(v: &Option<TackyVariable>) -> (r: Option<TackyVariable>)
    ensures
        tacky_var_view(&r) == tacky_var_view(v),
{
    match v {
        Some(t) => Some(t.clone()),
        None => None,
    }
}

impl Clone for PseudoRegister {
    fn clone(&self) -> (r: Self)
        ensures
            r@ == self@,
    {
        PseudoRegister {
            id: self.id,
            name: self.name.clone(),
            pop_contexts: self.pop_contexts.clone(),
            tacky_var: clone_tacky_var(&self.tacky_var),
        }
    }
}

impl PartialEq for PseudoRegister {
    fn eq(&self, other: &Self) -> (r: bool) {
        self.id == other.id
    }
}

impl vstd::std_specs::cmp::PartialEqSpecImpl for PseudoRegister {
    open spec fn obeys_eq_spec() -> bool {
        true
    }

    open spec fn eq_spec(&self, other: &Self) -> bool {
        self.id == other.id
    }
}

impl HasPopContexts for PseudoRegister {
    open spec fn provs(&self) -> Seq<PoppedTokenContext> {
        self.pop_contexts@
    }

    open spec fn same_but_provs(&self, other: &Self) -> bool {
        self.id == other.id && self.name@ == other.name@ && tacky_var_view(&self.tacky_var)
            == tacky_var_view(&other.tacky_var)
    }

    fn _get_pop_contexts(&self) -> (r: &Vec<PoppedTokenContext>) {
        &self.pop_contexts
    }

    fn _add_pop_context(&mut self, pop_context: PoppedTokenContext) {
        self.pop_contexts.push(pop_context);
    }

    fn _add_pop_context_opt(&mut self, pop_context: Option<PoppedTokenContext>) {
        if let Some(pop_context) = pop_context {
            self._add_pop_context(pop_context);
        }
    }

    fn with_added_pop_context(self, pop_context: Option<PoppedTokenContext>) -> (r: Self) {
        let mut new = self;
        new._add_pop_context_opt(pop_context);
        new
    }

    fn contexts_to_string(&self) -> (r: String) {
        contexts_string_of(&self.pop_contexts)
    }
}

impl PseudoRegister {
    pub fn new(id: u64, name: String) -> (r: PseudoRegister)
        ensures
            r@ == (PseudoV { id, name: name@, provs: Seq::empty(), tacky_var: None }),
    {
        PseudoRegister { id, name, pop_contexts: Vec::new(), tacky_var: None }
    }

    pub fn set_tacky_var(&mut self, tacky_var: TackyVariable)
        ensures
            final(self)@ == (PseudoV { tacky_var: Some(tacky_var@), ..old(self)@ }),
    {
        self.tacky_var = Some(tacky_var);
    }

    pub fn with_tacky_var_context(self, tacky_var: TackyVariable) -> (r: PseudoRegister)
        ensures
            r@ == (PseudoV { tacky_var: Some(tacky_var@), ..self@ }),
    {
        let mut cloned = self;
        cloned.set_tacky_var(tacky_var);
        cloned
    }

    /// The ghost pseudo-register standing for an IR temporary.
    pub open spec fn of_tacky_var(v: TackyVarV) -> PseudoV {
        PseudoV { id: v.id, name: v.name, provs: Seq::empty(), tacky_var: Some(v) }
    }

    pub fn from_tacky_var(tacky_var: TackyVariable) -> (r: PseudoRegister)
        ensures
            r@ == Self::of_tacky_var(tacky_var@),
    {
        let cloned_var = tacky_var.clone();
        let mut pseudo_register = PseudoRegister::new(tacky_var.id, tacky_var.name);
        pseudo_register.set_tacky_var(cloned_var);
        pseudo_register
    }
}

/// The frame-size instruction: reserves this many bytes in the prologue.
#[derive(Debug)]
pub struct StackAllocation {
    pub offset: u64,
    pub offset_size: u64,
    pub pop_contexts: Vec<PoppedTokenContext>,
    pub tacky_var: Option<TackyVariable>,
}

impl View for StackAllocation {
    type V = StackV;

    open spec fn view(&self) -> StackV {
        StackV {
            offset: self.offset,
            offset_size: self.offset_size,
            provs: self.pop_contexts@,
            tacky_var: tacky_var_view(&self.tacky_var),
        }
    }
}

impl Clone for StackAllocation {
    fn clone(&self) -> (r: Self)
        ensures
            r@ == self@,
    {
        StackAllocation {
            offset: self.offset,
            offset_size: self.offset_size,
            pop_contexts: self.pop_contexts.clone(),
            tacky_var: clone_tacky_var(&self.tacky_var),
        }
    }
}

/// The text of the frame-size instruction.
pub open spec fn stack_allocation_lines(v: StackV) -> Seq<AsmLine> {
    seq![
        AsmLine {
            mnem: "subq"@,
            args: seq![
                LineArg { text: "$"@ + dec_str(v.offset as nat), is_mem: false },
                LineArg { text: crate::registers::stack_reg_text(), is_mem: false },
            ],
        },
    ]
}

impl StackAllocation {
    pub fn new(offset: u64, offset_size: u64) -> (r: StackAllocation)
        ensures
            r@ == (StackV { offset, offset_size, provs: Seq::empty(), tacky_var: None }),
    {
        StackAllocation { offset, offset_size, pop_contexts: Vec::new(), tacky_var: None }
    }
}

impl AsmSymbol for StackAllocation {
    open spec fn render_req(&self) -> bool {
        true
    }

    open spec fn emits(&self) -> bool {
        true
    }

    open spec fn asm_text(&self) -> Seq<char> {
        block_text(stack_allocation_lines(self@))
    }

    open spec fn err_shape(&self, e: &AsmGenError) -> bool {
        false
    }

    fn to_asm_code(self) -> (r: Result<String, AsmGenError>) {
        let mut s = String::from_str("subq $");
        s.append(u64_to_string(self.offset).as_str());
        s.append(", ");
        s.append(crate::registers::stack_register_str());
        proof {
            reveal_strlit("subq $");
            reveal_strlit("subq");
            reveal_strlit("$");
            reveal_strlit(" ");
            reveal_strlit(", ");
            assert(s@ =~= self.asm_text());
        }
        Ok(s)
    }
}

/// A resolved operand: a byte offset below the frame base pointer.
#[derive(Debug)]
pub struct StackAddress {
    pub offset: u64,
    pub offset_size: u64,
    pub pop_contexts: Vec<PoppedTokenContext>,
    pub tacky_var: Option<TackyVariable>,
}

impl View for StackAddress {
    type V = StackV;

    open spec fn view(&self) -> StackV {
        StackV {
            offset: self.offset,
            offset_size: self.offset_size,
            provs: self.pop_contexts@,
            tacky_var: tacky_var_view(&self.tacky_var),
        }
    }
}

impl Clone for StackAddress {
    fn clone(&self) -> (r: Self)
        ensures
            r@ == self@,
    {
        StackAddress {
            offset: self.offset,
            offset_size: self.offset_size,
            pop_contexts: self.pop_contexts.clone(),
            tacky_var: clone_tacky_var(&self.tacky_var),
        }
    }
}

impl StackAddress {
    pub fn new(offset: u64, offset_size: u64) -> (r: StackAddress)
        ensures
            r@ == (StackV { offset, offset_size, provs: Seq::empty(), tacky_var: None }),
    {
        StackAddress { offset, offset_size, pop_contexts: Vec::new(), tacky_var: None }
    }

    /// The stack address an operand-level allocation step resolves a
    /// pseudo-register to, and whether the register was already allocated.
    pub fn from_pseudo_register<M: DiffableHashMap>(
        pseudo_register: &PseudoRegister,
        current_stack_offset: u64,
        offset_size: u64,
        existing_allocations: &M,
    ) -> (r: (StackAddress, bool))
        requires
            existing_allocations.inv(),
        ensures
            r.1 == existing_allocations.contents().contains_key(pseudo_register.id),
            r.0@ == (StackV {
                offset: if existing_allocations.contents().contains_key(pseudo_register.id) {
                    existing_allocations.contents()[pseudo_register.id]
                } else {
                    current_stack_offset
                },
                offset_size,
                provs: pseudo_register@.provs,
                tacky_var: pseudo_register@.tacky_var,
            }),
    {
        let existing_allocation = existing_allocations.get(&pseudo_register.id);
        let stack_value = match existing_allocation {
            Some(addr) => *addr,
            None => current_stack_offset,
        };
        let stack_address = StackAddress {
            offset: stack_value,
            offset_size,
            pop_contexts: pseudo_register.pop_contexts.clone(),
            tacky_var: clone_tacky_var(&pseudo_register.tacky_var),
        };
        (stack_address, existing_allocation.is_some())
    }
}

impl AsmSymbol for StackAddress {
    open spec fn render_req(&self) -> bool {
        true
    }

    open spec fn emits(&self) -> bool {
        true
    }

    open spec fn asm_text(&self) -> Seq<char> {
        operand_text(OperandV::Stack(self@))
    }

    open spec fn err_shape(&self, e: &AsmGenError) -> bool {
        false
    }

    fn to_asm_code(self) -> (r: Result<String, AsmGenError>) {
        let mut s = String::from_str("-");
        s.append(u64_to_string(self.offset).as_str());
        s.append("(%rbp)");
        proof {
            assert(s@ =~= self.asm_text());
        }
        Ok(s)
    }
}

/// A fixed unsigned value operand.
#[derive(Debug)]
pub struct AsmImmediateValue {
    pub value: u64,
    pub pop_contexts: Vec<PoppedTokenContext>,
}

impl View for AsmImmediateValue {
    type V = ImmV;

    open spec fn view(&self) -> ImmV {
        ImmV { value: self.value, provs: self.pop_contexts@ }
    }
}

impl Clone for AsmImmediateValue {
    fn clone(&self) -> (r: Self)
        ensures
            r@ == self@,
    {
        AsmImmediateValue { value: self.value, pop_contexts: self.pop_contexts.clone() }
    }
}

impl HasPopContexts for AsmImmediateValue {
    open spec fn provs(&self) -> Seq<PoppedTokenContext> {
        self.pop_contexts@
    }

    open spec fn same_but_provs(&self, other: &Self) -> bool {
        self.value == other.value
    }

    fn _get_pop_contexts(&self) -> (r: &Vec<PoppedTokenContext>) {
        &self.pop_contexts
    }

    fn _add_pop_context(&mut self, pop_context: PoppedTokenContext) {
        self.pop_contexts.push(pop_context);
    }

    fn _add_pop_context_opt(&mut self, pop_context: Option<PoppedTokenContext>) {
        if let Some(pop_context) = pop_context {
            self._add_pop_context(pop_context);
        }
    }

    fn with_added_pop_context(self, pop_context: Option<PoppedTokenContext>) -> (r: Self) {
        let mut new = self;
        new._add_pop_context_opt(pop_context);
        new
    }

    fn contexts_to_string(&self) -> (r: String) {
        contexts_string_of(&self.pop_contexts)
    }
}

impl AsmImmediateValue {
    pub fn new(value: u64) -> (r: AsmImmediateValue)
        ensures
            r@ == (ImmV { value, provs: Seq::empty() }),
    {
        AsmImmediateValue { value, pop_contexts: Vec::new() }
    }

    /// Whether an expression is a constant whose numeral this operand can hold.
    pub open spec fn expression_ok(expr: &Expression) -> bool {
        match expr.expr_item {
            ExpressionVariant::Constant(ref c) => is_dec_numeral(c.value@) && dec_numeral_value(
                c.value@,
            ) <= u64::MAX,
            _ => false,
        }
    }

    pub fn from_expression(expr: Expression) -> (r: AsmImmediateValue)
        requires
            Self::expression_ok(&expr),
        ensures
            r@ == (ImmV {
                value: match expr.expr_item {
                    ExpressionVariant::Constant(c) => dec_numeral_value(c.value@) as u64,
                    _ => 0,
                },
                provs: match expr.pop_context {
                    Some(c) => seq![c],
                    None => Seq::empty(),
                },
            }),
    {
        match expr.expr_item {
            ExpressionVariant::Constant(ref constant) => {
                let value = constant.to_u64().unwrap();
                AsmImmediateValue::new(value).with_added_pop_context(expr.pop_context)
            },
            _ => unreached(),
        }
    }

    pub fn from_statement(statement: Statement) -> (r: AsmImmediateValue)
        requires
            Self::expression_ok(&statement.expression),
        ensures
            r@ == (ImmV {
                value: match statement.expression.expr_item {
                    ExpressionVariant::Constant(c) => dec_numeral_value(c.value@) as u64,
                    _ => 0,
                },
                provs: match statement.expression.pop_context {
                    Some(c) => seq![c],
                    None => Seq::empty(),
                },
            }),
    {
        Self::from_expression(statement.expression)
    }
}

impl AsmSymbol for AsmImmediateValue {
    open spec fn render_req(&self) -> bool {
        true
    }

    open spec fn emits(&self) -> bool {
        true
    }

    open spec fn asm_text(&self) -> Seq<char> {
        operand_text(OperandV::Immediate(self@))
    }

    open spec fn err_shape(&self, e: &AsmGenError) -> bool {
        false
    }

    fn to_asm_code(self) -> (r: Result<String, AsmGenError>) {
        let s = String::from_str("$").concat(u64_to_string(self.value).as_str());
        proof {
            assert(s@ =~= self.asm_text());
        }
        Ok(s)
    }
}

impl AsmSymbol for Register {
    open spec fn render_req(&self) -> bool {
        true
    }

    open spec fn emits(&self) -> bool {
        true
    }

    open spec fn asm_text(&self) -> Seq<char> {
        reg_text(*self)
    }

    open spec fn err_shape(&self, e: &AsmGenError) -> bool {
        false
    }

    fn to_asm_code(self) -> (r: Result<String, AsmGenError>) {
        Ok(String::from_str(register_str(self)))
    }
}

/// An instruction operand.
#[derive(Debug)]
pub enum AsmOperand {
    ImmediateValue(AsmImmediateValue),
    Register(Register),
    Pseudo(PseudoRegister),
    Stack(StackAddress),
}

impl View for AsmOperand {
    type V = OperandV;

    open spec fn view(&self) -> OperandV {
        match self {
            AsmOperand::ImmediateValue(i) => OperandV::Immediate(i@),
            AsmOperand::Register(r) => OperandV::Register(*r),
            AsmOperand::Pseudo(p) => OperandV::Pseudo(p@),
            AsmOperand::Stack(s) => OperandV::Stack(s@),
        }
    }
}

impl Clone for AsmOperand {
    fn clone(&self) -> (r: Self)
        ensures
            r@ == self@,
    {
        match self {
            AsmOperand::ImmediateValue(i) => AsmOperand::ImmediateValue(i.clone()),
            AsmOperand::Register(r) => AsmOperand::Register(*r),
            AsmOperand::Pseudo(p) => AsmOperand::Pseudo(p.clone()),
            AsmOperand::Stack(s) => AsmOperand::Stack(s.clone()),
        }
    }
}

impl AsmSymbol for AsmOperand {
    open spec fn render_req(&self) -> bool {
        true
    }

    open spec fn emits(&self) -> bool {
        operand_emits(self@)
    }

    open spec fn asm_text(&self) -> Seq<char> {
        operand_text(self@)
    }

    open spec fn err_shape(&self, e: &AsmGenError) -> bool {
        e is InvalidInstructionType
    }

    fn to_asm_code(self) -> (r: Result<String, AsmGenError>) {
        match self {
            AsmOperand::ImmediateValue(value) => value.to_asm_code(),
            AsmOperand::Register(register) => register.to_asm_code(),
            AsmOperand::Pseudo(_) => Err(
                AsmGenError::InvalidInstructionType(
                    String::from_str("pseudo register not supported in assembly"),
                ),
            ),
            AsmOperand::Stack(stack_address) => stack_address.to_asm_code(),
        }
    }
}

/// The ghost operand standing for an IR value.
pub open spec fn operand_of_tacky(tv: crate::tacky::TackyValueV) -> OperandV {
    match tv {
        crate::tacky::TackyValueV::Constant { text, prov } => OperandV::Immediate(
            ImmV {
                value: dec_numeral_value(text) as u64,
                provs: match prov {
                    Some(c) => seq![c],
                    None => Seq::empty(),
                },
            },
        ),
        crate::tacky::TackyValueV::Var(v) => OperandV::Pseudo(PseudoRegister::of_tacky_var(v)),
    }
}

/// Whether an IR value can become an operand: a constant must be a numeral
/// that fits the immediate field.
pub open spec fn tacky_value_ok(tv: crate::tacky::TackyValueV) -> bool {
    match tv {
        crate::tacky::TackyValueV::Constant { text, prov } => is_dec_numeral(text)
            && dec_numeral_value(text) <= u64::MAX,
        crate::tacky::TackyValueV::Var(_) => true,
    }
}

impl AsmOperand {
    pub fn is_stack_address(&self) -> (r: bool)
        ensures
            r == (self@ is Stack),
    {
        match self {
            AsmOperand::Stack(_) => true,
            _ => false,
        }
    }

    pub fn is_constant(&self) -> (r: bool)
        ensures
            r == (self@ is Immediate),
    {
        match self {
            AsmOperand::ImmediateValue(_) => true,
            _ => false,
        }
    }

    pub fn from_tacky_value(tacky_value: TackyValue) -> (r: Self)
        requires
            tacky_value_ok(tacky_value@),
        ensures
            r@ == operand_of_tacky(tacky_value@),
    {
        match tacky_value {
            TackyValue::Constant(ast_constant) => {
                let value = ast_constant.to_u64().unwrap();
                AsmOperand::ImmediateValue(
                    AsmImmediateValue::new(value).with_added_pop_context(ast_constant.pop_context),
                )
            },
            TackyValue::Var(tacky_var) => {
                AsmOperand::Pseudo(PseudoRegister::from_tacky_var(tacky_var))
            },
        }
    }
}

impl crate::ledger::ToStackAllocated for AsmOperand {
    open spec fn alloc_result_view(&self, sv: nat, m: Map<u64, u64>) -> OperandV {
        alloc_operand(self@, sv, m).0
    }

    open spec fn alloc_new_sv(&self, sv: nat, m: Map<u64, u64>) -> nat {
        alloc_operand(self@, sv, m).1
    }

    open spec fn alloc_new_binds(&self, sv: nat, m: Map<u64, u64>) -> Map<u64, u64> {
        alloc_operand(self@, sv, m).2
    }

    fn to_stack_allocated<M: DiffableHashMap>(&self, stack_value: u64, allocations: &M) -> (r: (
        Self,
        StackAllocationResult,
    )) {
        match self {
            AsmOperand::Pseudo(pseudo_register) => {
                let (stack_address, already_allocated) = StackAddress::from_pseudo_register(
                    pseudo_register,
                    stack_value,
                    4,
                    allocations,
                );
                let mut new_stack_value = stack_value;
                let mut new_allocations = AppendOnlyHashMap::new();
                if !already_allocated {
                    new_stack_value = stack_value + 4;
                    let res = new_allocations.insert(pseudo_register.id, stack_value);
                    proof {
                        assert(res is Ok);
                    }
                }
                let new_instruction = AsmOperand::Stack(stack_address);
                (
                    new_instruction,
                    StackAllocationResult::new_with_allocations(new_stack_value, new_allocations),
                )
            },
            other => (other.clone(), StackAllocationResult::new(stack_value)),
        }
    }
}

/// The ghost shape of a backend instruction.
pub ghost enum AsmInstrV {
    Mov { src: OperandV, dst: OperandV },
    Unary { operator: SupportedUnaryOperators, dst: OperandV },
    Binary {
        operator: crate::binary_instruction::AsmDirectBinaryOperators,
        src: OperandV,
        dst: OperandV,
    },
    Compare { left: OperandV, right: OperandV },
    SetConditional { dst: OperandV, condition: crate::cmp_instruction::ConditionalCompareTypes },
    IntegerDivision { operand: OperandV },
    SignExtension,
    AllocateStack(StackV),
    Ret,
}

/// An operand-level allocation step never rebinds a key that is already
/// bound, and never lowers the next free offset.
pub proof fn lemma_alloc_operand_fresh(v: OperandV, sv: nat, m: Map<u64, u64>)
    ensures
        crate::ledger::disjoint_doms(m, alloc_operand(v, sv, m).2),
        alloc_operand(v, sv, m).1 >= sv,
        alloc_operand(v, sv, m).1 <= sv + 4,
{
    match v {
        OperandV::Pseudo(p) => {
            if !m.contains_key(p.id) {
                assert forall|k: u64| #[trigger] m.contains_key(k) implies !alloc_operand(
                    v,
                    sv,
                    m,
                ).2.contains_key(k) by {
                    assert(k != p.id);
                }
            }
        },
        _ => {},
    }
}

/// Allocates two operands left to right through one shared overlay, the
/// second operand reading the first one's fresh bindings.
pub fn alloc_pair<M: DiffableHashMap>(
    a: &AsmOperand,
    b: &AsmOperand,
    stack_value: u64,
    allocations: &M,
) -> (r: (AsmOperand, AsmOperand, u64, AppendOnlyHashMap))
    requires
        allocations.inv(),
        alloc_two(a@, b@, stack_value as nat, allocations.contents()).2 <= u64::MAX as nat,
    ensures
        ({
            let t = alloc_two(a@, b@, stack_value as nat, allocations.contents());
            r.0@ == t.0 && r.1@ == t.1 && r.2 as nat == t.2 && r.3@ == t.3 && r.3.wf()
        }),
{
    let ghost m = allocations.contents();
    let ghost s1 = alloc_operand(a@, stack_value as nat, m);
    let ghost s2 = alloc_operand(b@, s1.1, m.union_prefer_right(s1.2));
    proof {
        lemma_alloc_operand_fresh(a@, stack_value as nat, m);
        lemma_alloc_operand_fresh(b@, s1.1, m.union_prefer_right(s1.2));
    }
    let mut alloc_buffer = crate::ledger::BufferedHashMap::new(allocations);
    let (a2, r1) = a.to_stack_allocated(stack_value, &alloc_buffer);
    let res1 = alloc_buffer.apply_changes(&r1.new_stack_allocations);
    proof {
        assert(res1 is Ok);
    }
    let (b2, r2) = b.to_stack_allocated(r1.new_stack_value, &alloc_buffer);
    proof {
        assert(crate::ledger::disjoint_doms(alloc_buffer@, r2.new_stack_allocations@)) by {
            assert forall|k: u64| #[trigger] alloc_buffer@.contains_key(k) implies !r2
                .new_stack_allocations@.contains_key(k) by {}
        }
    }
    let res2 = alloc_buffer.apply_changes(&r2.new_stack_allocations);
    proof {
        assert(res2 is Ok);
    }
    let changes = alloc_buffer.build_changes();
    proof {
        assert(changes@ =~= s1.2.union_prefer_right(s2.2));
    }
    (a2, b2, r2.new_stack_value, changes)
}

/// The lines of the sign-extension step.
pub open spec fn sign_extension_lines() -> Seq<AsmLine> {
    seq![AsmLine { mnem: "cdq"@, args: Seq::empty() }]
}

/// The lines of the function epilogue and return.
pub open spec fn ret_lines() -> Seq<AsmLine> {
    seq![
        AsmLine {
            mnem: "movq"@,
            args: seq![
                LineArg { text: crate::registers::base_reg_text(), is_mem: false },
                LineArg { text: crate::registers::stack_reg_text(), is_mem: false },
            ],
        },
        AsmLine {
            mnem: "popq"@,
            args: seq![LineArg { text: crate::registers::base_reg_text(), is_mem: false }],
        },
        AsmLine { mnem: "ret"@, args: Seq::empty() },
    ]
}

/// The legalized lines of an instruction.
pub open spec fn instr_lines(i: AsmInstrV) -> Seq<AsmLine> {
    match i {
        AsmInstrV::Mov { src, dst } => crate::mov_instruction::mov_lines(src, dst),
        AsmInstrV::Unary { operator, dst } => crate::unary_instruction::unary_lines(operator, dst),
        AsmInstrV::Binary { operator, src, dst } => crate::binary_instruction::binary_lines(
            operator,
            src,
            dst,
        ),
        AsmInstrV::Compare { left, right } => crate::cmp_instruction::cmp_lines(left, right),
        AsmInstrV::SetConditional { dst, condition } => crate::cmp_instruction::setcc_lines(
            condition,
            dst,
        ),
        AsmInstrV::IntegerDivision { operand } => crate::integer_division::idiv_lines(operand),
        AsmInstrV::SignExtension => sign_extension_lines(),
        AsmInstrV::AllocateStack(s) => stack_allocation_lines(s),
        AsmInstrV::Ret => ret_lines(),
    }
}

/// Whether an instruction can be rendered: no operand may still be a
/// pseudo-register, and the operator must have a hardware form.
pub open spec fn instr_emits(i: AsmInstrV) -> bool {
    match i {
        AsmInstrV::Mov { src, dst } => operand_emits(src) && operand_emits(dst),
        AsmInstrV::Unary { operator, dst } => operand_emits(dst)
            && crate::unary_instruction::unary_op_emits(operator),
        AsmInstrV::Binary { operator, src, dst } => operand_emits(src) && operand_emits(dst),
        AsmInstrV::Compare { left, right } => operand_emits(left) && operand_emits(right),
        AsmInstrV::SetConditional { dst, condition } => operand_emits(dst),
        AsmInstrV::IntegerDivision { operand } => operand_emits(operand),
        AsmInstrV::SignExtension => true,
        AsmInstrV::AllocateStack(_) => true,
        AsmInstrV::Ret => true,
    }
}

/// The failure an unrenderable instruction reports.
pub open spec fn instr_err_shape(i: AsmInstrV, e: &AsmGenError) -> bool {
    match i {
        AsmInstrV::Unary { operator, dst } => if !operand_emits(dst) {
            e is InvalidInstructionType
        } else {
            e is UnsupportedInstruction
        },
        _ => e is InvalidInstructionType,
    }
}

/// One backend instruction.
#[derive(Debug)]
pub enum AsmInstruction {
    Mov(crate::mov_instruction::MovInstruction),
    Unary(crate::unary_instruction::AsmUnaryInstruction),
    Binary(crate::binary_instruction::AsmBinaryInstruction),
    Compare(crate::cmp_instruction::AsmCompareInstruction),
    SetConditional(crate::cmp_instruction::AsmSetConditionalInstruction),
    IntegerDivision(crate::integer_division::AsmIntegerDivision),
    SignExtension,
    AllocateStack(StackAllocation),
    Ret,
}

impl View for AsmInstruction {
    type V = AsmInstrV;

    open spec fn view(&self) -> AsmInstrV {
        match self {
            AsmInstruction::Mov(m) => m@,
            AsmInstruction::Unary(u) => u@,
            AsmInstruction::Binary(b) => b@,
            AsmInstruction::Compare(c) => c@,
            AsmInstruction::SetConditional(s) => s@,
            AsmInstruction::IntegerDivision(d) => d@,
            AsmInstruction::SignExtension => AsmInstrV::SignExtension,
            AsmInstruction::AllocateStack(s) => AsmInstrV::AllocateStack(s@),
            AsmInstruction::Ret => AsmInstrV::Ret,
        }
    }
}

impl Clone for AsmInstruction {
    fn clone(&self) -> (r: Self)
        ensures
            r@ == self@,
    {
        match self {
            AsmInstruction::Mov(m) => AsmInstruction::Mov(m.clone()),
            AsmInstruction::Unary(u) => AsmInstruction::Unary(u.clone()),
            AsmInstruction::Binary(b) => AsmInstruction::Binary(b.clone()),
            AsmInstruction::Compare(c) => AsmInstruction::Compare(c.clone()),
            AsmInstruction::SetConditional(s) => AsmInstruction::SetConditional(s.clone()),
            AsmInstruction::IntegerDivision(d) => AsmInstruction::IntegerDivision(d.clone()),
            AsmInstruction::SignExtension => AsmInstruction::SignExtension,
            AsmInstruction::AllocateStack(s) => AsmInstruction::AllocateStack(s.clone()),
            AsmInstruction::Ret => AsmInstruction::Ret,
        }
    }
}

impl AsmSymbol for AsmInstruction {
    open spec fn render_req(&self) -> bool {
        true
    }

    open spec fn emits(&self) -> bool {
        instr_emits(self@)
    }

    open spec fn asm_text(&self) -> Seq<char> {
        block_text(instr_lines(self@))
    }

    open spec fn err_shape(&self, e: &AsmGenError) -> bool {
        instr_err_shape(self@, e)
    }

    fn to_asm_code(self) -> (r: Result<String, AsmGenError>) {
        match self {
            AsmInstruction::Mov(mov_instruction) => mov_instruction.to_asm_code(),
            AsmInstruction::Unary(unary_instruction) => unary_instruction.to_asm_code(),
            AsmInstruction::Binary(binary_instruction) => binary_instruction.to_asm_code(),
            AsmInstruction::Compare(cmp_instruction) => cmp_instruction.to_asm_code(),
            AsmInstruction::SetConditional(set_instruction) => set_instruction.to_asm_code(),
            AsmInstruction::IntegerDivision(int_div_instruction) => {
                int_div_instruction.to_asm_code()
            },
            AsmInstruction::AllocateStack(stack_allocation) => stack_allocation.to_asm_code(),
            AsmInstruction::SignExtension => {
                let s = String::from_str("cdq");
                proof {
                    assert(s@ =~= block_text(sign_extension_lines()));
                }
                Ok(s)
            },
            AsmInstruction::Ret => {
                let mut code = String::from_str("movq %rbp, %rsp\n");
                code.append("popq %rbp\n");
                code.append("ret");
                proof {
                    reveal_strlit("movq %rbp, %rsp\n");
                    reveal_strlit("movq");
                    reveal_strlit("popq %rbp\n");
                    reveal_strlit("popq");
                    reveal_strlit("ret");
                    reveal_strlit("%rbp");
                    reveal_strlit("%rsp");
                    reveal_strlit(" ");
                    reveal_strlit(", ");
                    reveal_strlit("\n");
                    crate::emit::lemma_block3(ret_lines()[0], ret_lines()[1], ret_lines()[2]);
                    assert(code@ =~= block_text(ret_lines()));
                }
                Ok(code)
            },
        }
    }
}

/// One allocation step over an instruction: each contained operand is
/// allocated left to right.
pub open spec fn alloc_instr(i: AsmInstrV, sv: nat, m: Map<u64, u64>) -> (AsmInstrV, nat, Map<
    u64,
    u64,
>) {
    match i {
        AsmInstrV::Mov { src, dst } => {
            let t = alloc_two(src, dst, sv, m);
            (AsmInstrV::Mov { src: t.0, dst: t.1 }, t.2, t.3)
        },
        AsmInstrV::Unary { operator, dst } => {
            let s = alloc_operand(dst, sv, m);
            (AsmInstrV::Unary { operator, dst: s.0 }, s.1, s.2)
        },
        AsmInstrV::Binary { operator, src, dst } => {
            let t = alloc_two(src, dst, sv, m);
            (AsmInstrV::Binary { operator, src: t.0, dst: t.1 }, t.2, t.3)
        },
        AsmInstrV::Compare { left, right } => {
            let t = alloc_two(left, right, sv, m);
            (AsmInstrV::Compare { left: t.0, right: t.1 }, t.2, t.3)
        },
        AsmInstrV::SetConditional { dst, condition } => {
            let s = alloc_operand(dst, sv, m);
            (AsmInstrV::SetConditional { dst: s.0, condition }, s.1, s.2)
        },
        AsmInstrV::IntegerDivision { operand } => {
            let s = alloc_operand(operand, sv, m);
            (AsmInstrV::IntegerDivision { operand: s.0 }, s.1, s.2)
        },
        AsmInstrV::SignExtension => (i, sv, Map::empty()),
        AsmInstrV::AllocateStack(_) => (i, sv, Map::empty()),
        AsmInstrV::Ret => (i, sv, Map::empty()),
    }
}

/// Allocating two operands never rebinds a bound key and never lowers the
/// next free offset.
pub proof fn lemma_alloc_two_fresh(a: OperandV, b: OperandV, sv: nat, m: Map<u64, u64>)
    ensures
        crate::ledger::disjoint_doms(m, alloc_two(a, b, sv, m).3),
        alloc_two(a, b, sv, m).2 >= sv,
        alloc_two(a, b, sv, m).2 <= sv + 8,
{
    let s1 = alloc_operand(a, sv, m);
    let s2 = alloc_operand(b, s1.1, m.union_prefer_right(s1.2));
    lemma_alloc_operand_fresh(a, sv, m);
    lemma_alloc_operand_fresh(b, s1.1, m.union_prefer_right(s1.2));
    assert forall|k: u64| #[trigger] m.contains_key(k) implies !alloc_two(
        a,
        b,
        sv,
        m,
    ).3.contains_key(k) by {
        assert(!s1.2.contains_key(k));
        assert(m.union_prefer_right(s1.2).contains_key(k));
        assert(!s2.2.contains_key(k));
    }
}

/// An instruction-level allocation step never rebinds a bound key and never
/// lowers the next free offset.
pub proof fn lemma_alloc_instr_fresh(i: AsmInstrV, sv: nat, m: Map<u64, u64>)
    ensures
        crate::ledger::disjoint_doms(m, alloc_instr(i, sv, m).2),
        alloc_instr(i, sv, m).1 >= sv,
        alloc_instr(i, sv, m).1 <= sv + 8,
{
    match i {
        AsmInstrV::Mov { src, dst } => lemma_alloc_two_fresh(src, dst, sv, m),
        AsmInstrV::Unary { operator, dst } => lemma_alloc_operand_fresh(dst, sv, m),
        AsmInstrV::Binary { operator, src, dst } => lemma_alloc_two_fresh(src, dst, sv, m),
        AsmInstrV::Compare { left, right } => lemma_alloc_two_fresh(left, right, sv, m),
        AsmInstrV::SetConditional { dst, condition } => lemma_alloc_operand_fresh(dst, sv, m),
        AsmInstrV::IntegerDivision { operand } => lemma_alloc_operand_fresh(operand, sv, m),
        _ => {},
    }
}

impl ToStackAllocated for AsmInstruction {
    open spec fn alloc_result_view(&self, sv: nat, m: Map<u64, u64>) -> AsmInstrV {
        alloc_instr(self@, sv, m).0
    }

    open spec fn alloc_new_sv(&self, sv: nat, m: Map<u64, u64>) -> nat {
        alloc_instr(self@, sv, m).1
    }

    open spec fn alloc_new_binds(&self, sv: nat, m: Map<u64, u64>) -> Map<u64, u64> {
        alloc_instr(self@, sv, m).2
    }

    fn to_stack_allocated<M: DiffableHashMap>(&self, stack_value: u64, allocations: &M) -> (r: (
        Self,
        StackAllocationResult,
    )) {
        match self {
            AsmInstruction::Mov(mov_instruction) => {
                let (new_mov_instruction, alloc_result) = mov_instruction.to_stack_allocated(
                    stack_value,
                    allocations,
                );
                (AsmInstruction::Mov(new_mov_instruction), alloc_result)
            },
            AsmInstruction::Unary(unary_instruction) => {
                let (new_unary_instruction, alloc_result) = unary_instruction.to_stack_allocated(
                    stack_value,
                    allocations,
                );
                (AsmInstruction::Unary(new_unary_instruction), alloc_result)
            },
            AsmInstruction::Binary(binary_instruction) => {
                let (new_binary_instruction, alloc_result) = binary_instruction.to_stack_allocated(
                    stack_value,
                    allocations,
                );
                (AsmInstruction::Binary(new_binary_instruction), alloc_result)
            },
            AsmInstruction::Compare(cmp_instruction) => {
                let (new_cmp_instruction, alloc_result) = cmp_instruction.to_stack_allocated(
                    stack_value,
                    allocations,
                );
                (AsmInstruction::Compare(new_cmp_instruction), alloc_result)
            },
            AsmInstruction::SetConditional(set_instruction) => {
                let (new_set_instruction, alloc_result) = set_instruction.to_stack_allocated(
                    stack_value,
                    allocations,
                );
                (AsmInstruction::SetConditional(new_set_instruction), alloc_result)
            },
            AsmInstruction::IntegerDivision(int_div_instruction) => {
                let (new_int_div_instruction, alloc_result) = int_div_instruction
                    .to_stack_allocated(stack_value, allocations);
                (AsmInstruction::IntegerDivision(new_int_div_instruction), alloc_result)
            },
            AsmInstruction::AllocateStack(stack_allocation) => {
                (
                    AsmInstruction::AllocateStack(stack_allocation.clone()),
                    StackAllocationResult::new(stack_value),
                )
            },
            AsmInstruction::SignExtension => {
                (AsmInstruction::SignExtension, StackAllocationResult::new(stack_value))
            },
            AsmInstruction::Ret => (AsmInstruction::Ret, StackAllocationResult::new(stack_value)),
        }
    }
}

/// The mnemonics and punctuation of emitted lines hold no carriage return.
proof fn lemma_no_cr_pieces()
    ensures
        crate::emit::no_cr("movl"@),
        crate::emit::no_cr("mov"@),
        crate::emit::no_cr("addl"@),
        crate::emit::no_cr("subl"@),
        crate::emit::no_cr("imull"@),
        crate::emit::no_cr("cmpl"@),
        crate::emit::no_cr("idivl"@),
        crate::emit::no_cr("negl"@),
        crate::emit::no_cr("notl"@),
        crate::emit::no_cr("sete"@),
        crate::emit::no_cr("setne"@),
        crate::emit::no_cr("setg"@),
        crate::emit::no_cr("setge"@),
        crate::emit::no_cr("setl"@),
        crate::emit::no_cr("setle"@),
        crate::emit::no_cr("cdq"@),
        crate::emit::no_cr("movq"@),
        crate::emit::no_cr("popq"@),
        crate::emit::no_cr("ret"@),
        crate::emit::no_cr("subq"@),
        crate::emit::no_cr("$"@),
        crate::emit::no_cr("-"@),
        crate::emit::no_cr("(%rbp)"@),
        crate::emit::no_cr("%eax"@),
        crate::emit::no_cr("%edx"@),
        crate::emit::no_cr("%r10d"@),
        crate::emit::no_cr("%r11d"@),
        crate::emit::no_cr("%rsp"@),
        crate::emit::no_cr("%rbp"@),
        crate::emit::no_cr(" "@),
        crate::emit::no_cr(", "@),
        crate::emit::no_cr("\n"@),
        crate::emit::no_cr(Seq::<char>::empty()),
{
    reveal_strlit("movl");
    reveal_strlit("mov");
    reveal_strlit("addl");
    reveal_strlit("subl");
    reveal_strlit("imull");
    reveal_strlit("cmpl");
    reveal_strlit("idivl");
    reveal_strlit("negl");
    reveal_strlit("notl");
    reveal_strlit("sete");
    reveal_strlit("setne");
    reveal_strlit("setg");
    reveal_strlit("setge");
    reveal_strlit("setl");
    reveal_strlit("setle");
    reveal_strlit("cdq");
    reveal_strlit("movq");
    reveal_strlit("popq");
    reveal_strlit("ret");
    reveal_strlit("subq");
    reveal_strlit("$");
    reveal_strlit("-");
    reveal_strlit("(%rbp)");
    reveal_strlit("%eax");
    reveal_strlit("%edx");
    reveal_strlit("%r10d");
    reveal_strlit("%r11d");
    reveal_strlit("%rsp");
    reveal_strlit("%rbp");
    reveal_strlit(" ");
    reveal_strlit(", ");
    reveal_strlit("\n");
}

/// An operand's text holds no carriage return.
proof fn lemma_no_cr_operand(v: OperandV)
    ensures
        crate::emit::no_cr(operand_text(v)),
{
    lemma_no_cr_pieces();
    match v {
        OperandV::Immediate(i) => {
            crate::emit::lemma_no_cr_dec(i.value as nat);
            crate::emit::lemma_no_cr_concat("$"@, dec_str(i.value as nat));
        },
        OperandV::Stack(s) => {
            crate::emit::lemma_no_cr_dec(s.offset as nat);
            crate::emit::lemma_no_cr_concat("-"@, dec_str(s.offset as nat));
            crate::emit::lemma_no_cr_concat("-"@ + dec_str(s.offset as nat), "(%rbp)"@);
        },
        _ => {},
    }
}

/// A line's text holds no carriage return when its parts hold none.
proof fn lemma_no_cr_line(l: AsmLine)
    requires
        crate::emit::no_cr(l.mnem),
        forall|j: int| 0 <= j < l.args.len() ==> crate::emit::no_cr((#[trigger] l.args[j]).text),
    ensures
        crate::emit::no_cr(l.text()),
{
    lemma_no_cr_pieces();
    if l.args.len() == 0 {
    } else if l.args.len() == 1 {
        crate::emit::lemma_no_cr_concat(l.mnem, " "@);
        crate::emit::lemma_no_cr_concat(l.mnem + " "@, l.args[0].text);
    } else {
        crate::emit::lemma_no_cr_concat(l.mnem, " "@);
        crate::emit::lemma_no_cr_concat(l.mnem + " "@, l.args[0].text);
        crate::emit::lemma_no_cr_concat(l.mnem + " "@ + l.args[0].text, ", "@);
        crate::emit::lemma_no_cr_concat(l.mnem + " "@ + l.args[0].text + ", "@, l.args[1].text);
    }
}

/// A block's text holds no carriage return when its lines hold none.
proof fn lemma_no_cr_block(lines: Seq<AsmLine>)
    requires
        forall|i: int| 0 <= i < lines.len() ==> crate::emit::no_cr((#[trigger] lines[i]).text()),
    ensures
        crate::emit::no_cr(block_text(lines)),
    decreases lines.len(),
{
    lemma_no_cr_pieces();
    if lines.len() <= 1 {
    } else {
        assert(forall|i: int|
            0 <= i < lines.drop_first().len() ==> crate::emit::no_cr(
                (#[trigger] lines.drop_first()[i]).text(),
            ));
        lemma_no_cr_block(lines.drop_first());
        crate::emit::lemma_no_cr_concat(lines[0].text(), "\n"@);
        crate::emit::lemma_no_cr_concat(lines[0].text() + "\n"@, block_text(lines.drop_first()));
    }
}

/// An instruction's rendered block holds no carriage return.
pub proof fn lemma_no_cr_instr(i: AsmInstrV)
    ensures
        crate::emit::no_cr(block_text(instr_lines(i))),
{
    lemma_no_cr_pieces();
    let lines = instr_lines(i);
    assert forall|j: int| 0 <= j < lines.len() implies crate::emit::no_cr(
        (#[trigger] lines[j]).text(),
    ) by {
        let l = lines[j];
        assert(crate::emit::no_cr(l.mnem) && forall|k: int|
            0 <= k < l.args.len() ==> crate::emit::no_cr((#[trigger] l.args[k]).text)) by {
            lemma_no_cr_pieces();
            assert forall|k: int| 0 <= k < l.args.len() implies crate::emit::no_cr(
                (#[trigger] l.args[k]).text,
            ) by {
                lemma_no_cr_operand(OperandV::Register(Register::EAX));
                lemma_no_cr_operand(OperandV::Register(Register::EDX));
                lemma_no_cr_operand(OperandV::Register(Register::R10D));
                lemma_no_cr_operand(OperandV::Register(Register::R11D));
                match i {
                    AsmInstrV::Mov { src, dst } => {
                        lemma_no_cr_operand(src);
                        lemma_no_cr_operand(dst);
                    },
                    AsmInstrV::Unary { operator, dst } => {
                        lemma_no_cr_operand(dst);
                    },
                    AsmInstrV::Binary { operator, src, dst } => {
                        lemma_no_cr_operand(src);
                        lemma_no_cr_operand(dst);
                    },
                    AsmInstrV::Compare { left, right } => {
                        lemma_no_cr_operand(left);
                        lemma_no_cr_operand(right);
                    },
                    AsmInstrV::SetConditional { dst, condition } => {
                        lemma_no_cr_operand(dst);
                    },
                    AsmInstrV::IntegerDivision { operand } => {
                        lemma_no_cr_operand(operand);
                    },
                    AsmInstrV::AllocateStack(s) => {
                        crate::emit::lemma_no_cr_dec(s.offset as nat);
                        crate::emit::lemma_no_cr_concat("$"@, dec_str(s.offset as nat));
                    },
                    _ => {},
                }
            }
        }
        lemma_no_cr_line(l);
    }
    lemma_no_cr_block(lines);
}

/// The views of a vector of instructions.
pub open spec fn views_of_instrs(s: Seq<AsmInstruction>) -> Seq<AsmInstrV> {
    Seq::new(s.len(), |i: int| s[i]@)
}

/// The expansion of an IR `return`: move the value into the accumulator, then
/// return.
pub open spec fn select_return(v: crate::tacky::TackyValueV) -> Seq<AsmInstrV> {
    seq![
        AsmInstrV::Mov { src: operand_of_tacky(v), dst: OperandV::Register(Register::EAX) },
        AsmInstrV::Ret,
    ]
}

/// The expansion of an IR unary operation: move the source into the
/// destination, then apply the operator in place.
pub open spec fn select_unary(
    operator: SupportedUnaryOperators,
    src: crate::tacky::TackyValueV,
    dst: TackyVarV,
) -> Seq<AsmInstrV> {
    seq![
        AsmInstrV::Mov {
            src: operand_of_tacky(src),
            dst: OperandV::Pseudo(PseudoRegister::of_tacky_var(dst)),
        },
        AsmInstrV::Unary {
            operator,
            dst: OperandV::Pseudo(PseudoRegister::of_tacky_var(dst)),
        },
    ]
}

/// Whether an IR instruction's constants are well-formed numerals.
pub open spec fn instr_values_ok(i: crate::tacky::TackyInstrV) -> bool {
    match i {
        crate::tacky::TackyInstrV::Return(v) => tacky_value_ok(v),
        crate::tacky::TackyInstrV::Unary { operator, src, dst, prov } => tacky_value_ok(src),
        crate::tacky::TackyInstrV::Binary { operator, left, right, dst, prov } => tacky_value_ok(
            left,
        ) && tacky_value_ok(right),
        _ => true,
    }
}

/// Whether the selector implements an IR instruction.
pub open spec fn instr_selectable(i: crate::tacky::TackyInstrV) -> bool {
    match i {
        crate::tacky::TackyInstrV::Return(_) => true,
        crate::tacky::TackyInstrV::Unary { .. } => true,
        crate::tacky::TackyInstrV::Binary { operator, .. } => {
            ||| crate::binary_instruction::DivisionOutputs::from_binary_operator_spec(operator)
                is Some
            ||| crate::cmp_instruction::ConditionalCompareTypes::convert_from_spec(operator) is Some
            ||| crate::binary_instruction::AsmDirectBinaryOperators::from_supported_spec(operator)
                is Some
        },
        _ => false,
    }
}

/// The backend instructions an IR instruction expands to.
pub open spec fn select_instr(i: crate::tacky::TackyInstrV) -> Seq<AsmInstrV> {
    match i {
        crate::tacky::TackyInstrV::Return(v) => select_return(v),
        crate::tacky::TackyInstrV::Unary { operator, src, dst, prov } => select_unary(
            operator,
            src,
            dst,
        ),
        crate::tacky::TackyInstrV::Binary { operator, left, right, dst, prov } => {
            crate::binary_instruction::select_binary(operator, left, right, dst)
        },
        _ => Seq::empty(),
    }
}

impl AsmInstruction {
    /// Expands one IR instruction into the backend instructions it stands
    /// for; an instruction shape the selector does not implement is an
    /// unsupported construct.
    pub fn from_tacky_instruction(tacky_instruction: crate::tacky::TackyInstruction) -> (r: Result<
        Vec<AsmInstruction>,
        AsmGenError,
    >)
        requires
            instr_values_ok(tacky_instruction@),
        ensures
            match r {
                Ok(instrs) => instr_selectable(tacky_instruction@) && views_of_instrs(instrs@)
                    == select_instr(tacky_instruction@),
                Err(e) => !instr_selectable(tacky_instruction@) && e is UnsupportedInstruction,
            },
    {
        let ghost tv = tacky_instruction@;
        match tacky_instruction {
            crate::tacky::TackyInstruction::Return(tacky_value) => {
                let src_operand = AsmOperand::from_tacky_value(tacky_value);
                let dst_operand = AsmOperand::Register(Register::EAX);
                let mov_instruction = crate::mov_instruction::MovInstruction::new(
                    src_operand,
                    dst_operand,
                );
                let mut r: Vec<AsmInstruction> = Vec::new();
                r.push(AsmInstruction::Mov(mov_instruction));
                r.push(AsmInstruction::Ret);
                proof {
                    assert(views_of_instrs(r@) =~= select_instr(tv));
                }
                Ok(r)
            },
            crate::tacky::TackyInstruction::UnaryInstruction(unary_instruction) => {
                let src_operand = AsmOperand::from_tacky_value(unary_instruction.src);
                let dst_operand = AsmOperand::Pseudo(
                    PseudoRegister::from_tacky_var(unary_instruction.dst),
                );
                let asm_mov_instruction = crate::mov_instruction::MovInstruction::new(
                    src_operand,
                    dst_operand.clone(),
                );
                let asm_unary_instruction = crate::unary_instruction::AsmUnaryInstruction {
                    operator: unary_instruction.operator,
                    destination: dst_operand,
                };
                let mut r: Vec<AsmInstruction> = Vec::new();
                r.push(AsmInstruction::Mov(asm_mov_instruction));
                r.push(AsmInstruction::Unary(asm_unary_instruction));
                proof {
                    assert(views_of_instrs(r@) =~= select_instr(tv));
                }
                Ok(r)
            },
            crate::tacky::TackyInstruction::BinaryInstruction(binary_instruction) => {
                crate::binary_instruction::AsmBinaryInstruction::unpack_from_tacky(
                    binary_instruction,
                )
            },
            _ => Err(
                AsmGenError::UnsupportedInstruction(
                    String::from_str("unsupported IR instruction shape"),
                ),
            ),
        }
    }
}

/// Whether every instruction of an IR list carries well-formed constants.
pub open spec fn list_values_ok(instrs: Seq<crate::tacky::TackyInstrV>) -> bool {
    forall|i: int| 0 <= i < instrs.len() ==> instr_values_ok(#[trigger] instrs[i])
}

/// Whether the selector implements every instruction of an IR list.
pub open spec fn list_selectable(instrs: Seq<crate::tacky::TackyInstrV>) -> bool {
    forall|i: int| 0 <= i < instrs.len() ==> instr_selectable(#[trigger] instrs[i])
}

/// The backend instructions an IR list expands to, in order.
pub open spec fn select_list(instrs: Seq<crate::tacky::TackyInstrV>) -> Seq<AsmInstrV>
    decreases instrs.len(),
{
    if instrs.len() == 0 {
        Seq::empty()
    } else {
        select_list(instrs.drop_last()) + select_instr(instrs.last())
    }
}

/// The ghost shape of an assembly function.
pub ghost struct AsmFunctionV {
    pub name: Seq<char>,
    pub instructions: Seq<AsmInstrV>,
    pub provs: Seq<PoppedTokenContext>,
}

/// The allocation pass over an instruction list: instructions are rewritten
/// top to bottom, each reading the bindings its predecessors discovered, and
/// the next free offset threads through the whole list.
pub open spec fn alloc_instr_list(s: Seq<AsmInstrV>, sv: nat, m: Map<u64, u64>) -> (
    Seq<AsmInstrV>,
    nat,
    Map<u64, u64>,
)
    decreases s.len(),
{
    if s.len() == 0 {
        (Seq::empty(), sv, Map::empty())
    } else {
        let t = alloc_instr_list(s.drop_last(), sv, m);
        let h = alloc_instr(s.last(), t.1, m.union_prefer_right(t.2));
        (t.0.push(h.0), h.1, t.2.union_prefer_right(h.2))
    }
}

/// The list-level pass never rebinds a bound key and never lowers the next
/// free offset.
pub proof fn lemma_alloc_instr_list_fresh(s: Seq<AsmInstrV>, sv: nat, m: Map<u64, u64>)
    ensures
        crate::ledger::disjoint_doms(m, alloc_instr_list(s, sv, m).2),
        alloc_instr_list(s, sv, m).1 >= sv,
    decreases s.len(),
{
    if s.len() > 0 {
        let t = alloc_instr_list(s.drop_last(), sv, m);
        lemma_alloc_instr_list_fresh(s.drop_last(), sv, m);
        lemma_alloc_instr_fresh(s.last(), t.1, m.union_prefer_right(t.2));
        assert forall|k: u64| #[trigger] m.contains_key(k) implies !alloc_instr_list(
            s,
            sv,
            m,
        ).2.contains_key(k) by {
            assert(!t.2.contains_key(k));
            assert(m.union_prefer_right(t.2).contains_key(k));
        }
    }
}

/// Each step of the list-level pass only raises the next free offset.
pub proof fn lemma_alloc_list_prefix(s: Seq<AsmInstrV>, sv: nat, m: Map<u64, u64>, k: int)
    requires
        0 <= k <= s.len(),
    ensures
        alloc_instr_list(s.take(k), sv, m).1 <= alloc_instr_list(s, sv, m).1,
    decreases s.len() - k,
{
    if k == s.len() {
        assert(s.take(k) == s);
    } else {
        lemma_alloc_list_prefix(s, sv, m, k + 1);
        assert(s.take(k + 1).drop_last() == s.take(k));
        assert(s.take(k + 1).last() == s[k]);
        let t = alloc_instr_list(s.take(k), sv, m);
        lemma_alloc_instr_fresh(s[k], t.1, m.union_prefer_right(t.2));
    }
}

/// A function: its name, its instruction list, and its provenance.
#[derive(Debug)]
pub struct AsmFunction {
    pub name: String,
    pub instructions: Vec<AsmInstruction>,
    pub pop_contexts: Vec<PoppedTokenContext>,
}

impl View for AsmFunction {
    type V = AsmFunctionV;

    open spec fn view(&self) -> AsmFunctionV {
        AsmFunctionV {
            name: self.name@,
            instructions: Seq::new(self.instructions@.len(), |i: int| self.instructions@[i]@),
            provs: self.pop_contexts@,
        }
    }
}

impl Clone for AsmFunction {
    fn clone(&self) -> (r: Self)
        ensures
            r@ == self@,
    {
        let n = self.instructions.len();
        let mut instructions: Vec<AsmInstruction> = Vec::new();
        let mut i: usize = 0;
        while i < n
            invariant
                n == self.instructions.len(),
                0 <= i <= n,
                instructions@.len() == i,
                forall|j: int| 0 <= j < i ==> instructions@[j]@ == self@.instructions[j],
            decreases n - i,
        {
            instructions.push(self.instructions[i].clone());
            i = i + 1;
        }
        let r = AsmFunction {
            name: self.name.clone(),
            instructions,
            pop_contexts: self.pop_contexts.clone(),
        };
        proof {
            assert(r@.instructions =~= self@.instructions);
            assert(r@ =~= self@);
        }
        r
    }
}

impl HasPopContexts for AsmFunction {
    open spec fn provs(&self) -> Seq<PoppedTokenContext> {
        self.pop_contexts@
    }

    open spec fn same_but_provs(&self, other: &Self) -> bool {
        self@.name == other@.name && self@.instructions == other@.instructions
    }

    fn _get_pop_contexts(&self) -> (r: &Vec<PoppedTokenContext>) {
        &self.pop_contexts
    }

    fn _add_pop_context(&mut self, pop_context: PoppedTokenContext) {
        self.pop_contexts.push(pop_context);
        proof {
            assert(self@.instructions =~= old(self)@.instructions);
        }
    }

    fn _add_pop_context_opt(&mut self, pop_context: Option<PoppedTokenContext>) {
        if let Some(pop_context) = pop_context {
            self._add_pop_context(pop_context);
        }
    }

    fn with_added_pop_context(self, pop_context: Option<PoppedTokenContext>) -> (r: Self) {
        let mut new = self;
        new._add_pop_context_opt(pop_context);
        new
    }

    fn contexts_to_string(&self) -> (r: String) {
        contexts_string_of(&self.pop_contexts)
    }
}

impl AsmFunction {
    pub fn new(name: String) -> (r: AsmFunction)
        ensures
            r@ == (AsmFunctionV { name: name@, instructions: Seq::empty(), provs: Seq::empty() }),
    {
        let r = AsmFunction { name, instructions: Vec::new(), pop_contexts: Vec::new() };
        proof {
            assert(r@.instructions =~= Seq::<AsmInstrV>::empty());
        }
        r
    }

    pub fn add_instruction(&mut self, instruction: AsmInstruction)
        ensures
            final(self)@ == (AsmFunctionV {
                instructions: old(self)@.instructions.push(instruction@),
                ..old(self)@
            }),
    {
        self.instructions.push(instruction);
        proof {
            assert(self@.instructions =~= old(self)@.instructions.push(instruction@));
        }
    }

    /// Replaces the function's instruction list.
    pub fn add_instructions(self, instructions: Vec<AsmInstruction>) -> (r: AsmFunction)
        ensures
            r@ == (AsmFunctionV {
                instructions: Seq::new(instructions@.len(), |i: int| instructions@[i]@),
                ..self@
            }),
    {
        let mut new = self;
        new.instructions = instructions;
        new
    }
}

impl AsmFunction {
    /// Expands a whole IR function, instruction by instruction, in order.
    pub fn from_tacky_function(tacky_function: crate::tacky::TackyFunction) -> (r: Result<
        AsmFunction,
        AsmGenError,
    >)
        requires
            list_values_ok(tacky_function@.instructions),
        ensures
            match r {
                Ok(f) => list_selectable(tacky_function@.instructions) && f@ == (AsmFunctionV {
                    name: tacky_function@.name,
                    instructions: select_list(tacky_function@.instructions),
                    provs: Seq::empty(),
                }),
                Err(e) => !list_selectable(tacky_function@.instructions) && e
                    is UnsupportedInstruction,
            },
    {
        let ghost tvs = tacky_function@.instructions;
        let mut asm_function = AsmFunction::new(tacky_function.name_to_string());
        let n = tacky_function.instructions.len();
        let mut i: usize = 0;
        while i < n
            invariant
                n == tacky_function.instructions.len(),
                0 <= i <= n,
                tvs == tacky_function@.instructions,
                list_values_ok(tvs),
                asm_function@.name == tacky_function@.name,
                asm_function@.provs == Seq::<PoppedTokenContext>::empty(),
                asm_function@.instructions == select_list(tvs.take(i as int)),
                forall|j: int| 0 <= j < i ==> instr_selectable(#[trigger] tvs[j]),
            decreases n - i,
        {
            let tacky_instruction = tacky_function.instructions[i].clone();
            proof {
                assert(tacky_instruction@ == tvs[i as int]);
            }
            let asm_instructions = match AsmInstruction::from_tacky_instruction(tacky_instruction) {
                Ok(instrs) => instrs,
                Err(e) => {
                    return Err(e);
                },
            };
            let m = asm_instructions.len();
            let mut k: usize = 0;
            while k < m
                invariant
                    m == asm_instructions.len(),
                    0 <= k <= m,
                    views_of_instrs(asm_instructions@) == select_instr(tvs[i as int]),
                    asm_function@.name == tacky_function@.name,
                    asm_function@.provs == Seq::<PoppedTokenContext>::empty(),
                    asm_function@.instructions == select_list(tvs.take(i as int)) + views_of_instrs(
                        asm_instructions@,
                    ).take(k as int),
                decreases m - k,
            {
                asm_function.add_instruction(asm_instructions[k].clone());
                proof {
                    assert(views_of_instrs(asm_instructions@).take(k as int + 1) =~= views_of_instrs(
                        asm_instructions@,
                    ).take(k as int).push(asm_instructions@[k as int]@));
                    assert(asm_function@.instructions =~= select_list(tvs.take(i as int))
                        + views_of_instrs(asm_instructions@).take(k as int + 1));
                }
                k = k + 1;
            }
            proof {
                assert(views_of_instrs(asm_instructions@).take(m as int) == views_of_instrs(
                    asm_instructions@,
                ));
                assert(tvs.take(i as int + 1).drop_last() == tvs.take(i as int));
                assert(tvs.take(i as int + 1).last() == tvs[i as int]);
                assert(asm_function@.instructions =~= select_list(tvs.take(i as int + 1)));
            }
            i = i + 1;
        }
        proof {
            assert(tvs.take(n as int) == tvs);
        }
        Ok(asm_function)
    }
}

impl AsmProgram {
    /// Expands a whole IR program.
    pub fn from_tacky_program(tacky_program: crate::tacky::TackyProgram) -> (r: Result<
        AsmProgram,
        AsmGenError,
    >)
        requires
            list_values_ok(tacky_program@.function.instructions),
        ensures
            match r {
                Ok(p) => list_selectable(tacky_program@.function.instructions) && p@
                    == (AsmProgramV {
                    function: AsmFunctionV {
                        name: tacky_program@.function.name,
                        instructions: select_list(tacky_program@.function.instructions),
                        provs: Seq::empty(),
                    },
                }),
                Err(e) => !list_selectable(tacky_program@.function.instructions) && e
                    is UnsupportedInstruction,
            },
    {
        match AsmFunction::from_tacky_function(tacky_program.function) {
            Ok(f) => Ok(AsmProgram::new(f)),
            Err(e) => Err(e),
        }
    }
}

/// The body of a function as text: each instruction's block, indented, one
/// per line group.
pub open spec fn fn_body_text(instrs: Seq<AsmInstrV>) -> Seq<char>
    decreases instrs.len(),
{
    if instrs.len() == 0 {
        Seq::empty()
    } else {
        fn_body_text(instrs.drop_last()) + crate::emit::indent_all(
            crate::registers::tab_text(),
            block_text(instr_lines(instrs.last())),
        ) + "\n"@
    }
}

/// A whole function as text: directive, diagnostics, label, prologue, body.
pub open spec fn fn_text(f: AsmFunctionV) -> Seq<char> {
    crate::registers::tab_text() + ".globl "@ + f.name + contexts_text(f.provs) + f.name + ":\n"@
        + crate::registers::tab_text() + "pushq %rbp\n"@ + crate::registers::tab_text()
        + "movq %rsp, %rbp\n"@ + fn_body_text(f.instructions)
}

/// Whether every instruction of a function can be rendered.
pub open spec fn fn_emits(f: AsmFunctionV) -> bool {
    forall|i: int| 0 <= i < f.instructions.len() ==> instr_emits(#[trigger] f.instructions[i])
}

/// The failure of the first instruction that cannot be rendered.
pub open spec fn fn_err_shape(f: AsmFunctionV, e: &AsmGenError) -> bool {
    exists|i: int|
        0 <= i < f.instructions.len() && !instr_emits(#[trigger] f.instructions[i])
            && instr_err_shape(f.instructions[i], e)
}

impl AsmSymbol for AsmFunction {
    open spec fn render_req(&self) -> bool {
        true
    }

    open spec fn emits(&self) -> bool {
        fn_emits(self@)
    }

    open spec fn asm_text(&self) -> Seq<char> {
        fn_text(self@)
    }

    open spec fn err_shape(&self, e: &AsmGenError) -> bool {
        fn_err_shape(self@, e)
    }

    fn to_asm_code(self) -> (r: Result<String, AsmGenError>) {
        let ghost fv = self@;
        let mut code = String::from_str("    .globl ");
        code.append(self.name.as_str());
        code.append(self.contexts_to_string().as_str());
        code.append(self.name.as_str());
        code.append(":\n");
        code.append("    pushq %rbp\n");
        code.append("    movq %rsp, %rbp\n");
        proof {
            reveal_strlit("    .globl ");
            reveal_strlit("    ");
            reveal_strlit(".globl ");
            reveal_strlit(":\n");
            reveal_strlit("    pushq %rbp\n");
            reveal_strlit("pushq %rbp\n");
            reveal_strlit("    movq %rsp, %rbp\n");
            reveal_strlit("movq %rsp, %rbp\n");
            assert(code@ =~= crate::registers::tab_text() + ".globl "@ + fv.name + contexts_text(
                fv.provs,
            ) + fv.name + ":\n"@ + crate::registers::tab_text() + "pushq %rbp\n"@
                + crate::registers::tab_text() + "movq %rsp, %rbp\n"@);
        }
        let ghost header = code@;
        let n = self.instructions.len();
        let mut i: usize = 0;
        while i < n
            invariant
                n == self.instructions.len(),
                0 <= i <= n,
                fv == self@,
                header == fn_text(AsmFunctionV { instructions: Seq::empty(), ..fv }),
                code@ == header + fn_body_text(fv.instructions.take(i as int)),
                forall|j: int| 0 <= j < i ==> instr_emits(#[trigger] fv.instructions[j]),
            decreases n - i,
        {
            let instruction = self.instructions[i].clone();
            let ghost iv = instruction@;
            proof {
                assert(iv == fv.instructions[i as int]);
            }
            match instruction.to_asm_code() {
                Ok(inner_code) => {
                    proof {
                        lemma_no_cr_instr(iv);
                    }
                    let indented_inner_code = crate::emit::indent_all_with(
                        crate::registers::tab_str(),
                        inner_code.as_str(),
                    );
                    code.append(indented_inner_code.as_str());
                    code.append("\n");
                    proof {
                        reveal_strlit("\n");
                        assert(fv.instructions.take(i as int + 1).drop_last() == fv.instructions
                            .take(i as int));
                        assert(fv.instructions.take(i as int + 1).last() == fv.instructions[i as int]);
                        assert(code@ =~= header + fn_body_text(fv.instructions.take(i as int + 1)));
                    }
                },
                Err(e) => {
                    proof {
                        assert(!instr_emits(fv.instructions[i as int]));
                        assert(instr_err_shape(fv.instructions[i as int], &e));
                    }
                    return Err(e);
                },
            }
            i = i + 1;
        }
        proof {
            assert(fv.instructions.take(n as int) == fv.instructions);
            assert(code@ =~= fn_text(fv));
        }
        Ok(code)
    }
}

impl ToStackAllocated for AsmFunction {
    open spec fn alloc_result_view(&self, sv: nat, m: Map<u64, u64>) -> AsmFunctionV {
        AsmFunctionV {
            instructions: alloc_instr_list(self@.instructions, sv, m).0,
            ..self@
        }
    }

    open spec fn alloc_new_sv(&self, sv: nat, m: Map<u64, u64>) -> nat {
        alloc_instr_list(self@.instructions, sv, m).1
    }

    open spec fn alloc_new_binds(&self, sv: nat, m: Map<u64, u64>) -> Map<u64, u64> {
        alloc_instr_list(self@.instructions, sv, m).2
    }

    fn to_stack_allocated<M: DiffableHashMap>(&self, stack_value: u64, allocations: &M) -> (r: (
        Self,
        StackAllocationResult,
    )) {
        let ghost m0 = allocations.contents();
        let ghost fv = self@;
        let mut alloc_buffer = crate::ledger::BufferedHashMap::new(allocations);
        proof {
            assert(alloc_buffer@ =~= m0.union_prefer_right(Map::empty()));
            assert(Seq::new(0, |j: int| fv.instructions[j]) =~= fv.instructions.take(0));
        }
        let mut new_instructions: Vec<AsmInstruction> = Vec::new();
        let mut new_stack_value = stack_value;
        let n = self.instructions.len();
        let mut i: usize = 0;
        while i < n
            invariant
                n == self.instructions.len(),
                0 <= i <= n,
                fv == self@,
                allocations.inv(),
                m0 == allocations.contents(),
                alloc_instr_list(fv.instructions, stack_value as nat, m0).1 <= u64::MAX as nat,
                alloc_buffer.wf(),
                alloc_buffer.base_view() == m0,
                ({
                    let t = alloc_instr_list(fv.instructions.take(i as int), stack_value as nat, m0);
                    &&& new_stack_value as nat == t.1
                    &&& alloc_buffer.buffer_view() == t.2
                    &&& alloc_buffer@ == m0.union_prefer_right(t.2)
                    &&& new_instructions@.len() == i
                    &&& Seq::new(new_instructions@.len(), |j: int| new_instructions@[j]@) == t.0
                }),
            decreases n - i,
        {
            let ghost t = alloc_instr_list(fv.instructions.take(i as int), stack_value as nat, m0);
            proof {
                assert(fv.instructions.take(i as int + 1).drop_last() == fv.instructions.take(
                    i as int,
                ));
                assert(fv.instructions.take(i as int + 1).last() == fv.instructions[i as int]);
                lemma_alloc_list_prefix(fv.instructions, stack_value as nat, m0, i as int + 1);
                lemma_alloc_instr_fresh(
                    fv.instructions[i as int],
                    t.1,
                    m0.union_prefer_right(t.2),
                );
            }
            let instruction = &self.instructions[i];
            let (new_instruction, instruction_alloc_result) = instruction.to_stack_allocated(
                new_stack_value,
                &alloc_buffer,
            );
            new_instructions.push(new_instruction);
            new_stack_value = instruction_alloc_result.new_stack_value;
            let res = alloc_buffer.apply_changes(&instruction_alloc_result.new_stack_allocations);
            proof {
                assert(res is Ok);
                let t2 = alloc_instr_list(
                    fv.instructions.take(i as int + 1),
                    stack_value as nat,
                    m0,
                );
                assert(alloc_buffer.buffer_view() =~= t2.2);
                assert(alloc_buffer@ =~= m0.union_prefer_right(t2.2));
                assert(Seq::new(new_instructions@.len(), |j: int| new_instructions@[j]@) =~= t2.0);
            }
            i = i + 1;
        }
        let new_function = AsmFunction {
            name: self.name.clone(),
            instructions: new_instructions,
            pop_contexts: self.pop_contexts.clone(),
        };
        let new_stack_allocations = alloc_buffer.build_changes();
        let func_alloc_result = StackAllocationResult::new_with_allocations(
            new_stack_value,
            new_stack_allocations,
        );
        proof {
            assert(fv.instructions.take(n as int) == fv.instructions);
            assert(new_function@ =~= (AsmFunctionV {
                instructions: alloc_instr_list(fv.instructions, stack_value as nat, m0).0,
                ..fv
            }));
        }
        (new_function, func_alloc_result)
    }
}

/// The ghost shape of an assembly program.
pub ghost struct AsmProgramV {
    pub function: AsmFunctionV,
}

/// The trailing marker section that marks the stack non-executable.
pub open spec fn trailer_text() -> Seq<char> {
    ".section .note.GNU-stack,\"\",@progbits\n"@
}

/// The function after the whole allocation pass, with the frame-size
/// instruction the prologue consumes put first.
pub open spec fn program_alloc(p: AsmProgramV) -> AsmFunctionV {
    let t = alloc_instr_list(p.function.instructions, 0, Map::empty());
    AsmFunctionV {
        name: p.function.name,
        instructions: seq![
            AsmInstrV::AllocateStack(
                StackV { offset: t.1 as u64, offset_size: 4, provs: Seq::empty(), tacky_var: None },
            ),
        ] + t.0,
        provs: p.function.provs,
    }
}

/// Whether the allocated program fits the machine's offset range.
pub open spec fn program_fits(p: AsmProgramV) -> bool {
    alloc_instr_list(p.function.instructions, 0, Map::empty()).1 <= u64::MAX as nat
}

/// The whole translation unit as text.
pub open spec fn program_text(p: AsmProgramV) -> Seq<char> {
    fn_text(program_alloc(p)) + trailer_text()
}

/// A whole translation unit: exactly one function.
#[derive(Debug)]
pub struct AsmProgram {
    pub function: AsmFunction,
}

impl View for AsmProgram {
    type V = AsmProgramV;

    open spec fn view(&self) -> AsmProgramV {
        AsmProgramV { function: self.function@ }
    }
}

impl Clone for AsmProgram {
    fn clone(&self) -> (r: Self)
        ensures
            r@ == self@,
    {
        AsmProgram { function: self.function.clone() }
    }
}

impl AsmProgram {
    pub fn new(function: AsmFunction) -> (r: AsmProgram)
        ensures
            r@ == (AsmProgramV { function: function@ }),
    {
        AsmProgram { function }
    }

    /// Renders an already-allocated program: the function text and the
    /// non-executable-stack trailer.
    fn _to_asm_code(self) -> (r: Result<String, AsmGenError>)
        ensures
            fn_emits(self@.function) <==> r is Ok,
            match r {
                Ok(s) => s@ == fn_text(self@.function) + trailer_text(),
                Err(e) => fn_err_shape(self@.function, &e),
            },
    {
        let ghost fv = self@.function;
        let mut code = match self.function.to_asm_code() {
            Ok(s) => s,
            Err(e) => {
                return Err(e);
            },
        };
        code.append(".section .note.GNU-stack,\"\",@progbits\n");
        proof {
            assert(code@ =~= fn_text(fv) + trailer_text());
        }
        Ok(code)
    }
}

impl ToStackAllocated for AsmProgram {
    open spec fn alloc_result_view(&self, sv: nat, m: Map<u64, u64>) -> AsmProgramV {
        AsmProgramV {
            function: AsmFunctionV {
                instructions: alloc_instr_list(self@.function.instructions, sv, m).0,
                ..self@.function
            },
        }
    }

    open spec fn alloc_new_sv(&self, sv: nat, m: Map<u64, u64>) -> nat {
        alloc_instr_list(self@.function.instructions, sv, m).1
    }

    open spec fn alloc_new_binds(&self, sv: nat, m: Map<u64, u64>) -> Map<u64, u64> {
        alloc_instr_list(self@.function.instructions, sv, m).2
    }

    fn to_stack_allocated<M: DiffableHashMap>(&self, stack_value: u64, allocations: &M) -> (r: (
        Self,
        StackAllocationResult,
    )) {
        let (new_function, alloc_result) = self.function.to_stack_allocated(
            stack_value,
            allocations,
        );
        let new_program = AsmProgram { function: new_function };
        (new_program, alloc_result)
    }
}

impl AsmSymbol for AsmProgram {
    open spec fn render_req(&self) -> bool {
        program_fits(self@)
    }

    open spec fn emits(&self) -> bool {
        fn_emits(program_alloc(self@))
    }

    open spec fn asm_text(&self) -> Seq<char> {
        program_text(self@)
    }

    open spec fn err_shape(&self, e: &AsmGenError) -> bool {
        fn_err_shape(program_alloc(self@), e)
    }

    fn to_asm_code(self) -> (r: Result<String, AsmGenError>) {
        let ghost pv = self@;
        let stack_alloc_map = AppendOnlyHashMap::new();
        let (stack_allocated_program, alloc_result) = self.to_stack_allocated(0, &stack_alloc_map);
        let frame_size = alloc_result.new_stack_value;
        let mut function = stack_allocated_program.function;
        function.instructions.insert(0, AsmInstruction::AllocateStack(StackAllocation::new(
            frame_size,
            4,
        )));
        let final_program = AsmProgram { function };
        proof {
            assert(final_program@.function =~= program_alloc(pv)) by {
                assert(final_program@.function.instructions =~= program_alloc(pv).instructions);
            }
        }
        final_program._to_asm_code()
    }
}

/// Joining one more line appends a break and that line (for non-empty lists).
proof fn lemma_contexts_joined_push(provs: Seq<PoppedTokenContext>)
    requires
        provs.len() >= 1,
    ensures
        provs.len() == 1 ==> contexts_joined(provs) == context_line_text(provs[0]),
        provs.len() > 1 ==> contexts_joined(provs) == contexts_joined(provs.drop_last()) + "\n"@
            + context_line_text(provs.last()),
    decreases provs.len(),
{
    if provs.len() > 1 {
        lemma_contexts_joined_push(provs.drop_first());
        assert(provs.drop_first().drop_last() == provs.drop_last().drop_first());
        if provs.len() == 2 {
            assert(provs.drop_last().len() == 1);
            assert(contexts_joined(provs) == context_line_text(provs[0]) + "\n"@ + contexts_joined(
                provs.drop_first(),
            ));
            assert(contexts_joined(provs) =~= contexts_joined(provs.drop_last()) + "\n"@
                + context_line_text(provs.last()));
        } else {
            assert(provs.drop_first().last() == provs.last());
            assert(contexts_joined(provs) =~= contexts_joined(provs.drop_last()) + "\n"@
                + context_line_text(provs.last()));
        }
    }
}

} // verus!
