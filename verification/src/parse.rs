//! The abstract-syntax model the front end hands over: operators, constants,
//! expressions, and the diagnostic provenance that rides along every value.
use vstd::prelude::*;

verus! {

/// A range of token and source positions remembered for diagnostics.
#[derive(Clone, Copy, Debug, PartialEq, Eq, Structural)]
pub struct PoppedTokenContext {
    pub start_token_position: u64,
    pub end_token_position: u64,
    pub start_source_position: u64,
    pub end_source_position: u64,
}

impl PoppedTokenContext {
    pub fn new(
        start_token_position: u64,
        end_token_position: u64,
        start_source_position: u64,
        end_source_position: u64,
    ) -> (r: PoppedTokenContext)
        ensures
            r == (PoppedTokenContext {
                start_token_position,
                end_token_position,
                start_source_position,
                end_source_position,
            }),
    {
        PoppedTokenContext {
            start_token_position,
            end_token_position,
            start_source_position,
            end_source_position,
        }
    }
}

/// Why parsing failed.
#[derive(Clone, Debug)]
pub enum ParseErrorVariants {
    NoMoreTokens(String),
    UnexpectedToken(String),
    UnexpectedExtraTokens(String),
}

/// A parse failure, surfaced unchanged through the later stages.
#[derive(Clone, Debug)]
pub struct ParseError {
    pub variant: ParseErrorVariants,
}

impl ParseError {
    pub fn new_without_stack(variant: ParseErrorVariants) -> (r: ParseError)
        ensures
            r.variant == variant,
    {
        ParseError { variant }
    }
}

/// The operator tokens of the lexical grammar.
#[derive(Clone, Copy, Debug, PartialEq, Eq, Structural)]
pub enum Operators {
    Add,
    Subtract,
    Multiply,
    Divide,
    Modulo,
    BitwiseNot,
    LogicalNot,
    LogicalAnd,
    LogicalOr,
    EqualTo,
    NotEqualTo,
    LessThan,
    LessThanOrEqual,
    GreaterThan,
    GreaterThanOrEqual,
    AssignEqual,
}

/// A function or label name.
#[derive(Clone, Debug, PartialEq)]
pub struct Identifier {
    pub name: String,
}

impl View for Identifier {
    type V = Seq<char>;

    open spec fn view(&self) -> Seq<char> {
        self.name@
    }
}

impl Identifier {
    pub fn new(identifier: String) -> (r: Identifier)
        ensures
            r@ == identifier@,
    {
        Identifier { name: identifier }
    }

    pub fn name_to_string(&self) -> (r: String)
        ensures
            r@ == self@,
    {
        self.name.clone()
    }

    /// A fresh copy with the same name.
    pub fn duplicate(&self) -> (r: Identifier)
        ensures
            r@ == self@,
    {
        Identifier { name: self.name.clone() }
    }
}

#[derive(Clone, Copy, Debug, PartialEq, Eq, Structural)]
pub enum SupportedUnaryOperators {
    Subtract,
    BitwiseNot,
    Not,
}

impl SupportedUnaryOperators {
    /// The unary operator a lexer operator token stands for, if any.
    pub open spec fn from_operator_spec(op: Operators) -> Option<SupportedUnaryOperators> {
        match op {
            Operators::Subtract => Some(SupportedUnaryOperators::Subtract),
            Operators::BitwiseNot => Some(SupportedUnaryOperators::BitwiseNot),
            Operators::LogicalNot => Some(SupportedUnaryOperators::Not),
            _ => None,
        }
    }

    pub fn from_operator(op: Operators) -> (r: Option<SupportedUnaryOperators>)
        ensures
            r == Self::from_operator_spec(op),
    {
        match op {
            Operators::Subtract => Some(SupportedUnaryOperators::Subtract),
            Operators::BitwiseNot => Some(SupportedUnaryOperators::BitwiseNot),
            Operators::LogicalNot => Some(SupportedUnaryOperators::Not),
            _ => None,
        }
    }

    pub fn from_operator_as_result(op: Operators) -> (r: Result<SupportedUnaryOperators, ParseError>)
        ensures
            match r {
                Ok(u) => Self::from_operator_spec(op) == Some(u),
                Err(e) => Self::from_operator_spec(op) is None && e.variant is UnexpectedToken,
            },
    {
        match Self::from_operator(op) {
            Some(supported_op) => Ok(supported_op),
            None => Err(ParseError::new_without_stack(ParseErrorVariants::UnexpectedToken(
                String::from_str("unsupported unary operator"),
            ))),
        }
    }
}

#[derive(Clone, Copy, Debug, PartialEq, Eq, Structural)]
pub enum SupportedBinaryOperators {
    Add,
    Subtract,
    Multiply,
    Divide,
    Modulo,
    And,
    Or,
    CheckEqual,
    NotEqual,
    LessThan,
    LessOrEqual,
    GreaterThan,
    GreaterOrEqual,
    AssignEqual,
}

impl SupportedBinaryOperators {
    /// The binary operator a lexer operator token stands for, if any.
    pub open spec fn from_operator_spec(op: Operators) -> Option<SupportedBinaryOperators> {
        match op {
            Operators::Add => Some(SupportedBinaryOperators::Add),
            Operators::Subtract => Some(SupportedBinaryOperators::Subtract),
            Operators::Multiply => Some(SupportedBinaryOperators::Multiply),
            Operators::Divide => Some(SupportedBinaryOperators::Divide),
            Operators::Modulo => Some(SupportedBinaryOperators::Modulo),
            Operators::LogicalAnd => Some(SupportedBinaryOperators::And),
            Operators::LogicalOr => Some(SupportedBinaryOperators::Or),
            Operators::EqualTo => Some(SupportedBinaryOperators::CheckEqual),
            Operators::NotEqualTo => Some(SupportedBinaryOperators::NotEqual),
            Operators::LessThan => Some(SupportedBinaryOperators::LessThan),
            Operators::LessThanOrEqual => Some(SupportedBinaryOperators::LessOrEqual),
            Operators::GreaterThan => Some(SupportedBinaryOperators::GreaterThan),
            Operators::GreaterThanOrEqual => Some(SupportedBinaryOperators::GreaterOrEqual),
            Operators::AssignEqual => Some(SupportedBinaryOperators::AssignEqual),
            _ => None,
        }
    }

    pub fn from_operator(op: Operators) -> (r: Option<SupportedBinaryOperators>)
        ensures
            r == Self::from_operator_spec(op),
    {
        match op {
            Operators::Add => Some(SupportedBinaryOperators::Add),
            Operators::Subtract => Some(SupportedBinaryOperators::Subtract),
            Operators::Multiply => Some(SupportedBinaryOperators::Multiply),
            Operators::Divide => Some(SupportedBinaryOperators::Divide),
            Operators::Modulo => Some(SupportedBinaryOperators::Modulo),
            Operators::LogicalAnd => Some(SupportedBinaryOperators::And),
            Operators::LogicalOr => Some(SupportedBinaryOperators::Or),
            Operators::EqualTo => Some(SupportedBinaryOperators::CheckEqual),
            Operators::NotEqualTo => Some(SupportedBinaryOperators::NotEqual),
            Operators::LessThan => Some(SupportedBinaryOperators::LessThan),
            Operators::LessThanOrEqual => Some(SupportedBinaryOperators::LessOrEqual),
            Operators::GreaterThan => Some(SupportedBinaryOperators::GreaterThan),
            Operators::GreaterThanOrEqual => Some(SupportedBinaryOperators::GreaterOrEqual),
            Operators::AssignEqual => Some(SupportedBinaryOperators::AssignEqual),
            _ => None,
        }
    }

    pub fn is_short_circuit(&self) -> (r: bool)
        ensures
            r == (*self is And || *self is Or),
    {
        match self {
            SupportedBinaryOperators::And => true,
            SupportedBinaryOperators::Or => true,
            _ => false,
        }
    }

    /// Parsing precedence; higher binds tighter.
    pub open spec fn precedence_spec(self) -> u8 {
        match self {
            SupportedBinaryOperators::Multiply => 50,
            SupportedBinaryOperators::Divide => 50,
            SupportedBinaryOperators::Modulo => 50,
            SupportedBinaryOperators::Add => 45,
            SupportedBinaryOperators::Subtract => 45,
            SupportedBinaryOperators::LessThan => 35,
            SupportedBinaryOperators::LessOrEqual => 35,
            SupportedBinaryOperators::GreaterThan => 35,
            SupportedBinaryOperators::GreaterOrEqual => 35,
            SupportedBinaryOperators::CheckEqual => 30,
            SupportedBinaryOperators::NotEqual => 30,
            SupportedBinaryOperators::And => 10,
            SupportedBinaryOperators::Or => 5,
            SupportedBinaryOperators::AssignEqual => 4,
        }
    }

    pub fn to_precedence(&self) -> (r: u8)
        ensures
            r == self.precedence_spec(),
    {
        match self {
            SupportedBinaryOperators::Multiply => 50,
            SupportedBinaryOperators::Divide => 50,
            SupportedBinaryOperators::Modulo => 50,
            SupportedBinaryOperators::Add => 45,
            SupportedBinaryOperators::Subtract => 45,
            SupportedBinaryOperators::LessThan => 35,
            SupportedBinaryOperators::LessOrEqual => 35,
            SupportedBinaryOperators::GreaterThan => 35,
            SupportedBinaryOperators::GreaterOrEqual => 35,
            SupportedBinaryOperators::CheckEqual => 30,
            SupportedBinaryOperators::NotEqual => 30,
            SupportedBinaryOperators::And => 10,
            SupportedBinaryOperators::Or => 5,
            SupportedBinaryOperators::AssignEqual => 4,
        }
    }

    pub fn from_operator_as_result(op: Operators) -> (r: Result<
        SupportedBinaryOperators,
        ParseError,
    >)
        ensures
            match r {
                Ok(b) => Self::from_operator_spec(op) == Some(b),
                Err(e) => Self::from_operator_spec(op) is None && e.variant is UnexpectedToken,
            },
    {
        match Self::from_operator(op) {
            Some(supported_op) => Ok(supported_op),
            None => Err(ParseError::new_without_stack(ParseErrorVariants::UnexpectedToken(
                String::from_str("unsupported binary operator"),
            ))),
        }
    }
}

/// A unary operator's name, as diagnostics print it.
pub open spec fn unary_op_name(op: SupportedUnaryOperators) -> Seq<char> {
    match op {
        SupportedUnaryOperators::Subtract => "Subtract"@,
        SupportedUnaryOperators::BitwiseNot => "BitwiseNot"@,
        SupportedUnaryOperators::Not => "Not"@,
    }
}

pub fn unary_op_name_str(op: SupportedUnaryOperators) -> (s: &'static str)
    ensures
        s@ == unary_op_name(op),
{
    match op {
        SupportedUnaryOperators::Subtract => "Subtract",
        SupportedUnaryOperators::BitwiseNot => "BitwiseNot",
        SupportedUnaryOperators::Not => "Not",
    }
}

/// A binary operator's name, as diagnostics print it.
pub open spec fn binary_op_name(op: SupportedBinaryOperators) -> Seq<char> {
    match op {
        SupportedBinaryOperators::Add => "Add"@,
        SupportedBinaryOperators::Subtract => "Subtract"@,
        SupportedBinaryOperators::Multiply => "Multiply"@,
        SupportedBinaryOperators::Divide => "Divide"@,
        SupportedBinaryOperators::Modulo => "Modulo"@,
        SupportedBinaryOperators::And => "And"@,
        SupportedBinaryOperators::Or => "Or"@,
        SupportedBinaryOperators::CheckEqual => "CheckEqual"@,
        SupportedBinaryOperators::NotEqual => "NotEqual"@,
        SupportedBinaryOperators::LessThan => "LessThan"@,
        SupportedBinaryOperators::LessOrEqual => "LessOrEqual"@,
        SupportedBinaryOperators::GreaterThan => "GreaterThan"@,
        SupportedBinaryOperators::GreaterOrEqual => "GreaterOrEqual"@,
        SupportedBinaryOperators::AssignEqual => "AssignEqual"@,
    }
}

pub fn binary_op_name_str(op: SupportedBinaryOperators) -> (s: &'static str)
    ensures
        s@ == binary_op_name(op),
{
    match op {
        SupportedBinaryOperators::Add => "Add",
        SupportedBinaryOperators::Subtract => "Subtract",
        SupportedBinaryOperators::Multiply => "Multiply",
        SupportedBinaryOperators::Divide => "Divide",
        SupportedBinaryOperators::Modulo => "Modulo",
        SupportedBinaryOperators::And => "And",
        SupportedBinaryOperators::Or => "Or",
        SupportedBinaryOperators::CheckEqual => "CheckEqual",
        SupportedBinaryOperators::NotEqual => "NotEqual",
        SupportedBinaryOperators::LessThan => "LessThan",
        SupportedBinaryOperators::LessOrEqual => "LessOrEqual",
        SupportedBinaryOperators::GreaterThan => "GreaterThan",
        SupportedBinaryOperators::GreaterOrEqual => "GreaterOrEqual",
        SupportedBinaryOperators::AssignEqual => "AssignEqual",
    }
}

/// A decimal digit.
pub open spec fn is_dec_digit(c: char) -> bool {
    '0' <= c && c <= '9'
}

/// Whether a character sequence is a plain decimal numeral.
pub open spec fn is_dec_numeral(s: Seq<char>) -> bool {
    s.len() > 0 && forall|i: int| 0 <= i < s.len() ==> is_dec_digit(#[trigger] s[i])
}

/// The value of a decimal numeral.
pub open spec fn dec_numeral_value(s: Seq<char>) -> nat
    decreases s.len(),
{
    if s.len() == 0 {
        0
    } else {
        (dec_numeral_value(s.drop_last()) * 10 + (s.last() as int - '0' as int)) as nat
    }
}

proof fn lemma_dec_prefix_le(s: Seq<char>, i: int)
    requires
        0 <= i <= s.len(),
        forall|j: int| 0 <= j < s.len() ==> is_dec_digit(#[trigger] s[j]),
    ensures
        dec_numeral_value(s.take(i)) <= dec_numeral_value(s),
    decreases s.len() - i,
{
    if i < s.len() {
        lemma_dec_prefix_le(s, i + 1);
        assert(s.take(i + 1).drop_last() == s.take(i));
        assert(dec_numeral_value(s.take(i + 1)) == dec_numeral_value(s.take(i)) * 10 + (s[i] as nat
            - '0' as nat));
        assert(dec_numeral_value(s.take(i)) <= dec_numeral_value(s.take(i)) * 10) by (nonlinear_arith);
    } else {
        assert(s.take(i) == s);
    }
}

/// A literal constant from the source program, value kept as text.
#[derive(Clone, Debug)]
pub struct ASTConstant {
    pub value: String,
    pub pop_context: Option<PoppedTokenContext>,
}

impl View for ASTConstant {
    type V = Seq<char>;

    open spec fn view(&self) -> Seq<char> {
        self.value@
    }
}

impl ASTConstant {
    pub fn new(value: &str) -> (r: ASTConstant)
        ensures
            r@ == value@,
            r.pop_context is None,
    {
        ASTConstant { value: value.to_owned(), pop_context: None }
    }

    /// A fresh copy with the same text and provenance.
    pub fn duplicate(&self) -> (r: ASTConstant)
        ensures
            r@ == self@,
            r.pop_context == self.pop_context,
    {
        ASTConstant { value: self.value.clone(), pop_context: self.pop_context }
    }

    /// Reads the constant as an unsigned number; `None` unless the text is a
    /// decimal numeral whose value fits.
    pub fn to_u64(&self) -> (r: Option<u64>)
        ensures
            match r {
                Some(n) => is_dec_numeral(self@) && dec_numeral_value(self@) == n,
                None => !(is_dec_numeral(self@) && dec_numeral_value(self@) <= u64::MAX),
            },
    {
        let s: &str = self.value.as_str();
        let n = s.unicode_len();
        if n == 0 {
            return None;
        }
        let mut acc: u64 = 0;
        let mut i: usize = 0;
        while i < n
            invariant
                s@ == self@,
                n == s@.len(),
                0 <= i <= n,
                forall|j: int| 0 <= j < i ==> is_dec_digit(#[trigger] s@[j]),
                acc == dec_numeral_value(s@.take(i as int)),
            decreases n - i,
        {
            let c = s.get_char(i);
            if c < '0' || c > '9' {
                proof {
                    assert(!is_dec_digit(s@[i as int]));
                    assert(!is_dec_numeral(s@));
                }
                return None;
            }
            let d: u64 = (c as u32 as u64) - 48;
            if acc > (u64::MAX - d) / 10 {
                proof {
                    assert(s@.take(i as int + 1).drop_last() == s@.take(i as int));
                    assert(s@.take(i as int + 1).last() == c);
                    assert(dec_numeral_value(s@.take(i as int + 1)) == acc * 10 + d);
                    assert(acc * 10 + d > u64::MAX) by (nonlinear_arith)
                        requires
                            acc > (u64::MAX - d) / 10,
                            d <= 9,
                    ;
                    if is_dec_numeral(s@) {
                        lemma_dec_prefix_le(s@, i as int + 1);
                    }
                }
                return None;
            }
            proof {
                assert(acc * 10 + d <= u64::MAX) by (nonlinear_arith)
                    requires
                        acc <= (u64::MAX - d) / 10,
                        d <= 9,
                ;
                assert(s@.take(i as int + 1).drop_last() == s@.take(i as int));
                assert(s@.take(i as int + 1).last() == c);
            }
            acc = acc * 10 + d;
            i = i + 1;
        }
        proof {
            assert(s@.take(n as int) == s@);
        }
        Some(acc)
    }

    /// Reads the constant as a machine-sized number; `None` unless the text is
    /// a decimal numeral whose value fits.
    pub fn to_usize(&self) -> (r: Option<usize>)
        ensures
            match r {
                Some(n) => is_dec_numeral(self@) && dec_numeral_value(self@) == n,
                None => !(is_dec_numeral(self@) && dec_numeral_value(self@) <= usize::MAX),
            },
    {
        match self.to_u64() {
            Some(n) => {
                if n <= usize::MAX as u64 {
                    Some(n as usize)
                } else {
                    None
                }
            },
            None => None,
        }
    }
}

/// One expression shape of the grammar.
#[derive(Debug)]
pub enum ExpressionVariant {
    Constant(ASTConstant),
    UnaryOperation(SupportedUnaryOperators, Box<Expression>),
    ParensWrapped(Box<Expression>),
    BinaryOperation(SupportedBinaryOperators, Box<Expression>, Box<Expression>),
}

impl ExpressionVariant {
    /// The provenance of the value this variant wraps. A binary operation
    /// carries none of its own and is outside this function's domain.
    pub fn get_pop_context(&self) -> (r: Option<PoppedTokenContext>)
        requires
            !(self is BinaryOperation),
        ensures
            match self {
                ExpressionVariant::Constant(c) => r == c.pop_context,
                ExpressionVariant::UnaryOperation(_, e) => r == e.pop_context,
                ExpressionVariant::ParensWrapped(e) => r == e.pop_context,
                ExpressionVariant::BinaryOperation(..) => false,
            },
    {
        match self {
            ExpressionVariant::Constant(constant) => constant.pop_context,
            ExpressionVariant::UnaryOperation(_, expr) => expr.pop_context,
            ExpressionVariant::ParensWrapped(expr) => expr.pop_context,
            ExpressionVariant::BinaryOperation(..) => None,
        }
    }
}

/// An expression together with its provenance.
#[derive(Debug)]
pub struct Expression {
    pub expr_item: ExpressionVariant,
    pub pop_context: Option<PoppedTokenContext>,
}

impl Expression {
    pub fn new(expr_item: ExpressionVariant) -> (r: Expression)
        ensures
            r.expr_item == expr_item,
            r.pop_context is None,
    {
        Expression { expr_item, pop_context: None }
    }
}

/// A `return` statement, the only statement of the subset.
#[derive(Debug)]
pub struct Statement {
    pub expression: Expression,
    pub pop_context: Option<PoppedTokenContext>,
}

impl Statement {
    pub fn new(expression: Expression) -> (r: Statement)
        ensures
            r.expression == expression,
            r.pop_context is None,
    {
        Statement { expression, pop_context: None }
    }
}

/// A single function definition.
#[derive(Debug)]
pub struct ASTFunction {
    pub name: Identifier,
    pub body: Statement,
    pub pop_context: Option<PoppedTokenContext>,
}

impl ASTFunction {
    pub fn new(name: Identifier, body: Statement) -> (r: ASTFunction)
        ensures
            r.name == name,
            r.body == body,
            r.pop_context is None,
    {
        ASTFunction { name, body, pop_context: None }
    }
}

/// A whole translation unit: exactly one function.
#[derive(Debug)]
pub struct ASTProgram {
    pub function: ASTFunction,
    pub pop_context: Option<PoppedTokenContext>,
}

impl ASTProgram {
    pub fn new(function: ASTFunction) -> (r: ASTProgram)
        ensures
            r.function == function,
            r.pop_context is None,
    {
        ASTProgram { function, pop_context: None }
    }
}

} // verus!
