//! Text building for the emitter: decimal rendering, the structural model of
//! emitted assembly lines, and indentation of instruction blocks.
use vstd::prelude::*;

verus! {

/// The digit character for a value below ten.
pub open spec fn dec_digit_char(d: nat) -> char {
    ((48 + d) as u8) as char
}

/// The decimal numeral of a number, most significant digit first.
pub open spec fn dec_str(n: nat) -> Seq<char>
    decreases n,
{
    if n < 10 {
        seq![dec_digit_char(n)]
    } else {
        dec_str(n / 10) + seq![dec_digit_char(n % 10)]
    }
}

/// One digit as text.
fn digit_str(d: u64) -> (r: &'static str)
    requires
        d < 10,
    ensures
        r@ == seq![dec_digit_char(d as nat)],
{
    proof {
        reveal_strlit("0");
        reveal_strlit("1");
        reveal_strlit("2");
        reveal_strlit("3");
        reveal_strlit("4");
        reveal_strlit("5");
        reveal_strlit("6");
        reveal_strlit("7");
        reveal_strlit("8");
        reveal_strlit("9");
    }
    if d == 0 {
        "0"
    } else if d == 1 {
        "1"
    } else if d == 2 {
        "2"
    } else if d == 3 {
        "3"
    } else if d == 4 {
        "4"
    } else if d == 5 {
        "5"
    } else if d == 6 {
        "6"
    } else if d == 7 {
        "7"
    } else if d == 8 {
        "8"
    } else {
        "9"
    }
}

/// Renders a number in decimal.
pub fn u64_to_string(n: u64) -> (r: String)
    ensures
        r@ == dec_str(n as nat),
    decreases n,
{
    if n < 10 {
        String::from_str(digit_str(n))
    } else {
        let s = u64_to_string(n / 10);
        let r = s.concat(digit_str(n % 10));
        r
    }
}

/// The decimal numeral of a signed number, minus sign first when negative.
pub open spec fn dec_str_signed(n: int) -> Seq<char> {
    if n >= 0 {
        dec_str(n as nat)
    } else {
        "-"@ + dec_str((-n) as nat)
    }
}

/// Renders a signed number in decimal.
pub fn i64_to_string(n: i64) -> (r: String)
    ensures
        r@ == dec_str_signed(n as int),
{
    if n >= 0 {
        u64_to_string(n as u64)
    } else {
        let upper: i64 = -(n + 1);
        let magnitude: u64 = (upper as u64) + 1;
        let r = String::from_str("-").concat(u64_to_string(magnitude).as_str());
        proof {
            assert(r@ =~= dec_str_signed(n as int));
        }
        r
    }
}

/// A piece of text repeated a number of times.
pub open spec fn repeat_text(s: Seq<char>, n: nat) -> Seq<char>
    decreases n,
{
    if n == 0 {
        Seq::empty()
    } else {
        repeat_text(s, (n - 1) as nat) + s
    }
}

/// Repeats a piece of text.
pub fn repeat_str(s: &str, n: u64) -> (r: String)
    ensures
        r@ == repeat_text(s@, n as nat),
{
    let mut out = String::new();
    let mut i: u64 = 0;
    while i < n
        invariant
            0 <= i <= n,
            out@ == repeat_text(s@, i as nat),
        decreases n - i,
    {
        out.append(s);
        i = i + 1;
    }
    out
}

/// One operand as it appears on an emitted line: its text, and whether it is
/// a stack (memory) reference.
pub struct LineArg {
    pub text: Seq<char>,
    pub is_mem: bool,
}

/// One emitted assembly line: a mnemonic and up to two operands.
pub struct AsmLine {
    pub mnem: Seq<char>,
    pub args: Seq<LineArg>,
}

impl AsmLine {
    /// How many of the line's (at most two) operands are memory references.
    pub open spec fn mem_operands(self) -> int {
        if self.args.len() == 0 {
            0
        } else if self.args.len() == 1 {
            if self.args[0].is_mem {
                1
            } else {
                0
            }
        } else {
            (if self.args[0].is_mem {
                1int
            } else {
                0int
            }) + (if self.args[1].is_mem {
                1int
            } else {
                0int
            })
        }
    }

    /// The line's text.
    pub open spec fn text(self) -> Seq<char>
        decreases self.args.len(),
    {
        if self.args.len() == 0 {
            self.mnem
        } else if self.args.len() == 1 {
            self.mnem + " "@ + self.args[0].text
        } else {
            self.mnem + " "@ + self.args[0].text + ", "@ + self.args[1].text
        }
    }
}

/// A block of lines joined by newlines, without a trailing newline.
pub open spec fn block_text(lines: Seq<AsmLine>) -> Seq<char>
    decreases lines.len(),
{
    if lines.len() == 0 {
        Seq::empty()
    } else if lines.len() == 1 {
        lines[0].text()
    } else {
        lines[0].text() + "\n"@ + block_text(lines.drop_first())
    }
}

/// A two-line block is the lines joined by one break.
pub proof fn lemma_block2(l1: AsmLine, l2: AsmLine)
    ensures
        block_text(seq![l1, l2]) =~= l1.text() + "\n"@ + l2.text(),
{
    assert(seq![l1, l2].drop_first() =~= seq![l2]);
    assert(seq![l2][0] == l2);
    assert(block_text(seq![l2]) == l2.text());
    assert(seq![l1, l2][0] == l1);
    assert(block_text(seq![l1, l2]) == l1.text() + "\n"@ + block_text(seq![l1, l2].drop_first()));
}

/// A three-line block is the lines joined by breaks.
pub proof fn lemma_block3(l1: AsmLine, l2: AsmLine, l3: AsmLine)
    ensures
        block_text(seq![l1, l2, l3]) =~= l1.text() + "\n"@ + l2.text() + "\n"@ + l3.text(),
{
    assert(seq![l1, l2, l3].drop_first() =~= seq![l2, l3]);
    lemma_block2(l2, l3);
}

/// A four-line block is the lines joined by breaks.
pub proof fn lemma_block4(l1: AsmLine, l2: AsmLine, l3: AsmLine, l4: AsmLine)
    ensures
        block_text(seq![l1, l2, l3, l4]) =~= l1.text() + "\n"@ + l2.text() + "\n"@ + l3.text()
            + "\n"@ + l4.text(),
{
    assert(seq![l1, l2, l3, l4].drop_first() =~= seq![l2, l3, l4]);
    lemma_block3(l2, l3, l4);
}

/// Every non-empty line of the input with the prefix put before it; `at_start`
/// says whether the next character begins a line.
pub open spec fn indent_chars(prefix: Seq<char>, s: Seq<char>, at_start: bool) -> Seq<char>
    decreases s.len(),
{
    if s.len() == 0 {
        Seq::empty()
    } else {
        let c = s[0];
        let rest = indent_chars(prefix, s.drop_first(), c == '\n');
        if c == '\n' {
            seq!['\n'] + rest
        } else if at_start {
            prefix + seq![c] + rest
        } else {
            seq![c] + rest
        }
    }
}

/// Every non-empty line of the input with the prefix put before it.
pub open spec fn indent_all(prefix: Seq<char>, s: Seq<char>) -> Seq<char> {
    indent_chars(prefix, s, true)
}

/// Whether a character sequence is free of carriage returns.
pub open spec fn no_cr(s: Seq<char>) -> bool {
    forall|i: int| 0 <= i < s.len() ==> s[i] != '\r'
}

/// Freedom from carriage returns carries over concatenation.
pub proof fn lemma_no_cr_concat(a: Seq<char>, b: Seq<char>)
    requires
        no_cr(a),
        no_cr(b),
    ensures
        no_cr(a + b),
{
    assert forall|i: int| 0 <= i < (a + b).len() implies (a + b)[i] != '\r' by {
        if i < a.len() {
            assert((a + b)[i] == a[i]);
        } else {
            assert((a + b)[i] == b[i - a.len()]);
        }
    }
}

/// A decimal numeral is free of carriage returns.
pub proof fn lemma_no_cr_dec(n: nat)
    ensures
        no_cr(dec_str(n)),
    decreases n,
{
    assert(dec_digit_char(n % 10) != '\r') by {
        assert(dec_digit_char(n % 10) as int == 48 + ((n % 10) as int));
        assert('\r' as int == 13);
    }
    if n < 10 {
        assert(n % 10 == n);
    } else {
        lemma_no_cr_dec(n / 10);
        lemma_no_cr_concat(dec_str(n / 10), seq![dec_digit_char(n % 10)]);
    }
}

/// Relies on indent::indent_all_with: every line that is not empty gains the
/// prefix; other characters pass through unchanged. Inputs are kept free of
/// carriage returns, which that crate would treat as part of a line ending.
#[verifier::external_body]
pub fn indent_all_with(prefix: &str, input: &str) -> (r: String)
    requires
        no_cr(input@),
    ensures
        r@ == indent_all(prefix@, input@),
{
    indent::indent_all_with(prefix, input)
}

} // verus!
