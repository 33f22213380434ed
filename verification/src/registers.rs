//! The fixed-role physical registers of the target ABI, and their names.
use vstd::prelude::*;

verus! {

/// The physical registers the backend uses: the accumulator and division
/// result register, the division remainder register, and two scratch
/// registers reserved for legalization.
#[derive(Clone, Copy, Debug, PartialEq, Eq, Structural)]
pub enum Register {
    EAX,
    EDX,
    R10D,
    R11D,
}

/// A register's name in assembly syntax.
pub open spec fn reg_text(r: Register) -> Seq<char> {
    match r {
        Register::EAX => "%eax"@,
        Register::EDX => "%edx"@,
        Register::R10D => "%r10d"@,
        Register::R11D => "%r11d"@,
    }
}

pub fn register_str(r: Register) -> (s: &'static str)
    ensures
        s@ == reg_text(r),
{
    match r {
        Register::EAX => "%eax",
        Register::EDX => "%edx",
        Register::R10D => "%r10d",
        Register::R11D => "%r11d",
    }
}

/// The scratch register legalization routes general rewrites through.
pub open spec fn scratch_reg() -> Register {
    Register::R10D
}

/// The second scratch register, reserved for multiplication's in-place
/// rewrite and for immediates in comparison position.
pub open spec fn dst_scratch_reg() -> Register {
    Register::R11D
}

/// The stack pointer's name.
pub open spec fn stack_reg_text() -> Seq<char> {
    "%rsp"@
}

pub fn stack_register_str() -> (s: &'static str)
    ensures
        s@ == stack_reg_text(),
{
    "%rsp"
}

/// The frame base pointer's name.
pub open spec fn base_reg_text() -> Seq<char> {
    "%rbp"@
}

pub fn base_register_str() -> (s: &'static str)
    ensures
        s@ == base_reg_text(),
{
    "%rbp"
}

/// The indentation unit of emitted text.
pub open spec fn tab_text() -> Seq<char> {
    "    "@
}

pub fn tab_str() -> (s: &'static str)
    ensures
        s@ == tab_text(),
{
    "    "
}

} // verus!
