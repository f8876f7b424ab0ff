use vstd::prelude::*;

verus! {

pub const VAR_DEFINE: &'static str = "def";
pub const CONST_VAR_DEFINE: &'static str = "const";
pub const TYPE_DEF: &'static str = "type";
pub const FUNCTION_DEFINE: &'static str = "fun";
pub const EXTERN: &'static str = "extern";
pub const IF_STATEMENT: &'static str = "if";
pub const ELIF_STATEMENT: &'static str = "elif";
pub const ELSE_STATEMENT: &'static str = "else";
pub const LOOP: &'static str = "loop";
pub const BREAK: &'static str = "break";
pub const CONTINUE: &'static str = "continue";
pub const RETURN: &'static str = "return";
pub const MEM: &'static str = "mem";
pub const STRUCT: &'static str = "struct";
pub const INCLUDE: &'static str = "include";

/// Whether the text of `s` is exactly `lit`.
pub fn text_is(s: &String, lit: &str) -> (res: bool)
    ensures
        res == (s@ == lit@),
{
    let t = String::from_str(lit);
    *s == t
}

} // verus!
