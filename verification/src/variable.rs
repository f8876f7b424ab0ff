use vstd::prelude::*;

use crate::tokens::{Number, Token, VariableEnum};
use crate::types::VarType;

verus! {

/// A variable as it appears in a declaration or a parameter list.
#[derive(Debug)]
pub struct Variable {
    pub token: Box<Token>,
    pub var_name: String,
    pub var_type: VarType,
    pub result_type: VarType,
    pub dereference: bool,
    pub store_address: bool,
    pub times_dereferenced: usize,
    pub offset: usize,
}

/// Whether a value of type `t` has a known storage size.
pub open spec fn has_size(t: VarType) -> bool {
    t is Int || t is Str || t is Ptr
}

/// Bytes taken by a value of type `t`: a 64-bit integer takes 8, a string takes
/// 8 for its length and 8 for the pointer to its characters, a pointer takes 8.
/// Meaningful only for the types of `has_size`; no size is defined for the others.
pub open spec fn size_of_type(t: VarType) -> nat {
    match t {
        VarType::Int => 8,
        VarType::Str => 16,
        _ => 8,
    }
}

impl Variable {
    pub fn new(
        token: Box<Token>,
        var_type: VarType,
        var_name: String,
        dereference: bool,
        store_address: bool,
        times_dereferenced: usize,
    ) -> (res: Self)
        ensures
            res == (Variable {
                token,
                var_name,
                var_type,
                result_type: var_type,
                dereference,
                store_address,
                times_dereferenced,
                offset: 0,
            }),
    {
        Self {
            token,
            result_type: var_type.clone(),
            var_type,
            var_name,
            dereference,
            store_address,
            times_dereferenced,
            offset: 0,
        }
    }

    pub fn get_token(&self) -> (res: &Token)
        ensures
            *res == *self.token,
    {
        &self.token
    }

    /// Storage size of the variable in bytes; defined for integers, strings and pointers.
    pub fn size(&self) -> (res: usize)
        requires
            has_size(self.var_type),
        ensures
            res == size_of_type(self.var_type),
    {
        match self.var_type {
            // 64 bit integer
            VarType::Int => 8,
            // 8 bytes for length + 8 bytes for pointer to the start of the string
            VarType::Str => 16,
            // Pointer will always consume 8 bytes
            _ => 8,
        }
    }

    /// The zero value of the variable's type: integer 0 or the empty string.
    pub fn get_var_enum_from_type(&self) -> (res: VariableEnum)
        requires
            self.var_type is Int || self.var_type is Str,
        ensures
            self.var_type is Int ==> res == VariableEnum::Number(Number::Integer(0)),
            self.var_type is Str ==> (res matches VariableEnum::String(s) && s@ == Seq::<char>::empty()),
    {
        match self.var_type {
            VarType::Int => VariableEnum::Number(Number::Integer(0)),
            _ => VariableEnum::String(String::new()),
        }
    }
}

} // verus!
