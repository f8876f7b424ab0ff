use vstd::prelude::*;

verus! {

/// The type of a variable or value in the language.
#[derive(Debug)]
pub enum VarType {
    Int,
    Str,
    Float,
    /// Pointer to a value of the inner type.
    Ptr(Box<VarType>),
    /// Fixed-size array: element type and number of elements.
    Array(Box<VarType>, usize),
    Unknown,
}

impl Clone for VarType {
    fn clone(&self) -> (res: Self)
        ensures
            res == *self,
        decreases self,
    {
        match self {
            VarType::Int => VarType::Int,
            VarType::Str => VarType::Str,
            VarType::Float => VarType::Float,
            VarType::Ptr(inner) => VarType::Ptr(Box::new((**inner).clone())),
            VarType::Array(inner, n) => VarType::Array(Box::new((**inner).clone()), *n),
            VarType::Unknown => VarType::Unknown,
        }
    }
}

impl PartialEq for VarType {
    fn eq(&self, other: &Self) -> (res: bool)
        decreases self,
    {
        match (self, other) {
            (VarType::Int, VarType::Int) => true,
            (VarType::Str, VarType::Str) => true,
            (VarType::Float, VarType::Float) => true,
            (VarType::Unknown, VarType::Unknown) => true,
            (VarType::Ptr(a), VarType::Ptr(b)) => (**a).eq(&**b),
            (VarType::Array(a, n), VarType::Array(b, m)) => *n == *m && (**a).eq(&**b),
            _ => false,
        }
    }
}

impl vstd::std_specs::cmp::PartialEqSpecImpl for VarType {
    open spec fn obeys_eq_spec() -> bool {
        true
    }

    open spec fn eq_spec(&self, other: &Self) -> bool {
        *self == *other
    }
}

} // verus!
