//! The declared types that the language's typed constructs (such as the
//! console-input statement and function parameters) can name.

use vstd::prelude::*;

use crate::text::str_eq;

verus! {

/// A type name as it can appear in source text.
#[derive(Debug, PartialEq, Eq)]
pub enum Type {
    Int,
    Float,
    Str,
    Bool,
    List,
    Dict,
    Void,
    Any,
    /// A function type: parameter types and return type.
    Function(Vec<Type>, Box<Type>),
}

/// Error returned when a string names no known type.
#[derive(Debug)]
pub struct TypeParseError;

impl Type {
    /// Whether the type is one of the two numeric type names.
    pub fn is_numeric(&self) -> (r: bool)
        ensures
            r == (self is Int || self is Float),
    {
        matches!(self, Type::Int | Type::Float)
    }

    /// The type a source-text name denotes, if any.
    pub fn from_str(s: &str) -> (r: Result<Type, TypeParseError>)
        ensures
            s@ == "int"@ ==> (r matches Ok(t) && t is Int),
            s@ == "float"@ ==> (r matches Ok(t) && t is Float),
            s@ == "str"@ ==> (r matches Ok(t) && t is Str),
            s@ == "bool"@ ==> (r matches Ok(t) && t is Bool),
            s@ == "list"@ ==> (r matches Ok(t) && t is List),
            s@ == "dict"@ ==> (r matches Ok(t) && t is Dict),
            s@ == "void"@ ==> (r matches Ok(t) && t is Void),
            s@ == "any"@ ==> (r matches Ok(t) && t is Any),
            r is Err ==> s@ != "int"@ && s@ != "float"@ && s@ != "str"@ && s@ != "bool"@ && s@
                != "list"@ && s@ != "dict"@ && s@ != "void"@ && s@ != "any"@,
            s@ != "int"@ && s@ != "float"@ && s@ != "str"@ && s@ != "bool"@ && s@ != "list"@ && s@
                != "dict"@ && s@ != "void"@ && s@ != "any"@ ==> r is Err,
    {
        proof {
            reveal_strlit("int");
            reveal_strlit("float");
            reveal_strlit("str");
            reveal_strlit("bool");
            reveal_strlit("list");
            reveal_strlit("dict");
            reveal_strlit("void");
            reveal_strlit("any");
            assert("int"@ =~= seq!['i', 'n', 't']);
            assert("float"@ =~= seq!['f', 'l', 'o', 'a', 't']);
            assert("str"@ =~= seq!['s', 't', 'r']);
            assert("bool"@ =~= seq!['b', 'o', 'o', 'l']);
            assert("list"@ =~= seq!['l', 'i', 's', 't']);
            assert("dict"@ =~= seq!['d', 'i', 'c', 't']);
            assert("void"@ =~= seq!['v', 'o', 'i', 'd']);
            assert("any"@ =~= seq!['a', 'n', 'y']);
        }
        if str_eq(s, "int") {
            Ok(Type::Int)
        } else if str_eq(s, "float") {
            Ok(Type::Float)
        } else if str_eq(s, "str") {
            Ok(Type::Str)
        } else if str_eq(s, "bool") {
            Ok(Type::Bool)
        } else if str_eq(s, "list") {
            Ok(Type::List)
        } else if str_eq(s, "dict") {
            Ok(Type::Dict)
        } else if str_eq(s, "void") {
            Ok(Type::Void)
        } else if str_eq(s, "any") {
            Ok(Type::Any)
        } else {
            Err(TypeParseError)
        }
    }
}

} // verus!

