//! The schema a contract publishes: its entry points with their arguments, and whether it
//! has state. Declarations of types are written as their names.
use vstd::prelude::*;

verus! {

/// A named argument of an entry point and the declaration of its type.
#[derive(Debug, Clone, PartialEq, Eq)]
pub struct SchemaArgument {
    /// The argument's name.
    pub name: String,
    /// The declaration of its type.
    pub decl: String,
}

/// An entry point as a schema describes it.
#[derive(Debug, Clone, PartialEq, Eq)]
pub struct SchemaEntryPoint {
    /// The entry point's name.
    pub name: String,
    /// The selector that dispatches to it.
    pub selector: u32,
    /// Its arguments, in order.
    pub arguments: Vec<SchemaArgument>,
    /// The declaration of its result's type.
    pub result: String,
    /// The bits of its flags.
    pub flags: u32,
}

/// Whether a schema describes a contract, with the declaration of its state, or an
/// interface, which has no state.
#[derive(Debug, Clone, PartialEq, Eq)]
pub enum SchemaType {
    /// A contract, with the declaration of its state.
    Contract { state: String },
    /// An interface.
    Interface,
}

/// An entry point to register: its name, selector, parameter names and function.
#[derive(Debug)]
pub struct EntryPoint<'a, F: Fn()> {
    /// The entry point's name.
    pub name: &'a str,
    /// The selector that dispatches to it.
    pub selector: u32,
    /// The names of its parameters.
    pub params: &'a [&'a str],
    /// The function that runs it.
    pub func: F,
}

} // verus!
