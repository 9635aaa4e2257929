//! What IP-XACT output reads of an analysed module: its parameters and its
//! ports, with every expression already rendered to its source text.
use vstd::prelude::*;

verus! {

/// Direction of a module port.
#[derive(Clone, Copy, Debug, PartialEq, Eq, Structural)]
pub enum Direction {
    Input,
    Output,
    Inout,
    Interface,
    Modport,
    Import,
}

/// Kind of a module parameter: `param` (overridable) or `const` (local).
#[derive(Clone, Copy, Debug, PartialEq, Eq, Structural)]
pub enum ParameterKind {
    Param,
    Const,
}

/// A module parameter.
#[derive(Debug)]
pub struct Parameter {
    pub name: String,
    pub kind: ParameterKind,
    /// Source text of the default value expression, if any.
    pub value: Option<String>,
}

/// A module port.
#[derive(Debug)]
pub struct Port {
    pub name: String,
    pub direction: Direction,
    /// Source text of each packed dimension (width), most significant first.
    pub width: Vec<String>,
    /// Source text of each unpacked dimension (array size).
    pub array: Vec<String>,
}

/// The interface of a module.
#[derive(Debug)]
pub struct ModuleProperty {
    pub parameters: Vec<Parameter>,
    pub ports: Vec<Port>,
}

/// What kind of item a symbol names.
#[derive(Debug)]
pub enum SymbolKind {
    Module(ModuleProperty),
    Interface,
    Package,
    Other,
}

/// A resolved symbol of the analysed project.
#[derive(Debug)]
pub struct Symbol {
    /// The symbol's namespace, rendered as text.
    pub namespace: String,
    /// Whether the symbol is declared `pub`.
    pub public: bool,
    pub kind: SymbolKind,
}

} // verus!
