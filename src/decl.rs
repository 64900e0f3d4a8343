//! The declaration tree handed over by a TypeScript front end: plain values
//! that describe what the source said, before any validation.
use vstd::prelude::*;

use crate::import::Import;

verus! {

/// Syntax of one source comment.
#[derive(PartialEq, Eq, Structural, Clone, Copy, Debug)]
pub enum CommentKind {
    /// `// ...`
    Line,
    /// `/* ... */`
    Block,
}

/// One comment as the front end found it, without its delimiters.
#[derive(Debug)]
pub struct RawComment {
    pub kind: CommentKind,
    pub text: String,
}

/// The pattern a parameter binds.
#[derive(PartialEq, Eq, Structural, Clone, Copy, Debug)]
pub enum ParamPattern {
    /// A plain identifier.
    Ident,
    /// `[a, b]: T`
    Array,
    /// `{ a, b }: T`
    Object,
    /// `...rest: T`
    Rest,
}

/// One parameter of a method signature.
#[derive(Debug)]
pub struct ParamDecl {
    pub pattern: ParamPattern,
    /// The bound identifier (empty for a destructuring pattern).
    pub ident: String,
    /// Whether the parameter is marked `?`.
    pub optional: bool,
    /// The source text of the type annotation, if there is one.
    pub type_text: Option<String>,
}

/// The return type annotation of a method signature.
#[derive(Debug)]
pub enum ReturnTypeDecl {
    /// No annotation.
    Missing,
    /// An annotation that is not a reference to a named type.
    Other,
    /// A reference to a named type, `Name<A, B>`.
    Reference {
        /// The referenced name; `None` when it is qualified (`a.B`).
        name: Option<String>,
        /// The source text of each type argument; `None` without `<...>`.
        args: Option<Vec<String>>,
    },
}

/// A method signature `name(params): ret`.
#[derive(Debug)]
pub struct MethodDecl {
    /// Whether the method is marked `?`.
    pub optional: bool,
    /// Whether the method declares type parameters.
    pub has_type_params: bool,
    /// The method name; `None` when the key is not an identifier.
    pub name: Option<String>,
    pub params: Vec<ParamDecl>,
    pub return_type: ReturnTypeDecl,
    /// The comments directly above the method.
    pub comments: Vec<RawComment>,
}

/// One member of an interface body, by syntactic shape.
#[derive(Debug)]
pub enum MemberDecl {
    CallSignature,
    ConstructSignature,
    Getter,
    Setter,
    Index,
    Property,
    Method(MethodDecl),
}

/// An exported interface declaration.
#[derive(Debug)]
pub struct InterfaceDecl {
    pub name: String,
    pub has_type_params: bool,
    pub has_extends: bool,
    pub members: Vec<MemberDecl>,
    /// The comments directly above the `export`.
    pub comments: Vec<RawComment>,
}

/// A module-level item of a source file that matters here, in source order.
#[derive(Debug)]
pub enum ModuleItem {
    Import(Import),
    Interface(InterfaceDecl),
}

/// One parsed source file.
#[derive(Debug)]
pub struct SourceFile {
    /// The file name with its extension, without directories.
    pub filename: String,
    pub items: Vec<ModuleItem>,
}

} // verus!
