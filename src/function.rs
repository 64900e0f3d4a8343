//! Validated functions and their arguments, built from method declarations.
use vstd::prelude::*;
use vstd::string::*;

use crate::comment::{extracted_lines, extracted_style, parse_comment, CommentBlock};
use crate::decl::{MemberDecl, MethodDecl, ParamDecl, ParamPattern, ReturnTypeDecl};
use crate::text::str_eq;

verus! {

/// An argument, with an identifier, type, and optional flag
#[derive(Debug)]
pub struct Arg {
    pub ident: String,
    pub optional: bool,
    pub typ: String,
}

/// Data for a function inside an interface
#[derive(Debug)]
pub struct Function {
    pub name: String,
    /// The documentation comment block for this function
    pub comment: CommentBlock,
    /// Arguments for the function
    pub args: Vec<Arg>,
    /// The type argument of the async-result wrapper in the return type
    pub result_type: String,
}

/// What can be wrong with a declaration.
#[derive(Debug)]
pub enum Problem {
    /// The interface declares type parameters.
    InterfaceTypeParams,
    /// The interface extends another.
    InterfaceExtends,
    /// The interface name starts with the prefix reserved for generated code.
    ReservedInterfaceName,
    /// The interface has no members.
    EmptyInterface,
    CallSignature,
    ConstructSignature,
    GetterSignature,
    SetterSignature,
    IndexSignature,
    PropertySignature,
    OptionalMethod,
    MethodTypeParams,
    /// The method key is not an identifier.
    NonIdentifierName,
    /// The method name is one that generated code uses.
    ReservedMethodName(String),
    MissingReturnType,
    /// The return type is not the async-result wrapper with one type argument.
    InvalidReturnType,
    ArrayDestructuring,
    ObjectDestructuring,
    RestParameter,
    MissingParamType,
    /// A second function of this name in the same interface.
    DuplicateFunction(String),
    /// A second interface of this name in the package.
    DuplicateInterface,
    /// An import that follows an exported interface in its file.
    ImportAfterInterface,
}

/// The class of error a problem belongs to.
#[derive(PartialEq, Eq, Structural, Clone, Copy, Debug)]
pub enum ErrorKind {
    /// An unsupported declaration, member, parameter or return type shape.
    StructuralError,
    /// A reserved or duplicate name.
    NamingError,
}

pub open spec fn problem_kind(p: Problem) -> ErrorKind {
    match p {
        Problem::ReservedInterfaceName | Problem::ReservedMethodName(_)
        | Problem::DuplicateFunction(_) | Problem::DuplicateInterface => ErrorKind::NamingError,
        _ => ErrorKind::StructuralError,
    }
}

impl Problem {
    /// A copy of this problem.
    pub fn clone_problem(&self) -> (r: Problem)
        ensures
            r == *self,
    {
        match self {
            Problem::ReservedMethodName(n) => Problem::ReservedMethodName(n.clone()),
            Problem::DuplicateFunction(n) => Problem::DuplicateFunction(n.clone()),
            Problem::InterfaceTypeParams => Problem::InterfaceTypeParams,
            Problem::InterfaceExtends => Problem::InterfaceExtends,
            Problem::ReservedInterfaceName => Problem::ReservedInterfaceName,
            Problem::EmptyInterface => Problem::EmptyInterface,
            Problem::CallSignature => Problem::CallSignature,
            Problem::ConstructSignature => Problem::ConstructSignature,
            Problem::GetterSignature => Problem::GetterSignature,
            Problem::SetterSignature => Problem::SetterSignature,
            Problem::IndexSignature => Problem::IndexSignature,
            Problem::PropertySignature => Problem::PropertySignature,
            Problem::OptionalMethod => Problem::OptionalMethod,
            Problem::MethodTypeParams => Problem::MethodTypeParams,
            Problem::NonIdentifierName => Problem::NonIdentifierName,
            Problem::MissingReturnType => Problem::MissingReturnType,
            Problem::InvalidReturnType => Problem::InvalidReturnType,
            Problem::ArrayDestructuring => Problem::ArrayDestructuring,
            Problem::ObjectDestructuring => Problem::ObjectDestructuring,
            Problem::RestParameter => Problem::RestParameter,
            Problem::MissingParamType => Problem::MissingParamType,
            Problem::DuplicateInterface => Problem::DuplicateInterface,
            Problem::ImportAfterInterface => Problem::ImportAfterInterface,
        }
    }

    pub fn kind(&self) -> (r: ErrorKind)
        ensures
            r == problem_kind(*self),
    {
        match self {
            Problem::ReservedInterfaceName | Problem::ReservedMethodName(_)
            | Problem::DuplicateFunction(_) | Problem::DuplicateInterface => ErrorKind::NamingError,
            _ => ErrorKind::StructuralError,
        }
    }
}

/// Method names that generated classes use for themselves.
pub open spec fn is_reserved_method(n: Seq<char>) -> bool {
    n == "terminate"@ || n == "protocol"@ || n == "handshake"@
}

/// What is wrong with a parameter, if anything.
pub open spec fn param_problem(p: ParamDecl) -> Option<Problem> {
    match p.pattern {
        ParamPattern::Array => Some(Problem::ArrayDestructuring),
        ParamPattern::Object => Some(Problem::ObjectDestructuring),
        ParamPattern::Rest => Some(Problem::RestParameter),
        ParamPattern::Ident => if p.type_text is None {
            Some(Problem::MissingParamType)
        } else {
            None
        },
    }
}

/// One problem for each bad parameter, in order.
pub open spec fn param_problems(ps: Seq<ParamDecl>) -> Seq<Problem>
    decreases ps.len(),
{
    if ps.len() == 0 {
        seq![]
    } else {
        let q = param_problems(ps.drop_last());
        match param_problem(ps.last()) {
            Some(x) => q.push(x),
            None => q,
        }
    }
}

/// The inner result type when the return type is `wx<T>` for the
/// async-result wrapper's local name `wx` and one non-empty `T`.
pub open spec fn return_payload(rt: ReturnTypeDecl, wx: Seq<char>) -> Result<Seq<char>, Problem> {
    match rt {
        ReturnTypeDecl::Missing => Err(Problem::MissingReturnType),
        ReturnTypeDecl::Other => Err(Problem::InvalidReturnType),
        ReturnTypeDecl::Reference { name, args } => {
            if name is Some && name->0@ == wx && args is Some && args->0@.len() == 1
                && args->0@[0]@.len() > 0 {
                Ok(args->0@[0]@)
            } else {
                Err(Problem::InvalidReturnType)
            }
        },
    }
}

/// The problems of a method signature: the first of its own, else those of
/// its parameters.
pub open spec fn method_problems(m: MethodDecl, wx: Seq<char>) -> Seq<Problem> {
    if m.optional {
        seq![Problem::OptionalMethod]
    } else if m.has_type_params {
        seq![Problem::MethodTypeParams]
    } else if m.name is None {
        seq![Problem::NonIdentifierName]
    } else if is_reserved_method(m.name->0@) {
        seq![Problem::ReservedMethodName(m.name->0)]
    } else if return_payload(m.return_type, wx) is Err {
        seq![return_payload(m.return_type, wx)->Err_0]
    } else {
        param_problems(m.params@)
    }
}

/// The problems of an interface member.
pub open spec fn member_problems(m: MemberDecl, wx: Seq<char>) -> Seq<Problem> {
    match m {
        MemberDecl::CallSignature => seq![Problem::CallSignature],
        MemberDecl::ConstructSignature => seq![Problem::ConstructSignature],
        MemberDecl::Getter => seq![Problem::GetterSignature],
        MemberDecl::Setter => seq![Problem::SetterSignature],
        MemberDecl::Index => seq![Problem::IndexSignature],
        MemberDecl::Property => seq![Problem::PropertySignature],
        MemberDecl::Method(md) => method_problems(md, wx),
    }
}

/// What an [`Arg`] says.
pub struct ArgView {
    pub ident: Seq<char>,
    pub optional: bool,
    pub typ: Seq<char>,
}

impl View for Arg {
    type V = ArgView;

    open spec fn view(&self) -> ArgView {
        ArgView { ident: self.ident@, optional: self.optional, typ: self.typ@ }
    }
}

pub open spec fn arg_views(v: Seq<Arg>) -> Seq<ArgView> {
    v.map_values(|a: Arg| a@)
}

/// The argument a well-formed parameter declares.
pub open spec fn param_arg(p: ParamDecl) -> ArgView {
    ArgView { ident: p.ident@, optional: p.optional, typ: p.type_text->0@ }
}

/// `f` is the function that the method `m` declares.
pub open spec fn is_function_of(f: Function, m: MethodDecl, wx: Seq<char>) -> bool {
    &&& f.name@ == m.name->0@
    &&& arg_views(f.args@) == m.params@.map_values(|p: ParamDecl| param_arg(p))
    &&& f.result_type@ == return_payload(m.return_type, wx)->Ok_0
    &&& f.comment.lines_view() == extracted_lines(m.comments@)
    &&& f.comment.style == extracted_style(m.comments@)
}

fn is_reserved_method_name(n: &str) -> (r: bool)
    ensures
        r == is_reserved_method(n@),
{
    str_eq(n, "terminate") || str_eq(n, "protocol") || str_eq(n, "handshake")
}

fn check_return_type(rt: &ReturnTypeDecl, wx: &str) -> (r: Result<String, Problem>)
    ensures
        match (r, return_payload(*rt, wx@)) {
            (Ok(t), Ok(u)) => t@ == u,
            (Err(p), Err(q)) => p == q,
            _ => false,
        },
{
    match rt {
        ReturnTypeDecl::Missing => Err(Problem::MissingReturnType),
        ReturnTypeDecl::Other => Err(Problem::InvalidReturnType),
        ReturnTypeDecl::Reference { name, args } => {
            match (name, args) {
                (Some(n), Some(a)) => {
                    if str_eq(n.as_str(), wx) && a.len() == 1 && a[0].unicode_len() > 0 {
                        Ok(a[0].clone())
                    } else {
                        Err(Problem::InvalidReturnType)
                    }
                },
                _ => Err(Problem::InvalidReturnType),
            }
        },
    }
}

fn check_param(p: &ParamDecl) -> (r: Option<Problem>)
    ensures
        r == param_problem(*p),
{
    match p.pattern {
        ParamPattern::Array => Some(Problem::ArrayDestructuring),
        ParamPattern::Object => Some(Problem::ObjectDestructuring),
        ParamPattern::Rest => Some(Problem::RestParameter),
        ParamPattern::Ident => match &p.type_text {
            None => Some(Problem::MissingParamType),
            Some(_) => None,
        },
    }
}

fn build_method(m: &MethodDecl, wx: &str) -> (r: Result<Function, Vec<Problem>>)
    ensures
        match r {
            Ok(f) => method_problems(*m, wx@).len() == 0 && is_function_of(f, *m, wx@),
            Err(ps) => ps@ == method_problems(*m, wx@) && ps@.len() > 0,
        },
{
    let mut one: Vec<Problem> = Vec::new();
    if m.optional {
        one.push(Problem::OptionalMethod);
        return Err(one);
    }
    if m.has_type_params {
        one.push(Problem::MethodTypeParams);
        return Err(one);
    }
    let name = match &m.name {
        None => {
            one.push(Problem::NonIdentifierName);
            return Err(one);
        },
        Some(n) => n,
    };
    if is_reserved_method_name(name.as_str()) {
        one.push(Problem::ReservedMethodName(name.clone()));
        return Err(one);
    }
    let result_type = match check_return_type(&m.return_type, wx) {
        Err(p) => {
            one.push(p);
            return Err(one);
        },
        Ok(t) => t,
    };
    let mut problems: Vec<Problem> = Vec::new();
    let mut args: Vec<Arg> = Vec::new();
    let mut i: usize = 0;
    while i < m.params.len()
        invariant
            i <= m.params@.len(),
            problems@ == param_problems(m.params@.subrange(0, i as int)),
            problems@.len() == 0 ==> arg_views(args@) == m.params@.subrange(0, i as int).map_values(
                |p: ParamDecl| param_arg(p),
            ),
        decreases m.params@.len() - i,
    {
        let p = &m.params[i];
        assert(m.params@.subrange(0, i + 1).drop_last() =~= m.params@.subrange(0, i as int));
        match check_param(p) {
            Some(x) => problems.push(x),
            None => {
                if let Some(t) = &p.type_text {
                    let a = Arg { ident: p.ident.clone(), optional: p.optional, typ: t.clone() };
                    proof {
                        assert(arg_views(args@.push(a)) =~= arg_views(args@).push(a@));
                        assert(m.params@.subrange(0, i + 1).map_values(|p: ParamDecl| param_arg(p))
                            =~= m.params@.subrange(0, i as int).map_values(|p: ParamDecl| param_arg(p)).push(param_arg(*p)));
                    }
                    args.push(a);
                }
            },
        }
        i += 1;
    }
    assert(m.params@.subrange(0, i as int) =~= m.params@);
    if problems.len() > 0 {
        return Err(problems);
    }
    let comment = parse_comment(&m.comments);
    Ok(Function { name: name.clone(), comment, args, result_type })
}

/// Builds the function that an interface member declares, or gives the
/// problems that keep it from being one: a member that is not a plain method
/// has one problem for its shape; a method has the first problem of its own
/// or one for each bad parameter, and a bad parameter drops the whole function.
pub fn build_function(m: &MemberDecl, wx: &str) -> (r: Result<Function, Vec<Problem>>)
    ensures
        match r {
            Ok(f) => member_problems(*m, wx@).len() == 0 && m is Method && is_function_of(
                f,
                m->Method_0,
                wx@,
            ),
            Err(ps) => ps@ == member_problems(*m, wx@) && ps@.len() > 0,
        },
{
    let mut one: Vec<Problem> = Vec::new();
    match m {
        MemberDecl::CallSignature => one.push(Problem::CallSignature),
        MemberDecl::ConstructSignature => one.push(Problem::ConstructSignature),
        MemberDecl::Getter => one.push(Problem::GetterSignature),
        MemberDecl::Setter => one.push(Problem::SetterSignature),
        MemberDecl::Index => one.push(Problem::IndexSignature),
        MemberDecl::Property => one.push(Problem::PropertySignature),
        MemberDecl::Method(md) => {
            return build_method(md, wx);
        },
    }
    assert(one@ =~= member_problems(*m, wx@));
    Err(one)
}

} // verus!
