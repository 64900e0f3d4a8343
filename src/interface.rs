//! Validated interfaces, built from exported interface declarations.
use vstd::prelude::*;
use vstd::string::*;

use crate::comment::{extracted_lines, extracted_style, parse_comment, CommentBlock};
use crate::decl::{InterfaceDecl, MemberDecl};
use crate::function::{build_function, is_function_of, member_problems, Function, Problem};
use crate::import::{adjusted, with_runtime_ident, ImplImports, ImportView, Imports};
use crate::sorted::{has_key, insert_sorted, strictly_sorted, Named};
use crate::text::{is_prefix, str_starts_with};

verus! {

/// A validated interface
#[derive(Debug)]
pub struct Interface {
    /// The name for this interface
    pub name: String,
    /// File name where the interface is defined, including the extension.
    /// This is for generating the `import` statements to import this interface
    pub filename: String,
    /// The comment block for this interface
    pub comment: CommentBlock,
    /// Import statements from the source file, with the async-result wrapper
    /// made importable
    pub imports: Imports,
    /// Import statements adjusted for the generated implementation file
    pub impl_imports: ImplImports,
    /// All functions in the interface, sorted by name
    pub functions: Vec<Function>,
}

impl Named for Function {
    open spec fn key(&self) -> Seq<char> {
        self.name@
    }

    fn name(&self) -> (r: &str) {
        self.name.as_str()
    }
}

impl Named for Interface {
    open spec fn key(&self) -> Seq<char> {
        self.name@
    }

    fn name(&self) -> (r: &str) {
        self.name.as_str()
    }
}

impl Interface {
    /// Assembles an interface; the implementation-file view of the imports is
    /// reconciled from a copy of `imports`.
    pub fn new(
        name: String,
        filename: String,
        comment: CommentBlock,
        imports: Imports,
        functions: Vec<Function>,
    ) -> (r: Interface)
        requires
            strictly_sorted(functions@),
        ensures
            r.name == name,
            r.filename == filename,
            r.comment == comment,
            r.functions == functions,
            r.imports == imports,
            ({
                let (s1, _, h) = with_runtime_ident(imports.view_statements(), "WxBusRecvHandler"@, false);
                let (s2, _, snd) = with_runtime_ident(s1, "WxProtocolBoundSender"@, false);
                &&& r.impl_imports.inner.view_statements() == s2.map_values(|i: ImportView| adjusted(i))
                &&& r.impl_imports.ident_wxhandler@ == h
                &&& r.impl_imports.ident_wxsender@ == snd
                &&& r.impl_imports.inner.ident_wxpromise@ == imports.ident_wxpromise@
            }),
    {
        let impl_imports = ImplImports::new(imports.clone());
        Interface { name, filename, comment, imports, impl_imports, functions }
    }
}

/// The prefix of names that generated code keeps for itself.
pub open spec fn reserved_prefix() -> Seq<char> {
    "_wx"@
}

/// The problem that rejects an interface declaration before its members are
/// looked at, if any.
pub open spec fn interface_problem(d: InterfaceDecl) -> Option<Problem> {
    if d.has_type_params {
        Some(Problem::InterfaceTypeParams)
    } else if d.has_extends {
        Some(Problem::InterfaceExtends)
    } else if is_prefix(reserved_prefix(), d.name@) {
        Some(Problem::ReservedInterfaceName)
    } else if d.members@.len() == 0 {
        Some(Problem::EmptyInterface)
    } else {
        None
    }
}

/// A member that declares a valid function.
pub open spec fn valid_member(m: MemberDecl, wx: Seq<char>) -> bool {
    m is Method && member_problems(m, wx).len() == 0
}

/// The name of a method member.
pub open spec fn member_name(m: MemberDecl) -> Seq<char> {
    m->Method_0.name->0@
}

/// The names of the functions kept from `ms`, and the problems found in them:
/// those of each member, and one for each later valid function of a name
/// already kept.
pub open spec fn members_outcome(ms: Seq<MemberDecl>, wx: Seq<char>) -> (Set<Seq<char>>, Seq<Problem>)
    decreases ms.len(),
{
    if ms.len() == 0 {
        (Set::empty(), seq![])
    } else {
        let (ns, ps) = members_outcome(ms.drop_last(), wx);
        let m = ms.last();
        if !valid_member(m, wx) {
            (ns, ps + member_problems(m, wx))
        } else if ns.contains(member_name(m)) {
            (ns, ps.push(Problem::DuplicateFunction(m->Method_0.name->0)))
        } else {
            (ns.insert(member_name(m)), ps)
        }
    }
}

/// `f` is the function of the first valid member of `ms` with its name.
pub open spec fn from_first_valid(f: Function, ms: Seq<MemberDecl>, wx: Seq<char>) -> bool {
    exists|k: int|
        0 <= k < ms.len() && valid_member(ms[k], wx) && is_function_of(f, ms[k]->Method_0, wx)
            && forall|j: int| 0 <= j < k ==> !(valid_member(ms[j], wx) && member_name(ms[j]) == f.name@)
}

proof fn lemma_outcome_names(ms: Seq<MemberDecl>, wx: Seq<char>, n: Seq<char>)
    ensures
        members_outcome(ms, wx).0.contains(n) <==> exists|j: int|
            0 <= j < ms.len() && valid_member(ms[j], wx) && member_name(ms[j]) == n,
    decreases ms.len(),
{
    if ms.len() > 0 {
        lemma_outcome_names(ms.drop_last(), wx, n);
        let ms0 = ms.drop_last();
        if exists|j: int| 0 <= j < ms0.len() && valid_member(ms0[j], wx) && member_name(ms0[j]) == n {
            let j = choose|j: int| 0 <= j < ms0.len() && valid_member(ms0[j], wx) && member_name(ms0[j]) == n;
            assert(ms[j] == ms0[j]);
        }
        if exists|j: int| 0 <= j < ms.len() && valid_member(ms[j], wx) && member_name(ms[j]) == n {
            let j = choose|j: int| 0 <= j < ms.len() && valid_member(ms[j], wx) && member_name(ms[j]) == n;
            if j < ms.len() - 1 {
                assert(ms0[j] == ms[j]);
            }
        }
    }
}

/// Builds an interface from its declaration. A declaration with type
/// parameters, an `extends` clause, a reserved name or no members is rejected
/// with that one problem, before its members are looked at. Otherwise each
/// member is built in order: a member with problems is dropped and its
/// problems recorded, and a function whose name an earlier one already has is
/// dropped with a problem of its own.
pub fn build_interface(decl: &InterfaceDecl, filename: &str, imports: &Imports) -> (r: (
    Option<Interface>,
    Vec<Problem>,
))
    ensures
        match interface_problem(*decl) {
            Some(p) => r.0 is None && r.1@ == seq![p],
            None => {
                let wx = imports.ident_wxpromise@;
                let (ns, ps) = members_outcome(decl.members@, wx);
                &&& r.0 is Some
                &&& r.1@ == ps
                &&& r.0->0.name@ == decl.name@
                &&& r.0->0.filename@ == filename@
                &&& r.0->0.comment.lines_view() == extracted_lines(decl.comments@)
                &&& r.0->0.comment.style == extracted_style(decl.comments@)
                &&& r.0->0.imports.view_statements() == imports.view_statements()
                &&& r.0->0.imports.ident_wxpromise@ == wx
                &&& strictly_sorted(r.0->0.functions@)
                &&& forall|n: Seq<char>| ns.contains(n) <==> has_key(r.0->0.functions@, n)
                &&& forall|q: int|
                    0 <= q < r.0->0.functions@.len() ==> from_first_valid(
                        #[trigger] r.0->0.functions@[q],
                        decl.members@,
                        wx,
                    )
            },
        },
{
    let mut problems: Vec<Problem> = Vec::new();
    if decl.has_type_params {
        problems.push(Problem::InterfaceTypeParams);
        return (None, problems);
    }
    if decl.has_extends {
        problems.push(Problem::InterfaceExtends);
        return (None, problems);
    }
    if str_starts_with(decl.name.as_str(), "_wx") {
        problems.push(Problem::ReservedInterfaceName);
        return (None, problems);
    }
    if decl.members.len() == 0 {
        problems.push(Problem::EmptyInterface);
        return (None, problems);
    }
    let wx = imports.ident_wxpromise.as_str();
    let ghost ms = decl.members@;
    let mut functions: Vec<Function> = Vec::new();
    let mut i: usize = 0;
    while i < decl.members.len()
        invariant
            i <= ms.len(),
            ms == decl.members@,
            wx@ == imports.ident_wxpromise@,
            strictly_sorted(functions@),
            problems@ == members_outcome(ms.subrange(0, i as int), wx@).1,
            forall|n: Seq<char>|
                members_outcome(ms.subrange(0, i as int), wx@).0.contains(n) <==> has_key(functions@, n),
            forall|q: int| 0 <= q < functions@.len() ==> from_first_valid(#[trigger] functions@[q], ms, wx@),
        decreases ms.len() - i,
    {
        let ghost pre = ms.subrange(0, i as int);
        assert(ms.subrange(0, i + 1).drop_last() =~= pre);
        let ghost old_fs = functions@;
        match build_function(&decl.members[i], wx) {
            Err(ps) => {
                let mut ps = ps;
                let ghost before = problems@;
                problems.append(&mut ps);
                assert(problems@ =~= before + member_problems(ms[i as int], wx@));
            },
            Ok(f) => {
                let ghost fname = f.name@;
                let ghost gf = f;
                match insert_sorted(&mut functions, f) {
                    Ok(()) => {
                        proof {
                            lemma_outcome_names(pre, wx@, fname);
                            assert(from_first_valid(gf, ms, wx@)) by {
                                assert forall|j: int| 0 <= j < i implies !(valid_member(ms[j], wx@)
                                    && member_name(ms[j]) == fname) by {
                                    if valid_member(ms[j], wx@) && member_name(ms[j]) == fname {
                                        assert(pre[j] == ms[j]);
                                    }
                                }
                                assert(valid_member(ms[i as int], wx@));
                            }
                            let p = choose|p: int| 0 <= p <= old_fs.len() && functions@ == old_fs.insert(p, f);
                            assert forall|q: int| 0 <= q < functions@.len() implies from_first_valid(
                                #[trigger] functions@[q],
                                ms,
                                wx@,
                            ) by {
                                if q < p {
                                    assert(functions@[q] == old_fs[q]);
                                } else if q > p {
                                    assert(functions@[q] == old_fs[q - 1]);
                                }
                            }
                            assert forall|n: Seq<char>|
                                members_outcome(ms.subrange(0, i + 1), wx@).0.contains(n) <==> has_key(
                                    functions@,
                                    n,
                                ) by {
                                if has_key(functions@, n) {
                                    let q = choose|q: int| 0 <= q < functions@.len() && functions@[q].key() == n;
                                    if q < p {
                                        assert(functions@[q] == old_fs[q]);
                                    } else if q > p {
                                        assert(functions@[q] == old_fs[q - 1]);
                                    }
                                }
                                if has_key(old_fs, n) {
                                    let q = choose|q: int| 0 <= q < old_fs.len() && old_fs[q].key() == n;
                                    if q < p {
                                        assert(functions@[q] == old_fs[q]);
                                    } else {
                                        assert(functions@[q + 1] == old_fs[q]);
                                    }
                                }
                                assert(functions@[p] == f);
                            }
                        }
                    },
                    Err(f) => {
                        proof {
                            lemma_outcome_names(pre, wx@, fname);
                        }
                        let name = match &decl.members[i] {
                            MemberDecl::Method(md) => match &md.name {
                                Some(n) => n.clone(),
                                None => f.name,
                            },
                            _ => f.name,
                        };
                        problems.push(Problem::DuplicateFunction(name));
                    },
                }
            },
        }
        i += 1;
    }
    assert(ms.subrange(0, i as int) =~= ms);
    let comment = parse_comment(&decl.comments);
    let interface = Interface::new(
        decl.name.clone(),
        String::from_str(filename),
        comment,
        imports.clone(),
        functions,
    );
    (Some(interface), problems)
}

} // verus!
