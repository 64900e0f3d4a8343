//! Collecting the interfaces of all source files of a package, with every
//! problem found on the way.
use vstd::prelude::*;
use vstd::string::*;

use crate::decl::{InterfaceDecl, ModuleItem, SourceFile};
use crate::function::Problem;
use crate::import::{import_views, with_runtime_ident, Import, ImportView, Imports};
use crate::interface::{build_interface, from_first_valid, interface_problem, members_outcome, Interface};
use crate::sorted::{has_key, insert_sorted, keeps, lemma_inserted, strictly_sorted, Named};
use crate::text::{is_suffix, str_ends_with};

verus! {

/// A problem, with the interface it was found in (or, for a misplaced import,
/// the file).
#[derive(Debug)]
pub struct Diagnostic {
    pub problem: Problem,
    pub subject: String,
}

pub open spec fn diag_views(v: Seq<Diagnostic>) -> Seq<(Problem, Seq<char>)> {
    v.map_values(|d: Diagnostic| (d.problem, d.subject@))
}

/// Import state of one file while its items are read: imports are gathered
/// until the first interface, after which they are fixed and shared by every
/// interface of the file.
#[derive(Debug)]
pub enum ParseImportState {
    Importing(Vec<Import>),
    Fixed(Imports),
}

impl ParseImportState {
    pub fn new() -> (r: ParseImportState)
        ensures
            r is Importing && r->Importing_0@.len() == 0,
    {
        ParseImportState::Importing(Vec::new())
    }

    /// Adds an import while imports are still gathered; returns false, and
    /// leaves the state alone, once they are fixed.
    #[must_use]
    pub fn check_and_add(&mut self, import: Import) -> (r: bool)
        ensures
            r == (*old(self)) is Importing,
            r ==> (*final(self)) is Importing && import_views((*final(self))->Importing_0@) == import_views(
                (*old(self))->Importing_0@,
            ).push(import@),
            !r ==> *final(self) == *old(self),
    {
        match self {
            ParseImportState::Importing(imports) => {
                let ghost before = imports@;
                imports.push(import);
                assert(import_views(imports@) =~= import_views(before).push(import@));
                true
            },
            ParseImportState::Fixed(_) => false,
        }
    }

    /// The imports every interface of the file uses, fixing them on first use.
    pub fn fixed(&mut self) -> (r: Imports)
        ensures
            (*final(self)) is Fixed,
            (*old(self)) is Fixed ==> *final(self) == *old(self),
            ({
                let i = (*final(self))->Fixed_0;
                &&& r.view_statements() == i.view_statements()
                &&& r.ident_wxpromise@ == i.ident_wxpromise@
            }),
            (*old(self)) is Importing ==> ({
                let (s, added, active) = with_runtime_ident(
                    import_views((*old(self))->Importing_0@),
                    "WxPromise"@,
                    false,
                );
                let i = (*final(self))->Fixed_0;
                i.view_statements() == s && i.ident_wxpromise@ == active
            }),
    {
        match self {
            ParseImportState::Fixed(i) => i.clone(),
            ParseImportState::Importing(v) => {
                let mut taken: Vec<Import> = Vec::new();
                std::mem::swap(v, &mut taken);
                let imports = Imports::new(taken);
                let r = imports.clone();
                *self = ParseImportState::Fixed(imports);
                r
            },
        }
    }
}

/// Index of the first interface among `items` at or after `k`, or `items.len()`.
pub open spec fn first_interface(items: Seq<ModuleItem>, k: int) -> int
    decreases items.len() - k,
{
    if k < 0 || k >= items.len() {
        items.len() as int
    } else if items[k] is Interface {
        k
    } else {
        first_interface(items, k + 1)
    }
}

/// The imports of a file that come before its first interface.
pub open spec fn leading_imports(items: Seq<ModuleItem>) -> Seq<ImportView> {
    items.subrange(0, first_interface(items, 0)).map_values(|it: ModuleItem| it->Import_0@)
}

/// The local name of the async-result wrapper in a file.
pub open spec fn file_wx(items: Seq<ModuleItem>) -> Seq<char> {
    with_runtime_ident(leading_imports(items), "WxPromise"@, false).2
}

/// The problems of one interface declaration, each with the interface name.
pub open spec fn decl_diags(d: InterfaceDecl, wx: Seq<char>) -> Seq<(Problem, Seq<char>)> {
    match interface_problem(d) {
        Some(p) => seq![(p, d.name@)],
        None => members_outcome(d.members@, wx).1.map_values(|p: Problem| (p, d.name@)),
    }
}

/// Interface names kept and problems found after reading `items` of one file
/// (named `file`, with wrapper name `wx`), starting from the names `ns`.
pub open spec fn items_outcome(
    items: Seq<ModuleItem>,
    file: Seq<char>,
    wx: Seq<char>,
    ns: Set<Seq<char>>,
) -> (Set<Seq<char>>, Seq<(Problem, Seq<char>)>)
    decreases items.len(),
{
    if items.len() == 0 {
        (ns, seq![])
    } else {
        let (ns1, ds) = items_outcome(items.drop_last(), file, wx, ns);
        match items.last() {
            ModuleItem::Import(_) => if first_interface(items.drop_last(), 0) < items.len() - 1 {
                (ns1, ds.push((Problem::ImportAfterInterface, file)))
            } else {
                (ns1, ds)
            },
            ModuleItem::Interface(d) => {
                let ds1 = ds + decl_diags(d, wx);
                if interface_problem(d) is Some {
                    (ns1, ds1)
                } else if ns1.contains(d.name@) {
                    (ns1, ds1.push((Problem::DuplicateInterface, d.name@)))
                } else {
                    (ns1.insert(d.name@), ds1)
                }
            },
        }
    }
}

/// Interface names kept and problems found after reading `files` in order.
pub open spec fn files_outcome(files: Seq<SourceFile>) -> (Set<Seq<char>>, Seq<(Problem, Seq<char>)>)
    decreases files.len(),
{
    if files.len() == 0 {
        (Set::empty(), seq![])
    } else {
        let (ns, ds) = files_outcome(files.drop_last());
        let f = files.last();
        let (ns1, ds1) = items_outcome(f.items@, f.filename@, file_wx(f.items@), ns);
        (ns1, ds + ds1)
    }
}

/// `i` was built from an interface declaration of `file`.
pub open spec fn built_in_file(i: Interface, file: SourceFile) -> bool {
    exists|k: int|
        0 <= k < file.items@.len() && #[trigger] file.items@[k] is Interface && {
            let d = file.items@[k]->Interface_0;
            let wx = file_wx(file.items@);
            &&& interface_problem(d) is None
            &&& i.name@ == d.name@
            &&& i.filename@ == file.filename@
            &&& i.imports.ident_wxpromise@ == wx
            &&& strictly_sorted(i.functions@)
            &&& forall|n: Seq<char>| members_outcome(d.members@, wx).0.contains(n) <==> has_key(i.functions@, n)
            &&& forall|q: int|
                0 <= q < i.functions@.len() ==> from_first_valid(#[trigger] i.functions@[q], d.members@, wx)
        }
}

/// `i` was built from an interface declaration of one of `files`.
pub open spec fn built_from(i: Interface, files: Seq<SourceFile>) -> bool {
    exists|f: int| 0 <= f < files.len() && built_in_file(i, #[trigger] files[f])
}

proof fn lemma_first_interface_prefix(items: Seq<ModuleItem>, k: int, j: int)
    requires
        0 <= j <= k <= items.len(),
    ensures
        first_interface(items.subrange(0, k), j) == if first_interface(items, j) < k {
            first_interface(items, j)
        } else {
            k
        },
        j <= first_interface(items, j) <= items.len(),
    decreases k - j,
{
    if j < k {
        lemma_first_interface_prefix(items, k, j + 1);
    } else {
        lemma_first_interface_bounds(items, j);
    }
}

proof fn lemma_first_interface_bounds(items: Seq<ModuleItem>, j: int)
    requires
        0 <= j <= items.len(),
    ensures
        j <= first_interface(items, j) <= items.len(),
        forall|x: int| j <= x < first_interface(items, j) ==> items[x] is Import,
        first_interface(items, j) < items.len() ==> items[first_interface(items, j)] is Interface,
    decreases items.len() - j,
{
    if j < items.len() && !(items[j] is Interface) {
        lemma_first_interface_bounds(items, j + 1);
    }
}

/// The interfaces and problems gathered from the files read so far.
#[derive(Debug)]
pub struct Context {
    /// Interfaces, sorted by name
    pub interfaces: Vec<Interface>,
    pub diagnostics: Vec<Diagnostic>,
}

impl Context {
    pub fn new() -> (r: Context)
        ensures
            r.interfaces@.len() == 0,
            r.diagnostics@.len() == 0,
    {
        Context { interfaces: Vec::new(), diagnostics: Vec::new() }
    }

    /// The names of the interfaces gathered so far.
    pub open spec fn names(&self) -> Set<Seq<char>> {
        Set::new(|n: Seq<char>| has_key(self.interfaces@, n))
    }

    /// Reads the items of one file in order: imports are gathered up to the
    /// first interface and shared by all interfaces of the file; a later import
    /// is a problem. Each interface declaration is built, and kept unless an
    /// interface of its name was kept before.
    pub fn parse_file(&mut self, file: &SourceFile)
        requires
            strictly_sorted(old(self).interfaces@),
        ensures
            ({
                let (ns, ds) = items_outcome(
                    file.items@,
                    file.filename@,
                    file_wx(file.items@),
                    old(self).names(),
                );
                &&& final(self).names() == ns
                &&& diag_views(final(self).diagnostics@) == diag_views(old(self).diagnostics@) + ds
            }),
            strictly_sorted(final(self).interfaces@),
            keeps(final(self).interfaces@, old(self).interfaces@),
            forall|q: int|
                0 <= q < final(self).interfaces@.len() ==> old(self).interfaces@.contains(
                    #[trigger] final(self).interfaces@[q],
                ) || built_in_file(final(self).interfaces@[q], *file),
    {
        let ghost items = file.items@;
        let ghost wx = file_wx(items);
        let ghost ns0 = self.names();
        let ghost d0 = diag_views(self.diagnostics@);
        let ghost old_is = self.interfaces@;
        let mut state = ParseImportState::new();
        let mut i: usize = 0;
        proof {
            lemma_first_interface_bounds(items, 0);
            assert(items.subrange(0, 0) =~= Seq::<ModuleItem>::empty());
            assert(d0 + seq![] =~= d0);
            assert(self.names() =~= ns0);
            assert forall|j: int| 0 <= j < old_is.len() implies self.interfaces@.contains(#[trigger] old_is[j]) by {
                assert(self.interfaces@[j] == old_is[j]);
            }
        }
        while i < file.items.len()
            invariant
                i <= items.len(),
                items == file.items@,
                wx == file_wx(items),
                0 <= first_interface(items, 0) <= items.len(),
                forall|x: int| 0 <= x < first_interface(items, 0) ==> items[x] is Import,
                first_interface(items, 0) < items.len() ==> items[first_interface(items, 0)] is Interface,
                strictly_sorted(self.interfaces@),
                ({
                    let (ns, ds) = items_outcome(items.subrange(0, i as int), file.filename@, wx, ns0);
                    self.names() == ns && diag_views(self.diagnostics@) == d0 + ds
                }),
                state is Importing <==> i <= first_interface(items, 0),
                state is Importing ==> import_views(state->Importing_0@) == items.subrange(0, i as int).map_values(
                    |it: ModuleItem| it->Import_0@,
                ),
                state is Fixed ==> state->Fixed_0.ident_wxpromise@ == wx,
                keeps(self.interfaces@, old_is),
                forall|q: int|
                    0 <= q < self.interfaces@.len() ==> old_is.contains(#[trigger] self.interfaces@[q])
                        || built_in_file(self.interfaces@[q], *file),
            decreases items.len() - i,
        {
            let ghost pre = items.subrange(0, i as int);
            let ghost pre1 = items.subrange(0, i + 1);
            assert(pre1.drop_last() =~= pre);
            assert(pre1.last() == items[i as int]);
            proof {
                lemma_first_interface_prefix(items, i as int, 0);
            }
            match &file.items[i] {
                ModuleItem::Import(imp) => {
                    let ok = state.check_and_add(imp.clone());
                    if !ok {
                        let ghost before = self.diagnostics@;
                        self.diagnostics.push(
                            Diagnostic { problem: Problem::ImportAfterInterface, subject: file.filename.clone() },
                        );
                        assert(diag_views(self.diagnostics@) =~= diag_views(before).push(
                            (Problem::ImportAfterInterface, file.filename@),
                        ));
                    } else {
                        assert(pre1.map_values(|it: ModuleItem| it->Import_0@) =~= pre.map_values(
                            |it: ModuleItem| it->Import_0@,
                        ).push(imp@));
                    }
                },
                ModuleItem::Interface(d) => {
                    let ghost was_importing = state is Importing;
                    let imports = state.fixed();
                    proof {
                        if was_importing {
                            assert(i == first_interface(items, 0));
                            assert(leading_imports(items) == pre.map_values(|it: ModuleItem| it->Import_0@));
                        }
                    }
                    let (built, problems) = build_interface(d, file.filename.as_str(), &imports);
                    let ghost before = diag_views(self.diagnostics@);
                    let ghost is_mid = self.interfaces@;
                    let mut k: usize = 0;
                    while k < problems.len()
                        invariant
                            k <= problems@.len(),
                            self.interfaces@ == is_mid,
                            diag_views(self.diagnostics@) == before + problems@.subrange(0, k as int).map_values(
                                |p: Problem| (p, d.name@),
                            ),
                        decreases problems@.len() - k,
                    {
                        let ghost b = self.diagnostics@;
                        let p = problems[k].clone_problem();
                        self.diagnostics.push(Diagnostic { problem: p, subject: d.name.clone() });
                        assert(problems@.subrange(0, k + 1).map_values(|p: Problem| (p, d.name@))
                            =~= problems@.subrange(0, k as int).map_values(|p: Problem| (p, d.name@)).push(
                            (problems@[k as int], d.name@),
                        ));
                        assert(diag_views(self.diagnostics@) =~= diag_views(b).push((p, d.name@)));
                        k += 1;
                    }
                    assert(problems@.subrange(0, k as int) =~= problems@);
                    assert(problems@.map_values(|p: Problem| (p, d.name@)) =~= decl_diags(*d, wx));
                    match built {
                        Some(iface) => {
                            let ghost gi = iface;
                            let ghost old_v = self.interfaces@;
                            let ghost old_names = self.names();
                            assert(built_in_file(gi, *file)) by {
                                assert(file.items@[i as int] is Interface);
                            }
                            match insert_sorted(&mut self.interfaces, iface) {
                                Ok(()) => {
                                    proof {
                                        let p = choose|p: int|
                                            0 <= p <= old_v.len() && self.interfaces@ == old_v.insert(p, gi);
                                        lemma_inserted(old_v, p, gi);
                                        assert(self.names() =~= old_names.insert(d.name@));
                                        assert forall|j: int| 0 <= j < old_is.len() implies self.interfaces@.contains(
                                            #[trigger] old_is[j],
                                        ) by {
                                            assert(old_v.contains(old_is[j]));
                                            let q = choose|q: int| 0 <= q < old_v.len() && old_v[q] == old_is[j];
                                            assert(self.interfaces@.contains(old_v[q]));
                                        }
                                        assert forall|q: int| 0 <= q < self.interfaces@.len() implies old_is.contains(
                                            #[trigger] self.interfaces@[q],
                                        ) || built_in_file(self.interfaces@[q], *file) by {
                                            if old_v.contains(self.interfaces@[q]) {
                                                let j = choose|j: int| 0 <= j < old_v.len() && old_v[j] == self.interfaces@[q];
                                                assert(old_is.contains(old_v[j]) || built_in_file(old_v[j], *file));
                                            }
                                        }
                                    }
                                },
                                Err(_) => {
                                    let ghost b = self.diagnostics@;
                                    self.diagnostics.push(
                                        Diagnostic { problem: Problem::DuplicateInterface, subject: d.name.clone() },
                                    );
                                    assert(diag_views(self.diagnostics@) =~= diag_views(b).push(
                                        (Problem::DuplicateInterface, d.name@),
                                    ));
                                    assert(old_names.contains(d.name@));
                                },
                            }
                        },
                        None => {},
                    }
                },
            }
            i += 1;
        }
        assert(items.subrange(0, i as int) =~= items);
    }
}

impl Context {
    /// Reads all source files in order, starting from nothing gathered, and
    /// returns their interfaces sorted by name, or every problem found when
    /// there is any.
    pub fn parse(self, files: &Vec<SourceFile>) -> (r: Result<Vec<Interface>, Vec<Diagnostic>>)
        requires
            self.interfaces@.len() == 0,
            self.diagnostics@.len() == 0,
        ensures
            r is Ok <==> files_outcome(files@).1.len() == 0,
            r is Err ==> diag_views(r->Err_0@) == files_outcome(files@).1,
            r is Ok ==> ({
                let is = r->Ok_0@;
                &&& strictly_sorted(is)
                &&& forall|n: Seq<char>| files_outcome(files@).0.contains(n) <==> has_key(is, n)
                &&& forall|q: int| 0 <= q < is.len() ==> built_from(#[trigger] is[q], files@)
            }),
    {
        let mut ctx = self;
        let mut f: usize = 0;
        proof {
            assert(ctx.names() =~= Set::<Seq<char>>::empty());
            assert(diag_views(ctx.diagnostics@) =~= Seq::<(Problem, Seq<char>)>::empty());
        }
        while f < files.len()
            invariant
                f <= files@.len(),
                strictly_sorted(ctx.interfaces@),
                ({
                    let (ns, ds) = files_outcome(files@.subrange(0, f as int));
                    ctx.names() == ns && diag_views(ctx.diagnostics@) == ds
                }),
                forall|q: int| 0 <= q < ctx.interfaces@.len() ==> built_from(#[trigger] ctx.interfaces@[q], files@),
            decreases files@.len() - f,
        {
            let ghost old_is = ctx.interfaces@;
            ctx.parse_file(&files[f]);
            proof {
                assert(files@.subrange(0, f + 1).drop_last() =~= files@.subrange(0, f as int));
                assert forall|q: int| 0 <= q < ctx.interfaces@.len() implies built_from(
                    #[trigger] ctx.interfaces@[q],
                    files@,
                ) by {
                    if old_is.contains(ctx.interfaces@[q]) {
                        let j = choose|j: int| 0 <= j < old_is.len() && old_is[j] == ctx.interfaces@[q];
                        assert(built_from(old_is[j], files@));
                    } else {
                        assert(built_in_file(ctx.interfaces@[q], files@[f as int]));
                    }
                }
            }
            f += 1;
        }
        assert(files@.subrange(0, f as int) =~= files@);
        if ctx.diagnostics.len() > 0 {
            return Err(ctx.diagnostics);
        }
        proof {
            assert forall|n: Seq<char>| files_outcome(files@).0.contains(n) <==> has_key(ctx.interfaces@, n) by {
                assert(ctx.names().contains(n) == has_key(ctx.interfaces@, n));
            }
        }
        Ok(ctx.interfaces)
    }

}

/// Reads all source files in order and returns their interfaces sorted by
/// name, or every problem found when there is any.
pub fn load_interfaces_from_inputs(files: &Vec<SourceFile>) -> (r: Result<Vec<Interface>, Vec<Diagnostic>>)
    ensures
        r is Ok <==> files_outcome(files@).1.len() == 0,
        r is Err ==> diag_views(r->Err_0@) == files_outcome(files@).1,
        r is Ok ==> ({
            let is = r->Ok_0@;
            &&& strictly_sorted(is)
            &&& forall|n: Seq<char>| files_outcome(files@).0.contains(n) <==> has_key(is, n)
            &&& forall|q: int| 0 <= q < is.len() ==> built_from(#[trigger] is[q], files@)
        }),
{
    Context::new().parse(files)
}

/// Errors from parsing inputs
#[derive(Debug)]
pub enum Error {
    /// An input file name is reserved for output files.
    Filename,
    /// An input file could not be loaded.
    LoadFile,
    /// Problems were found in the inputs.
    Parsing,
}

/// File names that output modules use.
pub open spec fn is_reserved_file_name(name: Seq<char>) -> bool {
    is_suffix(".bus.ts"@, name)
}

/// Reads the parsed input files: a file whose name is one that output modules
/// use is refused; otherwise the interfaces of all files, sorted by name, or
/// `Parsing` when any problem was found.
pub fn parse(files: &Vec<SourceFile>) -> (r: Result<Vec<Interface>, Error>)
    ensures
        (exists|i: int| 0 <= i < files@.len() && is_reserved_file_name(#[trigger] files@[i].filename@)) ==> r is Err
            && r->Err_0 is Filename,
        !(exists|i: int| 0 <= i < files@.len() && is_reserved_file_name(#[trigger] files@[i].filename@)) ==> (r
            is Ok <==> files_outcome(files@).1.len() == 0) && (r is Err ==> r->Err_0 is Parsing) && (r is Ok
            ==> strictly_sorted(r->Ok_0@) && (forall|n: Seq<char>|
            files_outcome(files@).0.contains(n) <==> has_key(r->Ok_0@, n)) && forall|q: int|
            0 <= q < r->Ok_0@.len() ==> built_from(#[trigger] r->Ok_0@[q], files@)),
{
    let mut i: usize = 0;
    while i < files.len()
        invariant
            i <= files@.len(),
            forall|j: int| 0 <= j < i ==> !is_reserved_file_name(#[trigger] files@[j].filename@),
        decreases files@.len() - i,
    {
        if str_ends_with(files[i].filename.as_str(), ".bus.ts") {
            return Err(Error::Filename);
        }
        i += 1;
    }
    match load_interfaces_from_inputs(files) {
        Ok(v) => Ok(v),
        Err(_) => Err(Error::Parsing),
    }
}

} // verus!
