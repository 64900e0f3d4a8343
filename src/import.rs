//! Import statements of a source file, and their reconciliation with the
//! identifiers that generated code needs from the runtime library.
use vstd::prelude::*;
use vstd::string::*;

use crate::text::{is_prefix, str_eq, str_starts_with};

verus! {

/// The module specifier of the runtime library.
pub const WORKEX_IMPORT: &'static str = "@pistonite/workex";

/// An `import` statement
#[derive(Debug)]
pub enum Import {
    /// An unparsed import because it contains unsupported syntax
    Opaque(String),
    /// A regular parsed import
    Import {
        /// If the import has the `type` keyword (`import type`)
        is_type: bool,
        /// The identifiers in the import block
        idents: Vec<ImportIdent>,
        /// The string in the `from` part of the import statement
        from: String,
    },
}

/// An identifier in an import statement, such as `Foo as FooRenamed`
#[derive(Debug)]
pub struct ImportIdent {
    /// Whether the import has the `type` keyword
    pub is_type: bool,
    /// The identifier for the import
    pub ident: String,
    /// The identifier to rename the import to
    pub rename: Option<String>,
}

/// What an [`ImportIdent`] says.
pub struct IdentView {
    pub is_type: bool,
    pub ident: Seq<char>,
    pub rename: Option<Seq<char>>,
}

/// What an [`Import`] says.
pub enum ImportView {
    Opaque(Seq<char>),
    Import { is_type: bool, idents: Seq<IdentView>, from: Seq<char> },
}

impl IdentView {
    /// The name under which the identifier is visible in the importing module.
    pub open spec fn active(self) -> Seq<char> {
        match self.rename {
            Some(r) => r,
            None => self.ident,
        }
    }
}

impl View for ImportIdent {
    type V = IdentView;

    open spec fn view(&self) -> IdentView {
        IdentView {
            is_type: self.is_type,
            ident: self.ident@,
            rename: match self.rename {
                Some(r) => Some(r@),
                None => None,
            },
        }
    }
}

pub open spec fn ident_views(v: Seq<ImportIdent>) -> Seq<IdentView> {
    v.map_values(|x: ImportIdent| x@)
}

impl View for Import {
    type V = ImportView;

    open spec fn view(&self) -> ImportView {
        match self {
            Import::Opaque(s) => ImportView::Opaque(s@),
            Import::Import { is_type, idents, from } => ImportView::Import {
                is_type: *is_type,
                idents: ident_views(idents@),
                from: from@,
            },
        }
    }
}

pub open spec fn import_views(v: Seq<Import>) -> Seq<ImportView> {
    v.map_values(|x: Import| x@)
}

impl Clone for ImportIdent {
    fn clone(&self) -> (r: Self)
        ensures
            r@ == self@,
    {
        let rename = match &self.rename {
            Some(r) => Some(r.clone()),
            None => None,
        };
        ImportIdent { is_type: self.is_type, ident: self.ident.clone(), rename }
    }
}

impl Clone for Import {
    fn clone(&self) -> (r: Self)
        ensures
            r@ == self@,
    {
        match self {
            Import::Opaque(s) => Import::Opaque(s.clone()),
            Import::Import { is_type, idents, from } => {
                let v = idents.clone();
                assert(ident_views(v@) =~= ident_views(idents@));
                Import::Import { is_type: *is_type, idents: v, from: from.clone() }
            },
        }
    }
}

/// Whether an import is a structured import of the runtime library.
pub open spec fn is_runtime(i: ImportView) -> bool {
    match i {
        ImportView::Import { from, .. } => from == WORKEX_IMPORT@,
        ImportView::Opaque(_) => false,
    }
}

/// Index of the first runtime import of `s` at or after `k`, or `s.len()`.
pub open spec fn runtime_index(s: Seq<ImportView>, k: int) -> int
    decreases s.len() - k,
{
    if k < 0 || k >= s.len() {
        s.len() as int
    } else if is_runtime(s[k]) {
        k
    } else {
        runtime_index(s, k + 1)
    }
}

/// Index of the first identifier of `ids` at or after `k` imported under the
/// upstream name `name`, or `ids.len()`.
pub open spec fn ident_index(ids: Seq<IdentView>, name: Seq<char>, k: int) -> int
    decreases ids.len() - k,
{
    if k < 0 || k >= ids.len() {
        ids.len() as int
    } else if ids[k].ident == name {
        k
    } else {
        ident_index(ids, name, k + 1)
    }
}

/// The identifiers of a type-only statement, each now marked type-only itself.
pub open spec fn all_type_only(ids: Seq<IdentView>) -> Seq<IdentView> {
    ids.map_values(|x: IdentView| IdentView { is_type: true, ..x })
}

/// A new, not renamed identifier.
pub open spec fn plain_ident(name: Seq<char>, is_type: bool) -> IdentView {
    IdentView { is_type, ident: name, rename: None }
}

/// The statements after making `name` importable from the runtime library
/// (as a value when `value`, else as a type), whether an identifier was added,
/// and the name to use for it in code.
pub open spec fn with_runtime_ident(s: Seq<ImportView>, name: Seq<char>, value: bool) -> (
    Seq<ImportView>,
    bool,
    Seq<char>,
) {
    let k = runtime_index(s, 0);
    if k < s.len() {
        match s[k] {
            ImportView::Import { is_type, idents, from } => {
                let j = ident_index(idents, name, 0);
                if j < idents.len() && is_type && value {
                    (
                        s.update(k, ImportView::Import { is_type: false, idents: all_type_only(idents), from }),
                        false,
                        idents[j].active(),
                    )
                } else if j < idents.len() {
                    (s, false, idents[j].active())
                } else if is_type && value {
                    (
                        s.update(
                            k,
                            ImportView::Import {
                                is_type: false,
                                idents: all_type_only(idents).push(plain_ident(name, false)),
                                from,
                            },
                        ),
                        true,
                        name,
                    )
                } else {
                    (
                        s.update(
                            k,
                            ImportView::Import {
                                is_type,
                                idents: idents.push(plain_ident(name, !value)),
                                from,
                            },
                        ),
                        true,
                        name,
                    )
                }
            },
            ImportView::Opaque(_) => (s, false, name),
        }
    } else {
        (
            s.push(
                ImportView::Import {
                    is_type: !value,
                    idents: seq![plain_ident(name, false)],
                    from: WORKEX_IMPORT@,
                },
            ),
            true,
            name,
        )
    }
}

impl ImportIdent {
    /// The name under which the identifier is visible in the importing module.
    pub fn active_ident(&self) -> (r: &str)
        ensures
            r@ == self@.active(),
    {
        match &self.rename {
            Some(r) => r.as_str(),
            None => self.ident.as_str(),
        }
    }
}

impl Import {
    /// Return if this import is `import type? { ... } from "@pistonite/workex"`,
    pub fn is_workex(&self) -> (r: bool)
        ensures
            r == is_runtime(self@),
    {
        match self {
            Import::Opaque(_) => false,
            Import::Import { from, .. } => str_eq(from.as_str(), WORKEX_IMPORT),
        }
    }
}

proof fn lemma_runtime_index(s: Seq<ImportView>, k: int)
    requires
        0 <= k <= s.len(),
    ensures
        k <= runtime_index(s, k) <= s.len(),
        runtime_index(s, k) < s.len() ==> is_runtime(s[runtime_index(s, k)]),
    decreases s.len() - k,
{
    if k < s.len() && !is_runtime(s[k]) {
        lemma_runtime_index(s, k + 1);
    }
}

proof fn lemma_ident_index(ids: Seq<IdentView>, name: Seq<char>, k: int)
    requires
        0 <= k <= ids.len(),
    ensures
        k <= ident_index(ids, name, k) <= ids.len(),
        ident_index(ids, name, k) < ids.len() ==> ids[ident_index(ids, name, k)].ident == name,
    decreases ids.len() - k,
{
    if k < ids.len() && ids[k].ident != name {
        lemma_ident_index(ids, name, k + 1);
    }
}

proof fn lemma_runtime_index_none(s: Seq<ImportView>, k: int)
    requires
        0 <= k <= s.len(),
        runtime_index(s, k) == s.len(),
    ensures
        forall|j: int| k <= j < s.len() ==> !is_runtime(s[j]),
    decreases s.len() - k,
{
    if k < s.len() {
        lemma_runtime_index_none(s, k + 1);
    }
}

proof fn lemma_runtime_index_same(s: Seq<ImportView>, t: Seq<ImportView>, k: int, r: int)
    requires
        0 <= k <= r,
        r < s.len(),
        r < t.len(),
        runtime_index(s, k) == r,
        is_runtime(t[r]),
        forall|j: int| k <= j < r ==> s[j] == t[j],
    ensures
        runtime_index(t, k) == r,
    decreases r - k,
{
    if k < r {
        lemma_runtime_index_same(s, t, k + 1, r);
    }
}

proof fn lemma_ident_index_none(ids: Seq<IdentView>, name: Seq<char>, k: int)
    requires
        0 <= k <= ids.len(),
        ident_index(ids, name, k) == ids.len(),
    ensures
        forall|j: int| k <= j < ids.len() ==> ids[j].ident != name,
    decreases ids.len() - k,
{
    if k < ids.len() {
        lemma_ident_index_none(ids, name, k + 1);
    }
}

proof fn lemma_ident_index_same(a: Seq<IdentView>, b: Seq<IdentView>, name: Seq<char>, k: int, r: int)
    requires
        0 <= k <= r <= a.len(),
        r <= b.len(),
        ident_index(a, name, k) == r,
        r < b.len() ==> b[r].ident == name,
        forall|j: int| k <= j < r ==> a[j].ident == b[j].ident,
    ensures
        ident_index(b, name, k) == if r < b.len() {
            r
        } else {
            b.len() as int
        },
    decreases r - k,
{
    if k < r {
        lemma_ident_index_same(a, b, name, k + 1, r);
    }
}

/// `name` is imported by the runtime import of `t`, whose statement is not
/// type-only when `value`, and `a` is its name in code.
pub open spec fn binds(t: Seq<ImportView>, name: Seq<char>, value: bool, a: Seq<char>) -> bool {
    let k = runtime_index(t, 0);
    let j = ident_index(t[k]->idents, name, 0);
    &&& 0 <= k < t.len()
    &&& t[k] is Import
    &&& j < t[k]->idents.len()
    &&& t[k]->idents[j].active() == a
    &&& value ==> !t[k]->is_type
}

proof fn lemma_bound_is_kept(t: Seq<ImportView>, name: Seq<char>, value: bool)
    requires
        exists|a: Seq<char>| binds(t, name, value, a),
    ensures
        with_runtime_ident(t, name, value).0 == t,
        binds(t, name, value, with_runtime_ident(t, name, value).2),
{
}

proof fn lemma_add_binds(
    t: Seq<ImportView>,
    name: Seq<char>,
    value: bool,
    m: Seq<char>,
    vm: bool,
    c: Seq<char>,
)
    ensures
        binds(with_runtime_ident(t, name, value).0, name, value, with_runtime_ident(t, name, value).2),
        binds(t, m, vm, c) ==> binds(with_runtime_ident(t, name, value).0, m, vm, c),
{
    lemma_runtime_index(t, 0);
    let k = runtime_index(t, 0);
    let t2 = with_runtime_ident(t, name, value).0;
    if k < t.len() {
        let ids = t[k]->idents;
        lemma_ident_index(ids, name, 0);
        let j = ident_index(ids, name, 0);
        if j >= ids.len() {
            lemma_ident_index_none(ids, name, 0);
            lemma_runtime_index_same(t, t2, 0, k);
            let ids2 = t2[k]->idents;
            assert(ids2.len() == ids.len() + 1);
            assert forall|x: int| 0 <= x < ids.len() implies ids[x].ident == ids2[x].ident && ids[x].active()
                == ids2[x].active() by {
                assert(ids2[x].ident == ids[x].ident);
            }
            lemma_ident_index_same(ids, ids2, name, 0, ids.len() as int);
            if binds(t, m, vm, c) {
                lemma_ident_index(ids, m, 0);
                let jm = ident_index(ids, m, 0);
                lemma_ident_index_same(ids, ids2, m, 0, jm);
            }
        } else if value && t[k]->is_type {
            lemma_runtime_index_same(t, t2, 0, k);
            let ids2 = t2[k]->idents;
            assert(ids2.len() == ids.len());
            assert forall|x: int| 0 <= x < ids.len() implies ids[x].ident == ids2[x].ident && ids[x].active()
                == ids2[x].active() by {
                assert(ids2[x].ident == ids[x].ident);
            }
            lemma_ident_index_same(ids, ids2, name, 0, j);
            if binds(t, m, vm, c) {
                lemma_ident_index(ids, m, 0);
                let jm = ident_index(ids, m, 0);
                lemma_ident_index_same(ids, ids2, m, 0, jm);
            }
        }
    } else {
        lemma_runtime_index_none(t, 0);
        assert(t2 == t.push(t2[t.len() as int]));
        assert forall|j: int| 0 <= j < t.len() implies !is_runtime(t2[j]) by {
            assert(t2[j] == t[j]);
        }
        lemma_runtime_index_before(t2, 0, t.len() as int);
    }
}

proof fn lemma_runtime_index_before(s: Seq<ImportView>, k: int, r: int)
    requires
        0 <= k <= r < s.len(),
        is_runtime(s[r]),
        forall|j: int| k <= j < r ==> !is_runtime(s[j]),
    ensures
        runtime_index(s, k) == r,
    decreases r - k,
{
    if k < r {
        lemma_runtime_index_before(s, k + 1, r);
    }
}

proof fn lemma_reconciled_binds(s: Seq<ImportView>, req: Seq<(Seq<char>, bool)>)
    ensures
        ({
            let (s1, b1) = reconciled(s, req);
            &&& b1.len() == req.len()
            &&& forall|i: int| 0 <= i < req.len() ==> #[trigger] binds(s1, req[i].0, req[i].1, b1[i])
        }),
    decreases req.len(),
{
    if req.len() > 0 {
        let w = req.drop_last();
        lemma_reconciled_binds(s, w);
        let (s0, b0) = reconciled(s, w);
        let (s1, b1) = reconciled(s, req);
        let last = req.last();
        assert forall|i: int| 0 <= i < req.len() implies #[trigger] binds(s1, req[i].0, req[i].1, b1[i]) by {
            lemma_add_binds(s0, last.0, last.1, req[i].0, req[i].1, b1[i]);
            if i < w.len() {
                assert(req[i] == w[i]);
                assert(b1[i] == b0[i]);
                assert(binds(s0, w[i].0, w[i].1, b0[i]));
            }
        }
    }
}

/// Making one identifier importable a second time adds nothing, changes no
/// statement, and gives the same name in code as the first time.
pub proof fn lemma_add_twice(t: Seq<ImportView>, name: Seq<char>, value: bool)
    ensures
        ({
            let (t1, _, a) = with_runtime_ident(t, name, value);
            with_runtime_ident(t1, name, value) == (t1, false, a)
        }),
{
    let (t1, _, a) = with_runtime_ident(t, name, value);
    lemma_add_binds(t, name, value, name, value, a);
    lemma_bound_is_kept(t1, name, value);
}

/// Reconciling imports a second time with the same required identifiers
/// changes no statement, so appends no identifier twice, and gives every
/// identifier the same name in code as the first time.
pub proof fn lemma_reconcile_idempotent(s: Seq<ImportView>, req: Seq<(Seq<char>, bool)>)
    ensures
        reconciled(reconciled(s, req).0, req) == reconciled(s, req),
{
    let (s1, b1) = reconciled(s, req);
    lemma_reconciled_binds(s, req);
    lemma_again(s1, b1, req, req.len() as int);
    assert(req.subrange(0, req.len() as int) =~= req);
    assert(b1.subrange(0, req.len() as int) =~= b1);
}

proof fn lemma_adjusted_runtime(x: ImportView)
    ensures
        is_runtime(adjusted(x)) == is_runtime(x),
        is_runtime(x) ==> adjusted(x) == x,
{
    reveal_strlit("@pistonite/workex");
    reveal_strlit("./");
    reveal_strlit("../");
    reveal_strlit("..");
    reveal_strlit("/");
    if let ImportView::Import { is_type, idents, from } = x {
        if is_relative(from) {
            let r = ".."@ + "/"@ + from;
            assert(r[0] == '.');
            assert(WORKEX_IMPORT@[0] == '@');
        }
        if from == WORKEX_IMPORT@ {
            assert(from[0] == '@');
            if is_prefix("./"@, from) {
                assert(from.subrange(0, 2)[0] == '.');
            }
            if is_prefix("../"@, from) {
                assert(from.subrange(0, 3)[0] == '.');
            }
        }
    }
}

proof fn lemma_runtime_index_adjusted(s: Seq<ImportView>, k: int)
    requires
        0 <= k <= s.len(),
    ensures
        runtime_index(s.map_values(|i: ImportView| adjusted(i)), k) == runtime_index(s, k),
    decreases s.len() - k,
{
    if k < s.len() {
        lemma_adjusted_runtime(s[k]);
        lemma_runtime_index_adjusted(s, k + 1);
    }
}

proof fn lemma_binds_adjusted(t: Seq<ImportView>, name: Seq<char>, value: bool, a: Seq<char>)
    requires
        binds(t, name, value, a),
    ensures
        binds(t.map_values(|i: ImportView| adjusted(i)), name, value, a),
{
    let k = runtime_index(t, 0);
    lemma_runtime_index_adjusted(t, 0);
    lemma_runtime_index(t, 0);
    lemma_adjusted_runtime(t[k]);
}

/// Reconciling the client-side imports a second time, from the statements
/// that the first reconciliation left and rewrote for the output directory,
/// changes no statement, appends nothing and gives every identifier the same
/// name in code.
pub proof fn lemma_client_view_idempotent(s: Seq<ImportView>)
    ensures
        ({
            let (s1, b1) = reconciled(s, client_required());
            let t = s1.map_values(|i: ImportView| adjusted(i));
            reconciled(t, client_required()) == (t, b1)
        }),
{
    let req = client_required();
    let (s1, b1) = reconciled(s, req);
    let t = s1.map_values(|i: ImportView| adjusted(i));
    lemma_reconciled_binds(s, req);
    assert forall|i: int| 0 <= i < req.len() implies #[trigger] binds(t, req[i].0, req[i].1, b1[i]) by {
        lemma_binds_adjusted(s1, req[i].0, req[i].1, b1[i]);
    }
    lemma_again(t, b1, req, req.len() as int);
    assert(req.subrange(0, req.len() as int) =~= req);
    assert(b1.subrange(0, req.len() as int) =~= b1);
}

proof fn lemma_again(s1: Seq<ImportView>, b1: Seq<Seq<char>>, req: Seq<(Seq<char>, bool)>, j: int)
    requires
        0 <= j <= req.len(),
        b1.len() == req.len(),
        forall|i: int| 0 <= i < req.len() ==> #[trigger] binds(s1, req[i].0, req[i].1, b1[i]),
    ensures
        reconciled(s1, req.subrange(0, j)) == (s1, b1.subrange(0, j)),
    decreases j,
{
    if j == 0 {
        assert(b1.subrange(0, 0) =~= Seq::<Seq<char>>::empty());
    } else {
        lemma_again(s1, b1, req, j - 1);
        let p = req.subrange(0, j);
        assert(p.drop_last() =~= req.subrange(0, j - 1));
        assert(p.last() == req[j - 1]);
        assert(binds(s1, req[j - 1].0, req[j - 1].1, b1[j - 1]));
        lemma_bound_is_kept(s1, req[j - 1].0, req[j - 1].1);
        assert(b1.subrange(0, j) =~= b1.subrange(0, j - 1).push(b1[j - 1]));
    }
}

fn find_runtime(s: &Vec<Import>) -> (k: usize)
    ensures
        k == runtime_index(import_views(s@), 0),
{
    let ghost v = import_views(s@);
    let mut k: usize = 0;
    while k < s.len()
        invariant
            k <= s@.len(),
            v == import_views(s@),
            runtime_index(v, 0) == runtime_index(v, k as int),
        decreases s@.len() - k,
    {
        if s[k].is_workex() {
            return k;
        }
        k += 1;
    }
    k
}

fn find_ident(ids: &Vec<ImportIdent>, name: &str) -> (j: usize)
    ensures
        j == ident_index(ident_views(ids@), name@, 0),
{
    let ghost v = ident_views(ids@);
    let mut j: usize = 0;
    while j < ids.len()
        invariant
            j <= ids@.len(),
            v == ident_views(ids@),
            ident_index(v, name@, 0) == ident_index(v, name@, j as int),
        decreases ids@.len() - j,
    {
        if str_eq(ids[j].ident.as_str(), name) {
            return j;
        }
        j += 1;
    }
    j
}

/// Makes `name` importable from the runtime library in `stmts`, reusing an
/// existing identifier of the runtime import when there is one.
pub fn add_runtime_ident(stmts: &mut Vec<Import>, name: &str, value: bool) -> (r: (bool, String))
    ensures
        ({
            let (s, added, active) = with_runtime_ident(import_views(old(stmts)@), name@, value);
            import_views(final(stmts)@) == s && r.0 == added && r.1@ == active
        }),
{
    let ghost s0 = import_views(stmts@);
    let ghost v0 = stmts@;
    let k = find_runtime(stmts);
    proof {
        lemma_runtime_index(s0, 0);
    }
    if k < stmts.len() {
        let item = stmts.remove(k);
        assert(item@ == s0[k as int]);
        assert(stmts@ == v0.remove(k as int));
        match item {
            Import::Import { is_type, idents, from } => {
                let j = find_ident(&idents, name);
                if j < idents.len() {
                    let active = String::from_str(idents[j].active_ident());
                    proof {
                        assert(ident_views(idents@)[j as int] == idents@[j as int]@);
                    }
                    if !(is_type && value) {
                        stmts.insert(k, Import::Import { is_type, idents, from });
                        assert(import_views(stmts@) =~= s0);
                        return (false, active);
                    }
                    let mut ids: Vec<ImportIdent> = Vec::new();
                    let mut i: usize = 0;
                    while i < idents.len()
                        invariant
                            i <= idents@.len(),
                            ident_views(ids@) =~= all_type_only(ident_views(idents@)).subrange(0, i as int),
                        decreases idents@.len() - i,
                    {
                        let x = idents[i].clone();
                        let y = ImportIdent { is_type: true, ident: x.ident, rename: x.rename };
                        let ghost before = ids@;
                        ids.push(y);
                        proof {
                            assert(ident_views(ids@) =~= ident_views(before).push(y@));
                            assert(x@ == ident_views(idents@)[i as int]);
                        }
                        i += 1;
                    }
                    let new_item = Import::Import { is_type: false, idents: ids, from };
                    let ghost nv = new_item@;
                    stmts.insert(k, new_item);
                    proof {
                        assert(ident_views(ids@) =~= all_type_only(ident_views(idents@)));
                        assert(stmts@ =~= v0.update(k as int, new_item));
                        assert(import_views(stmts@) =~= s0.update(k as int, nv));
                    }
                    return (false, active);
                }
                let new_ident = ImportIdent {
                    is_type: !value,
                    ident: String::from_str(name),
                    rename: None,
                };
                let mut ids: Vec<ImportIdent> = Vec::new();
                let demote = is_type && value;
                let mut i: usize = 0;
                while i < idents.len()
                    invariant
                        i <= idents@.len(),
                        ids@.len() == i,
                        demote ==> ident_views(ids@) =~= all_type_only(ident_views(idents@)).subrange(0, i as int),
                        !demote ==> ident_views(ids@) =~= ident_views(idents@).subrange(0, i as int),
                    decreases idents@.len() - i,
                {
                    let x = idents[i].clone();
                    let y = ImportIdent { is_type: x.is_type || demote, ident: x.ident, rename: x.rename };
                    let ghost before = ids@;
                    ids.push(y);
                    proof {
                        assert(ident_views(ids@) =~= ident_views(before).push(y@));
                        assert(x@ == ident_views(idents@)[i as int]);
                    }
                    i += 1;
                }
                let ghost before = ids@;
                ids.push(new_ident);
                let ghost nids = ident_views(ids@);
                proof {
                    assert(nids =~= ident_views(before).push(new_ident@));
                    assert(ident_views(before) =~= if demote {
                        all_type_only(ident_views(idents@))
                    } else {
                        ident_views(idents@)
                    });
                    lemma_ident_index(ident_views(idents@), name@, 0);
                }
                let new_item = Import::Import { is_type: is_type && !value, idents: ids, from };
                let ghost nv = new_item@;
                stmts.insert(k, new_item);
                proof {
                    assert(stmts@ == v0.remove(k as int).insert(k as int, new_item));
                    assert(stmts@ =~= v0.update(k as int, new_item));
                    assert(import_views(stmts@) =~= s0.update(k as int, nv));
                }
                (true, String::from_str(name))
            },
            Import::Opaque(t) => {
                stmts.insert(k, Import::Opaque(t));
                proof {
                    assert(is_runtime(s0[k as int]));
                }
                (false, String::from_str(name))
            },
        }
    } else {
        let mut ids: Vec<ImportIdent> = Vec::new();
        ids.push(ImportIdent { is_type: false, ident: String::from_str(name), rename: None });
        let new_item = Import::Import { is_type: !value, idents: ids, from: String::from_str(WORKEX_IMPORT) };
        let ghost nv = new_item@;
        stmts.push(new_item);
        proof {
            assert(ident_views(ids@) =~= seq![plain_ident(name@, false)]);
            assert(import_views(stmts@) =~= s0.push(nv));
        }
        (true, String::from_str(name))
    }
}

/// One identifier that generated code needs from the runtime library.
#[derive(Debug)]
pub struct RequiredIdent {
    pub name: String,
    /// Whether it is used as a value, not only as a type.
    pub value: bool,
}

pub open spec fn required_views(r: Seq<RequiredIdent>) -> Seq<(Seq<char>, bool)> {
    r.map_values(|x: RequiredIdent| (x.name@, x.value))
}

/// The statements after making every required identifier importable, in
/// order, and the name to use in code for each.
pub open spec fn reconciled(s: Seq<ImportView>, req: Seq<(Seq<char>, bool)>) -> (
    Seq<ImportView>,
    Seq<Seq<char>>,
)
    decreases req.len(),
{
    if req.len() == 0 {
        (s, seq![])
    } else {
        let (s1, b1) = reconciled(s, req.drop_last());
        let (s2, _, a) = with_runtime_ident(s1, req.last().0, req.last().1);
        (s2, b1.push(a))
    }
}

/// Makes every required identifier importable from the runtime library, in
/// order, and returns the name to use in code for each.
pub fn reconcile(stmts: &mut Vec<Import>, required: &Vec<RequiredIdent>) -> (r: Vec<String>)
    ensures
        ({
            let (s, b) = reconciled(import_views(old(stmts)@), required_views(required@));
            import_views(final(stmts)@) == s && views_of(r@) == b
        }),
{
    let ghost s0 = import_views(stmts@);
    let ghost req = required_views(required@);
    let mut out: Vec<String> = Vec::new();
    let mut i: usize = 0;
    while i < required.len()
        invariant
            i <= required@.len(),
            req == required_views(required@),
            reconciled(s0, req.subrange(0, i as int)) == (import_views(stmts@), views_of(out@)),
        decreases required@.len() - i,
    {
        let (_, a) = add_runtime_ident(stmts, required[i].name.as_str(), required[i].value);
        proof {
            assert(req.subrange(0, i + 1).drop_last() =~= req.subrange(0, i as int));
            assert(views_of(out@.push(a)) =~= views_of(out@).push(a@));
        }
        out.push(a);
        i += 1;
    }
    assert(req.subrange(0, i as int) =~= req);
    out
}

/// Views of a list of strings.
pub open spec fn views_of(v: Seq<String>) -> Seq<Seq<char>> {
    v.map_values(|s: String| s@)
}

/// A module specifier relative to the importing file.
pub open spec fn is_relative(p: Seq<char>) -> bool {
    is_prefix("./"@, p) || is_prefix("../"@, p)
}

/// `path` seen from the directory `prefix`, when it is relative.
pub open spec fn resolved(prefix: Seq<char>, path: Seq<char>) -> Seq<char> {
    if is_relative(path) {
        prefix + "/"@ + path
    } else {
        path
    }
}

/// Resolve a relative import path <prefix>/<path>
///
/// If <path> is relative (starts with ./ or ../), it will be appended to <prefix>,
/// otherwise, it will be kept as is
pub fn resolve_relative_import(prefix: &str, path: &str) -> (r: String)
    ensures
        r@ == resolved(prefix@, path@),
{
    if str_starts_with(path, "./") || str_starts_with(path, "../") {
        let mut r = String::from_str(prefix);
        r.append("/");
        r.append(path);
        r
    } else {
        String::from_str(path)
    }
}

/// Index of the first quote character of `t` at or after `k`, or `t.len()`.
pub open spec fn quote_index(t: Seq<char>, k: int) -> int
    decreases t.len() - k,
{
    if k < 0 || k >= t.len() {
        t.len() as int
    } else if t[k] == '"' || t[k] == '\'' {
        k
    } else {
        quote_index(t, k + 1)
    }
}

/// The text of an unparsed import whose first quoted specifier, when it is
/// relative, is seen from one directory deeper.
pub open spec fn opaque_adjusted(t: Seq<char>) -> Seq<char> {
    let q = quote_index(t, 0);
    if q < t.len() && is_relative(t.subrange(q + 1, t.len() as int)) {
        t.subrange(0, q + 1) + "../"@ + t.subrange(q + 1, t.len() as int)
    } else {
        t
    }
}

/// An import as seen from the output directory, one level below the source.
pub open spec fn adjusted(i: ImportView) -> ImportView {
    match i {
        ImportView::Opaque(t) => ImportView::Opaque(opaque_adjusted(t)),
        ImportView::Import { is_type, idents, from } => ImportView::Import {
            is_type,
            idents,
            from: resolved(".."@, from),
        },
    }
}

proof fn lemma_quote_index(t: Seq<char>, k: int)
    requires
        0 <= k <= t.len(),
    ensures
        k <= quote_index(t, k) <= t.len(),
    decreases t.len() - k,
{
    if k < t.len() && !(t[k] == '"' || t[k] == '\'') {
        lemma_quote_index(t, k + 1);
    }
}

fn adjust_opaque(t: &str) -> (r: String)
    ensures
        r@ == opaque_adjusted(t@),
{
    let n = t.unicode_len();
    let mut q: usize = 0;
    while q < n && t.get_char(q) != '"' && t.get_char(q) != '\''
        invariant
            q <= n,
            n == t@.len(),
            quote_index(t@, 0) == quote_index(t@, q as int),
        decreases n - q,
    {
        q += 1;
    }
    proof {
        lemma_quote_index(t@, q as int);
    }
    if q < n {
        let rest = t.substring_char(q + 1, n);
        if str_starts_with(rest, "./") || str_starts_with(rest, "../") {
            let mut r = String::from_str(t.substring_char(0, q + 1));
            r.append("../");
            r.append(rest);
            return r;
        }
    }
    String::from_str(t)
}

impl Import {
    /// This import as seen from the output directory.
    pub fn adjusted_to_parent(self) -> (r: Import)
        ensures
            r@ == adjusted(self@),
    {
        match self {
            Import::Opaque(t) => Import::Opaque(adjust_opaque(t.as_str())),
            Import::Import { is_type, idents, from } => Import::Import {
                is_type,
                idents,
                from: resolve_relative_import("..", from.as_str()),
            },
        }
    }
}

/// Rewrites every import to be seen from the output directory.
pub fn adjust_import_paths(imports: &mut Vec<Import>)
    ensures
        import_views(final(imports)@) == import_views(old(imports)@).map_values(|i: ImportView| adjusted(i)),
{
    let ghost s0 = import_views(imports@);
    let mut out: Vec<Import> = Vec::new();
    while imports.len() > 0
        invariant
            import_views(out@) + import_views(imports@).map_values(|i: ImportView| adjusted(i))
                == s0.map_values(|i: ImportView| adjusted(i)),
        decreases imports@.len(),
    {
        let ghost before = imports@;
        let x = imports.remove(0);
        let y = x.adjusted_to_parent();
        proof {
            assert(imports@ =~= before.drop_first());
            assert(import_views(out@.push(y)) =~= import_views(out@).push(y@));
            assert(import_views(before).map_values(|i: ImportView| adjusted(i)) =~= seq![y@]
                + import_views(imports@).map_values(|i: ImportView| adjusted(i)));
        }
        out.push(y);
    }
    assert(import_views(out@) + import_views(imports@).map_values(|i: ImportView| adjusted(i))
        =~= import_views(out@));
    *imports = out;
}

/// All import statements in a module, with `WxPromise` made importable.
#[derive(Debug)]
pub struct Imports {
    /// All import statements
    pub statements: Vec<Import>,
    /// Identifier for `WxPromise`
    pub ident_wxpromise: String,
    /// Whether `WxPromise` was already imported by the source
    pub was_wxpromise_imported: bool,
}

impl Clone for Imports {
    fn clone(&self) -> (r: Self)
        ensures
            import_views(r.statements@) == import_views(self.statements@),
            r.ident_wxpromise@ == self.ident_wxpromise@,
            r.was_wxpromise_imported == self.was_wxpromise_imported,
    {
        let v = self.statements.clone();
        assert(import_views(v@) =~= import_views(self.statements@));
        Imports {
            statements: v,
            ident_wxpromise: self.ident_wxpromise.clone(),
            was_wxpromise_imported: self.was_wxpromise_imported,
        }
    }
}

impl Imports {
    pub open spec fn view_statements(&self) -> Seq<ImportView> {
        import_views(self.statements@)
    }

    /// Takes the import statements of a source file and makes `WxPromise`
    /// importable from the runtime library.
    pub fn new(statements: Vec<Import>) -> (r: Imports)
        ensures
            ({
                let (s, added, active) = with_runtime_ident(import_views(statements@), "WxPromise"@, false);
                r.view_statements() == s && r.ident_wxpromise@ == active && r.was_wxpromise_imported == !added
            }),
    {
        let mut statements = statements;
        let (added, ident) = add_runtime_ident(&mut statements, "WxPromise", false);
        Imports { statements, ident_wxpromise: ident, was_wxpromise_imported: !added }
    }

    /// Add a workex type import to existing imports if it doesn't exist yet,
    /// and return the type identifier to use in code.
    ///
    /// The returned bool indicates if the new import was added instead of already exists
    pub fn add_workex_type_import(&mut self, ident: &str) -> (r: (bool, String))
        ensures
            ({
                let (s, added, active) = with_runtime_ident(old(self).view_statements(), ident@, false);
                final(self).view_statements() == s && r.0 == added && r.1@ == active
            }),
            final(self).ident_wxpromise == old(self).ident_wxpromise,
            final(self).was_wxpromise_imported == old(self).was_wxpromise_imported,
    {
        add_runtime_ident(&mut self.statements, ident, false)
    }

    /// Adjust the import paths so that relative paths are resolved from the
    /// parent directory, since output files are generated one directory below
    /// the input files.
    pub fn adjust_relative_to_from_parent(&mut self)
        ensures
            final(self).view_statements() == old(self).view_statements().map_values(|i: ImportView| adjusted(i)),
            final(self).ident_wxpromise == old(self).ident_wxpromise,
            final(self).was_wxpromise_imported == old(self).was_wxpromise_imported,
    {
        adjust_import_paths(&mut self.statements);
    }
}

/// Imports used in the generated implementation files
#[derive(Debug)]
pub struct ImplImports {
    pub inner: Imports,
    /// Identifier for `WxBusRecvHandler`
    pub ident_wxhandler: String,
    /// Identifier for `WxProtocolBoundSender`
    pub ident_wxsender: String,
}

impl ImplImports {
    /// Makes the receive handler and bound sender types importable, then
    /// rewrites the paths for the output directory.
    pub fn new(imports: Imports) -> (r: ImplImports)
        ensures
            ({
                let (s1, _, h) = with_runtime_ident(imports.view_statements(), "WxBusRecvHandler"@, false);
                let (s2, _, snd) = with_runtime_ident(s1, "WxProtocolBoundSender"@, false);
                &&& r.inner.view_statements() == s2.map_values(|i: ImportView| adjusted(i))
                &&& r.ident_wxhandler@ == h
                &&& r.ident_wxsender@ == snd
            }),
            r.inner.ident_wxpromise == imports.ident_wxpromise,
            r.inner.was_wxpromise_imported == imports.was_wxpromise_imported,
    {
        let mut imports = imports;
        let (_, ident_wxhandler) = imports.add_workex_type_import("WxBusRecvHandler");
        let (_, ident_wxsender) = imports.add_workex_type_import("WxProtocolBoundSender");
        imports.adjust_relative_to_from_parent();
        ImplImports { inner: imports, ident_wxhandler, ident_wxsender }
    }
}

/// Patched imports for the client-side files
#[derive(Debug)]
pub struct PatchedSendImports {
    /// Identifier for WorkexPromise
    pub workex_promise_ident: String,
    /// Identifier for WorkexClient
    pub workex_client_ident: String,
    /// Identifier for WorkexClientOptions
    pub workex_client_options_ident: String,
    /// All import statements
    pub imports: Vec<Import>,
}

#[derive(Debug)]
pub struct PatchedImports {
    pub send: PatchedSendImports,
}

impl ImportIdent {
    pub fn workex_client() -> (r: ImportIdent)
        ensures
            r@ == plain_ident("WorkexClient"@, false),
    {
        ImportIdent { is_type: false, ident: String::from_str("WorkexClient"), rename: None }
    }

    pub fn workex_client_options() -> (r: ImportIdent)
        ensures
            r@ == plain_ident("WorkexClientOptions"@, true),
    {
        ImportIdent { is_type: true, ident: String::from_str("WorkexClientOptions"), rename: None }
    }

    pub fn workex_promise() -> (r: ImportIdent)
        ensures
            r@ == plain_ident("WorkexPromise"@, true),
    {
        ImportIdent { is_type: true, ident: String::from_str("WorkexPromise"), rename: None }
    }

    /// The source text of this identifier inside an import list; `type` is
    /// spelled out only when the list itself is not type-only.
    pub fn to_repr(&self, is_in_type_import: bool) -> (r: String)
        ensures
            r@ == ident_repr(self@, is_in_type_import),
    {
        let mut name_part = String::from_str(self.ident.as_str());
        match &self.rename {
            Some(rename) => {
                name_part.append(" as ");
                name_part.append(rename.as_str());
            },
            None => {},
        }
        if self.is_type && !is_in_type_import {
            let mut r = String::from_str("type ");
            r.append(name_part.as_str());
            r
        } else {
            name_part
        }
    }
}

/// The source text of an identifier inside an import list.
pub open spec fn ident_repr(x: IdentView, in_type_import: bool) -> Seq<char> {
    let name_part = match x.rename {
        Some(r) => x.ident + " as "@ + r,
        None => x.ident,
    };
    if x.is_type && !in_type_import {
        "type "@ + name_part
    } else {
        name_part
    }
}

/// The identifiers that client-side code needs from the runtime library.
pub open spec fn client_required() -> Seq<(Seq<char>, bool)> {
    seq![("WorkexClient"@, true), ("WorkexClientOptions"@, false), ("WorkexPromise"@, false)]
}

impl PatchedImports {
    /// Reconciles the imports of a source file for client-side code, then
    /// rewrites the paths for the output directory.
    pub fn from_imports(imports: Vec<Import>) -> (r: PatchedImports)
        ensures
            ({
                let (s, b) = reconciled(import_views(imports@), client_required());
                &&& import_views(r.send.imports@) == s.map_values(|i: ImportView| adjusted(i))
                &&& r.send.workex_client_ident@ == b[0]
                &&& r.send.workex_client_options_ident@ == b[1]
                &&& r.send.workex_promise_ident@ == b[2]
            }),
    {
        let send = Self::make_send_imports(imports);
        PatchedImports { send }
    }

    fn make_send_imports(imports: Vec<Import>) -> (r: PatchedSendImports)
        ensures
            ({
                let (s, b) = reconciled(import_views(imports@), client_required());
                &&& import_views(r.imports@) == s.map_values(|i: ImportView| adjusted(i))
                &&& r.workex_client_ident@ == b[0]
                &&& r.workex_client_options_ident@ == b[1]
                &&& r.workex_promise_ident@ == b[2]
            }),
    {
        let mut imports = imports;
        let mut required: Vec<RequiredIdent> = Vec::new();
        required.push(RequiredIdent { name: String::from_str("WorkexClient"), value: true });
        required.push(RequiredIdent { name: String::from_str("WorkexClientOptions"), value: false });
        required.push(RequiredIdent { name: String::from_str("WorkexPromise"), value: false });
        assert(required_views(required@) =~= client_required());
        let ghost s0 = import_views(imports@);
        let mut b = reconcile(&mut imports, &required);
        proof {
            lemma_reconciled_len(s0, client_required());
            assert(b@.len() == views_of(b@).len());
        }
        let ghost b0 = b@;
        adjust_import_paths(&mut imports);
        let workex_promise_ident = b.pop().unwrap();
        let workex_client_options_ident = b.pop().unwrap();
        let workex_client_ident = b.pop().unwrap();
        assert(views_of(b0)[0] == b0[0]@ && views_of(b0)[1] == b0[1]@ && views_of(b0)[2] == b0[2]@);
        PatchedSendImports { workex_promise_ident, workex_client_ident, workex_client_options_ident, imports }
    }
}

proof fn lemma_reconciled_len(s: Seq<ImportView>, req: Seq<(Seq<char>, bool)>)
    ensures
        reconciled(s, req).1.len() == req.len(),
    decreases req.len(),
{
    if req.len() > 0 {
        lemma_reconciled_len(s, req.drop_last());
    }
}

} // verus!
