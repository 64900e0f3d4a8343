//! The package: every validated interface together with the run's options,
//! the output directory and the links between interfaces.
use vstd::prelude::*;
use vstd::string::*;

use crate::funcid::all_sorted;
use crate::interface::Interface;
use crate::sorted::{has_key, locate, strictly_sorted, Named};
use crate::text::{is_prefix, str_eq, str_starts_with, str_trim, trim};

verus! {

/// Options of a run.
#[derive(Debug)]
pub struct CliOptions {
    /// Input TypeScript files with `export interface` declarations
    pub inputs: Vec<String>,
    /// The protocol identifier
    pub protocol: String,
    /// Prefix for generated functions; the protocol identifier when absent
    pub prefix: Option<String>,
    /// Do not generate the .gitignore file
    pub no_gitignore: bool,
    /// Pairs of interfaces to link, each written `A,B`
    pub link: Vec<String>,
    /// The name of the output directory
    pub dir: String,
}

/// Why a link directive was rejected.
#[derive(Debug)]
pub enum LinkError {
    /// No `,` in the directive.
    MissingSeparator,
    /// More than one `,` in the directive.
    TooManySeparators,
    FirstNameEmpty,
    SecondNameEmpty,
    /// The directive names no interface of the package.
    UnknownInterface(String),
    /// `name` was to be linked with `partner` but is linked with `previous`.
    AlreadyLinked { name: String, partner: String, previous: String },
}

/// What a [`LinkError`] says.
pub enum LinkErrorView {
    MissingSeparator,
    TooManySeparators,
    FirstNameEmpty,
    SecondNameEmpty,
    UnknownInterface(Seq<char>),
    AlreadyLinked { name: Seq<char>, partner: Seq<char>, previous: Seq<char> },
}

impl View for LinkError {
    type V = LinkErrorView;

    open spec fn view(&self) -> LinkErrorView {
        match self {
            LinkError::MissingSeparator => LinkErrorView::MissingSeparator,
            LinkError::TooManySeparators => LinkErrorView::TooManySeparators,
            LinkError::FirstNameEmpty => LinkErrorView::FirstNameEmpty,
            LinkError::SecondNameEmpty => LinkErrorView::SecondNameEmpty,
            LinkError::UnknownInterface(n) => LinkErrorView::UnknownInterface(n@),
            LinkError::AlreadyLinked { name, partner, previous } => LinkErrorView::AlreadyLinked {
                name: name@,
                partner: partner@,
                previous: previous@,
            },
        }
    }
}

/// Index of the first `,` of `t` at or after `k`, or `t.len()`.
pub open spec fn comma_index(t: Seq<char>, k: int) -> int
    decreases t.len() - k,
{
    if k < 0 || k >= t.len() {
        t.len() as int
    } else if t[k] == ',' {
        k
    } else {
        comma_index(t, k + 1)
    }
}

proof fn lemma_comma_index(t: Seq<char>, k: int)
    requires
        0 <= k <= t.len(),
    ensures
        k <= comma_index(t, k) <= t.len(),
        comma_index(t, k) < t.len() ==> t[comma_index(t, k)] == ',',
    decreases t.len() - k,
{
    if k < t.len() && t[k] != ',' {
        lemma_comma_index(t, k + 1);
    }
}

/// The two interface names of a link directive `A,B`, each trimmed.
pub open spec fn link_names(t: Seq<char>) -> Result<(Seq<char>, Seq<char>), LinkErrorView> {
    let c = comma_index(t, 0);
    if c >= t.len() {
        Err(LinkErrorView::MissingSeparator)
    } else if comma_index(t, c + 1) < t.len() {
        Err(LinkErrorView::TooManySeparators)
    } else if trim(t.subrange(0, c)).len() == 0 {
        Err(LinkErrorView::FirstNameEmpty)
    } else if trim(t.subrange(c + 1, t.len() as int)).len() == 0 {
        Err(LinkErrorView::SecondNameEmpty)
    } else {
        Ok((trim(t.subrange(0, c)), trim(t.subrange(c + 1, t.len() as int))))
    }
}

fn find_comma(t: &str, from: usize) -> (k: usize)
    requires
        from <= t@.len(),
    ensures
        k == comma_index(t@, from as int),
{
    let n = t.unicode_len();
    let mut k = from;
    while k < n && t.get_char(k) != ','
        invariant
            from <= k <= n,
            n == t@.len(),
            comma_index(t@, from as int) == comma_index(t@, k as int),
        decreases n - k,
    {
        k += 1;
    }
    k
}

/// Splits a link directive `A,B` into its two trimmed interface names.
pub fn parse_link(link_str: &str) -> (r: Result<(String, String), LinkError>)
    ensures
        match (r, link_names(link_str@)) {
            (Ok((a, b)), Ok((x, y))) => a@ == x && b@ == y,
            (Err(e), Err(f)) => e@ == f,
            _ => false,
        },
{
    let n = link_str.unicode_len();
    let c = find_comma(link_str, 0);
    proof {
        lemma_comma_index(link_str@, 0);
    }
    if c >= n {
        return Err(LinkError::MissingSeparator);
    }
    if find_comma(link_str, c + 1) < n {
        return Err(LinkError::TooManySeparators);
    }
    let first = str_trim(link_str.substring_char(0, c));
    if first.unicode_len() == 0 {
        return Err(LinkError::FirstNameEmpty);
    }
    let second = str_trim(link_str.substring_char(c + 1, n));
    if second.unicode_len() == 0 {
        return Err(LinkError::SecondNameEmpty);
    }
    Ok((first, second))
}

/// One direction of a link between two interfaces.
#[derive(Debug)]
pub struct Link {
    pub from: String,
    pub to: String,
}

/// The map that a list of links with distinct sources stands for.
pub open spec fn link_map(v: Seq<Link>) -> Map<Seq<char>, Seq<char>>
    decreases v.len(),
{
    if v.len() == 0 {
        Map::empty()
    } else {
        link_map(v.drop_last()).insert(v.last().from@, v.last().to@)
    }
}

/// No two links of `v` have the same source.
pub open spec fn distinct_sources(v: Seq<Link>) -> bool {
    forall|i: int, j: int| 0 <= i < j < v.len() ==> (#[trigger] v[i]).from@ != (#[trigger] v[j]).from@
}

proof fn lemma_link_map(v: Seq<Link>)
    requires
        distinct_sources(v),
    ensures
        forall|k: Seq<char>|
            #[trigger] link_map(v).contains_key(k) <==> exists|i: int| 0 <= i < v.len() && v[i].from@ == k,
        forall|i: int| 0 <= i < v.len() ==> link_map(v)[#[trigger] v[i].from@] == v[i].to@,
    decreases v.len(),
{
    if v.len() > 0 {
        let w = v.drop_last();
        lemma_link_map(w);
        assert forall|k: Seq<char>|
            #[trigger] link_map(v).contains_key(k) <==> exists|i: int| 0 <= i < v.len() && v[i].from@ == k by {
            if link_map(w).contains_key(k) {
                let i = choose|i: int| 0 <= i < w.len() && w[i].from@ == k;
                assert(v[i] == w[i]);
            }
            if exists|i: int| 0 <= i < v.len() && v[i].from@ == k {
                let i = choose|i: int| 0 <= i < v.len() && v[i].from@ == k;
                if i < w.len() {
                    assert(w[i] == v[i]);
                }
            }
        }
        assert forall|i: int| 0 <= i < v.len() implies link_map(v)[#[trigger] v[i].from@] == v[i].to@ by {
            if i < w.len() {
                assert(w[i] == v[i]);
                assert(v[i].from@ != v[v.len() - 1].from@);
            }
        }
    }
}

/// The link map after the directives `dirs`, between interfaces named in
/// `names`, or the error of the first bad directive.
pub open spec fn links_outcome(dirs: Seq<Seq<char>>, names: Set<Seq<char>>) -> Result<
    Map<Seq<char>, Seq<char>>,
    LinkErrorView,
>
    decreases dirs.len(),
{
    if dirs.len() == 0 {
        Ok(Map::empty())
    } else {
        match links_outcome(dirs.drop_last(), names) {
            Err(e) => Err(e),
            Ok(m) => match link_names(dirs.last()) {
                Err(e) => Err(e),
                Ok((a, b)) => {
                    if !names.contains(a) {
                        Err(LinkErrorView::UnknownInterface(a))
                    } else if !names.contains(b) {
                        Err(LinkErrorView::UnknownInterface(b))
                    } else if m.contains_key(a) {
                        Err(LinkErrorView::AlreadyLinked { name: a, partner: b, previous: m[a] })
                    } else if m.insert(a, b).contains_key(b) {
                        Err(LinkErrorView::AlreadyLinked { name: b, partner: a, previous: m.insert(a, b)[b] })
                    } else {
                        Ok(m.insert(a, b).insert(b, a))
                    }
                },
            },
        }
    }
}

proof fn lemma_links_err_sticks(ds: Seq<Seq<char>>, names: Set<Seq<char>>, j: int)
    requires
        0 <= j <= ds.len(),
        links_outcome(ds.subrange(0, j), names) is Err,
    ensures
        links_outcome(ds, names) == links_outcome(ds.subrange(0, j), names),
    decreases ds.len(),
{
    if j == ds.len() {
        assert(ds.subrange(0, j) =~= ds);
    } else {
        let w = ds.drop_last();
        assert(w.subrange(0, j) =~= ds.subrange(0, j));
        lemma_links_err_sticks(w, names, j);
    }
}

/// The names of a directive that resolved.
pub open spec fn pair_of(d: Seq<char>) -> (Seq<char>, Seq<char>) {
    link_names(d)->Ok_0
}

/// When every link directive resolves, the link map holds each directive
/// `A,B` in both directions, `A` to `B` and `B` to `A`; every link goes back
/// the way it came and links two different interfaces; and no interface
/// takes part in two directives, on either side.
pub proof fn lemma_links_symmetric(dirs: Seq<Seq<char>>, names: Set<Seq<char>>)
    requires
        links_outcome(dirs, names) is Ok,
    ensures
        ({
            let m = links_outcome(dirs, names)->Ok_0;
            &&& forall|k: Seq<char>|
                #[trigger] m.contains_key(k) ==> m.contains_key(m[k]) && m[m[k]] == k && m[k] != k
            &&& forall|i: int|
                0 <= i < dirs.len() ==> #[trigger] link_names(dirs[i]) is Ok && m.contains_key(pair_of(dirs[i]).0)
                    && m[pair_of(dirs[i]).0] == pair_of(dirs[i]).1 && m.contains_key(pair_of(dirs[i]).1)
                    && m[pair_of(dirs[i]).1] == pair_of(dirs[i]).0
            &&& forall|i: int, j: int|
                0 <= i < j < dirs.len() ==> {
                    let (a, b) = pair_of(#[trigger] dirs[i]);
                    let (c, d) = pair_of(#[trigger] dirs[j]);
                    a != c && a != d && b != c && b != d
                }
        }),
    decreases dirs.len(),
{
    if dirs.len() > 0 {
        let w = dirs.drop_last();
        lemma_links_symmetric(w, names);
        let m = links_outcome(w, names)->Ok_0;
        let (a, b) = pair_of(dirs.last());
        let m2 = links_outcome(dirs, names)->Ok_0;
        assert(m2 == m.insert(a, b).insert(b, a));
        assert(!m.contains_key(a) && !m.contains_key(b) && a != b);
        assert forall|k: Seq<char>| #[trigger] m2.contains_key(k) implies m2.contains_key(m2[k]) && m2[m2[k]] == k
            && m2[k] != k by {
            if k != a && k != b {
                assert(m.contains_key(k));
                assert(m.contains_key(m[k]));
            }
        }
        assert forall|i: int| 0 <= i < dirs.len() implies #[trigger] link_names(dirs[i]) is Ok && m2.contains_key(
            pair_of(dirs[i]).0,
        ) && m2[pair_of(dirs[i]).0] == pair_of(dirs[i]).1 && m2.contains_key(pair_of(dirs[i]).1)
            && m2[pair_of(dirs[i]).1] == pair_of(dirs[i]).0 by {
            if i < w.len() {
                assert(dirs[i] == w[i]);
                assert(link_names(w[i]) is Ok);
            }
        }
        assert forall|i: int, j: int| 0 <= i < j < dirs.len() implies {
            let (x, y) = pair_of(#[trigger] dirs[i]);
            let (c, d) = pair_of(#[trigger] dirs[j]);
            x != c && x != d && y != c && y != d
        } by {
            assert(dirs[i] == w[i]);
            assert(link_names(w[i]) is Ok);
            if j < w.len() {
                assert(dirs[j] == w[j]);
            }
        }
    }
}

fn find_link(v: &Vec<Link>, k: &str) -> (r: Option<usize>)
    ensures
        match r {
            Some(i) => i < v@.len() && v@[i as int].from@ == k@,
            None => forall|i: int| 0 <= i < v@.len() ==> v@[i].from@ != k@,
        },
{
    let mut i: usize = 0;
    while i < v.len()
        invariant
            i <= v@.len(),
            forall|j: int| 0 <= j < i ==> v@[j].from@ != k@,
        decreases v@.len() - i,
    {
        if str_eq(v[i].from.as_str(), k) {
            return Some(i);
        }
        i += 1;
    }
    None
}

/// The names of a list of interfaces.
pub open spec fn interface_names(v: Seq<Interface>) -> Set<Seq<char>> {
    Set::new(|n: Seq<char>| has_key(v, n))
}

pub open spec fn string_views(v: Seq<String>) -> Seq<Seq<char>> {
    v.map_values(|s: String| s@)
}

/// Resolves link directives into links stored in both directions.
pub fn resolve_links(dirs: &Vec<String>, interfaces: &Vec<Interface>) -> (r: Result<Vec<Link>, LinkError>)
    requires
        strictly_sorted(interfaces@),
    ensures
        match (r, links_outcome(string_views(dirs@), interface_names(interfaces@))) {
            (Ok(v), Ok(m)) => distinct_sources(v@) && link_map(v@) == m,
            (Err(e), Err(f)) => e@ == f,
            _ => false,
        },
{
    let ghost names = interface_names(interfaces@);
    let ghost ds = string_views(dirs@);
    let mut links: Vec<Link> = Vec::new();
    let mut i: usize = 0;
    while i < dirs.len()
        invariant
            i <= dirs@.len(),
            names == interface_names(interfaces@),
            ds == string_views(dirs@),
            strictly_sorted(interfaces@),
            distinct_sources(links@),
            links_outcome(ds.subrange(0, i as int), names) == Ok::<Map<Seq<char>, Seq<char>>, LinkErrorView>(
                link_map(links@),
            ),
        decreases dirs@.len() - i,
    {
        let ghost m = link_map(links@);
        proof {
            assert(ds.subrange(0, i + 1).drop_last() =~= ds.subrange(0, i as int));
            assert(ds.subrange(0, i + 1).last() == dirs@[i as int]@);
            lemma_link_map(links@);
        }
        let (a, b) = match parse_link(dirs[i].as_str()) {
            Ok(p) => p,
            Err(e) => {
                proof {
                    lemma_links_err_sticks(ds, names, i + 1);
                }
                return Err(e);
            },
        };
        let (ka, found_a) = locate(interfaces, a.as_str());
        assert(found_a ==> interfaces@[ka as int].key() == a@);
        if !found_a {
            assert(!names.contains(a@));
            proof {
                lemma_links_err_sticks(ds, names, i + 1);
            }
            return Err(LinkError::UnknownInterface(a));
        }
        let (kb, found_b) = locate(interfaces, b.as_str());
        assert(found_b ==> interfaces@[kb as int].key() == b@);
        if !found_b {
            assert(!names.contains(b@));
            proof {
                lemma_links_err_sticks(ds, names, i + 1);
            }
            return Err(LinkError::UnknownInterface(b));
        }
        assert(names.contains(a@) && names.contains(b@));
        assert(link_names(ds[i as int]) == Ok::<(Seq<char>, Seq<char>), LinkErrorView>((a@, b@)));
        match find_link(&links, a.as_str()) {
            Some(j) => {
                let previous = links[j].to.clone();
                proof {
                    lemma_links_err_sticks(ds, names, i + 1);
                }
                return Err(LinkError::AlreadyLinked { name: a, partner: b, previous });
            },
            None => {},
        }
        assert(!m.contains_key(a@));
        let ghost before = links@;
        links.push(Link { from: a.clone(), to: b.clone() });
        proof {
            assert(links@.drop_last() =~= before);
            assert(distinct_sources(links@));
            lemma_link_map(links@);
            assert(link_map(links@) == m.insert(a@, b@));
        }
        match find_link(&links, b.as_str()) {
            Some(j) => {
                let previous = links[j].to.clone();
                proof {
                    lemma_links_err_sticks(ds, names, i + 1);
                }
                return Err(LinkError::AlreadyLinked { name: b, partner: a, previous });
            },
            None => {},
        }
        assert(!m.insert(a@, b@).contains_key(b@));
        let ghost before2 = links@;
        links.push(Link { from: b, to: a });
        proof {
            assert(links@.drop_last() =~= before2);
            assert(link_map(links@) == m.insert(a@, b@).insert(b@, a@));
            assert(distinct_sources(links@));
        }
        i += 1;
    }
    assert(ds.subrange(0, i as int) =~= ds);
    Ok(links)
}

/// Why the package could not be put together.
#[derive(Debug)]
pub enum PackageError {
    /// No input file was given.
    NoInputs,
    /// Two input files are in different directories.
    MixedDirectories { first: String, other: String },
    /// The output directory name is empty.
    EmptyDir,
    /// The protocol identifier is empty.
    EmptyProtocol,
    /// The function prefix is empty.
    EmptyPrefix,
    /// A link directive is bad.
    Link(LinkError),
}

/// `dir` placed under the directory `parent`, as `PathBuf::push` places it.
pub open spec fn joined(parent: Seq<char>, dir: Seq<char>) -> Seq<char> {
    if is_prefix("/"@, dir) || parent.len() == 0 {
        dir
    } else if parent.last() == '/' {
        parent + dir
    } else {
        parent + "/"@ + dir
    }
}

/// Index of the first entry of `ps` that differs from the first one, or `ps.len()`.
pub open spec fn first_other(ps: Seq<Seq<char>>, k: int) -> int
    decreases ps.len() - k,
{
    if k < 1 || k >= ps.len() {
        ps.len() as int
    } else if ps[k] != ps[0] {
        k
    } else {
        first_other(ps, k + 1)
    }
}

/// The output directory: `dir` under the directory that holds every input.
pub open spec fn out_dir_of(parents: Seq<Seq<char>>, dir: Seq<char>) -> Option<Seq<char>> {
    if parents.len() == 0 || first_other(parents, 1) < parents.len() || dir.len() == 0 {
        None
    } else {
        Some(joined(parents[0], dir))
    }
}

/// Works out the output directory from the directories of the input files,
/// which must all be one, and the name of the output directory.
pub fn get_out_dir(parents: &Vec<String>, dir: &str) -> (r: Result<String, PackageError>)
    ensures
        match out_dir_of(string_views(parents@), dir@) {
            Some(d) => r is Ok && r->Ok_0@ == d,
            None => r is Err,
        },
        r is Err ==> !(r->Err_0 is Link),
        parents@.len() == 0 ==> r is Err && r->Err_0 is NoInputs,
        parents@.len() > 0 && first_other(string_views(parents@), 1) < parents@.len() ==> r is Err
            && r->Err_0 is MixedDirectories,
        parents@.len() > 0 && first_other(string_views(parents@), 1) == parents@.len() && dir@.len() == 0
            ==> r is Err && r->Err_0 is EmptyDir,
{
    let ghost ps = string_views(parents@);
    if parents.len() == 0 {
        return Err(PackageError::NoInputs);
    }
    let first = parents[0].as_str();
    let mut k: usize = 1;
    while k < parents.len()
        invariant
            1 <= k <= parents@.len(),
            ps == string_views(parents@),
            first@ == ps[0],
            first_other(ps, 1) == first_other(ps, k as int),
        decreases parents@.len() - k,
    {
        if !str_eq(parents[k].as_str(), first) {
            return Err(
                PackageError::MixedDirectories { first: String::from_str(first), other: parents[k].clone() },
            );
        }
        k += 1;
    }
    if dir.unicode_len() == 0 {
        return Err(PackageError::EmptyDir);
    }
    if str_starts_with(dir, "/") || first.unicode_len() == 0 {
        return Ok(String::from_str(dir));
    }
    let mut out = String::from_str(first);
    if first.get_char(first.unicode_len() - 1) != '/' {
        out.append("/");
    }
    out.append(dir);
    Ok(out)
}

/// Struct to store information about all parsed inputs and options
#[derive(Debug)]
pub struct Package {
    /// Protocol identifier
    pub protocol: String,
    /// Function prefix
    pub prefix: String,
    /// The pairs of interfaces that are linked together; both directions are stored
    pub linkage: Vec<Link>,
    /// All interfaces in the package, sorted by name
    pub interfaces: Vec<Interface>,
    /// Output directory for the generated files
    pub out_dir: String,
    /// Do not generate the .gitignore file
    pub no_gitignore: bool,
}

impl Package {
    /// The package is well formed: interfaces sorted by name and the functions
    /// of each too, links with distinct sources.
    pub open spec fn wf(&self) -> bool {
        all_sorted(self.interfaces@) && distinct_sources(self.linkage@)
    }

    /// The prefix that generated functions get.
    pub open spec fn prefix_of(cli: CliOptions) -> Seq<char> {
        match cli.prefix {
            Some(p) => p@,
            None => cli.protocol@,
        }
    }

    /// Puts the package together: the output directory is worked out from
    /// `parents`, the directories of the input files; the protocol identifier
    /// and the prefix must not be empty; and the link directives are resolved.
    /// The first of these that fails gives the error.
    pub fn try_new(cli: &CliOptions, parents: &Vec<String>, interfaces: Vec<Interface>) -> (r: Result<
        Package,
        PackageError,
    >)
        requires
            all_sorted(interfaces@),
        ensures
            ({
                let od = out_dir_of(string_views(parents@), cli.dir@);
                let links = links_outcome(string_views(cli.link@), interface_names(interfaces@));
                let ok = od is Some && cli.protocol@.len() > 0 && Self::prefix_of(*cli).len() > 0 && links is Ok;
                &&& r is Ok <==> ok
                &&& od is None ==> r is Err && !(r->Err_0 is Link)
                &&& od is Some && cli.protocol@.len() == 0 ==> r is Err && r->Err_0 is EmptyProtocol
                &&& od is Some && cli.protocol@.len() > 0 && Self::prefix_of(*cli).len() == 0 ==> r is Err
                    && r->Err_0 is EmptyPrefix
                &&& od is Some && cli.protocol@.len() > 0 && Self::prefix_of(*cli).len() > 0 && links is Err
                    ==> r is Err && r->Err_0 is Link && r->Err_0->Link_0@ == links->Err_0
                &&& r is Ok ==> {
                    let p = r->Ok_0;
                    &&& p.wf()
                    &&& p.protocol@ == cli.protocol@
                    &&& p.prefix@ == Self::prefix_of(*cli)
                    &&& p.out_dir@ == od->0
                    &&& link_map(p.linkage@) == links->Ok_0
                    &&& p.interfaces == interfaces
                    &&& p.no_gitignore == cli.no_gitignore
                }
            }),
    {
        let out_dir = match get_out_dir(parents, cli.dir.as_str()) {
            Ok(d) => d,
            Err(e) => {
                return Err(e);
            },
        };
        if cli.protocol.unicode_len() == 0 {
            return Err(PackageError::EmptyProtocol);
        }
        let prefix = match &cli.prefix {
            Some(p) => p.clone(),
            None => cli.protocol.clone(),
        };
        if prefix.unicode_len() == 0 {
            return Err(PackageError::EmptyPrefix);
        }
        let linkage = match resolve_links(&cli.link, &interfaces) {
            Ok(l) => l,
            Err(e) => {
                return Err(PackageError::Link(e));
            },
        };
        Ok(
            Package {
                protocol: cli.protocol.clone(),
                prefix,
                linkage,
                interfaces,
                out_dir,
                no_gitignore: cli.no_gitignore,
            },
        )
    }

    /// The interface linked with the one named `name`, if any.
    pub fn linked_name(&self, name: &str) -> (r: Option<&str>)
        requires
            self.wf(),
        ensures
            match r {
                Some(n) => link_map(self.linkage@).contains_key(name@) && link_map(self.linkage@)[name@] == n@,
                None => !link_map(self.linkage@).contains_key(name@),
            },
    {
        proof {
            lemma_link_map(self.linkage@);
        }
        match find_link(&self.linkage, name) {
            Some(i) => Some(self.linkage[i].to.as_str()),
            None => None,
        }
    }
}

} // verus!
