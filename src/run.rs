//! One whole run, from parsed source files to the text of every output file.
use vstd::prelude::*;

use crate::collect::{built_from, built_in_file, diag_views, files_outcome, load_interfaces_from_inputs, parse, Diagnostic, Error};
use crate::decl::SourceFile;
use crate::emit::{bus_file_name, emit, impl_file_name, OutputFile};
use crate::funcid::{all_sorted, flat_pairs, lemma_flat_len, FIRST_FUNCTION_ID};
use crate::interface::Interface;
use crate::package::{interface_names, links_outcome, out_dir_of, string_views, CliOptions, Package, PackageError};
use crate::sorted::{has_key, strictly_sorted};

verus! {

/// Why a run produced no output.
#[derive(Debug)]
pub enum RunError {
    /// An input file name is one that output files use.
    Input(Error),
    /// Problems found in the declarations, all of them.
    Problems(Vec<Diagnostic>),
    /// The options or the links are wrong.
    Package(PackageError),
    /// More functions than IDs.
    TooManyFunctions,
}

/// What a run renders, and where it goes.
#[derive(Debug)]
pub struct RunOutput {
    /// The output directory
    pub out_dir: String,
    /// The files to write into it
    pub files: Vec<OutputFile>,
}

/// Some input file has a name that output files use.
pub open spec fn has_reserved_file(files: Seq<SourceFile>) -> bool {
    exists|i: int| 0 <= i < files.len() && crate::collect::is_reserved_file_name(#[trigger] files[i].filename@)
}

/// The options and links allow a package of the interfaces named `names`.
pub open spec fn package_ok(cli: CliOptions, parents: Seq<String>, names: Set<Seq<char>>) -> bool {
    &&& out_dir_of(string_views(parents), cli.dir@) is Some
    &&& cli.protocol@.len() > 0
    &&& Package::prefix_of(cli).len() > 0
    &&& links_outcome(string_views(cli.link@), names) is Ok
}

proof fn lemma_flat_len_step(is: Seq<Interface>, i: int)
    requires
        0 <= i < is.len(),
    ensures
        flat_pairs(is.subrange(0, i + 1)).len() == flat_pairs(is.subrange(0, i)).len() + is[i].functions@.len(),
{
    assert(is.subrange(0, i + 1).drop_last() =~= is.subrange(0, i));
}

/// Whether every function of `is` can get an ID.
fn ids_fit(is: &Vec<Interface>) -> (r: bool)
    ensures
        r == (flat_pairs(is@).len() + FIRST_FUNCTION_ID <= u32::MAX),
{
    let mut total: u64 = 0;
    let mut i: usize = 0;
    while i < is.len()
        invariant
            i <= is@.len(),
            total == flat_pairs(is@.subrange(0, i as int)).len(),
            total + FIRST_FUNCTION_ID <= u32::MAX,
        decreases is@.len() - i,
    {
        proof {
            lemma_flat_len_step(is@, i as int);
        }
        let n = is[i].functions.len() as u64;
        if n > 4294967295u64 - 16 - total {
            proof {
                lemma_flat_len(is@, i + 1);
            }
            return false;
        }
        total = total + n;
        i += 1;
    }
    assert(is@.subrange(0, i as int) =~= is@);
    true
}

/// `is` is what reading `files` gives: interfaces sorted by name, one for
/// each name kept, each built from a declaration of the files.
pub open spec fn loaded(is: Seq<Interface>, files: Seq<SourceFile>) -> bool {
    &&& strictly_sorted(is)
    &&& forall|n: Seq<char>| files_outcome(files).0.contains(n) <==> has_key(is, n)
    &&& forall|q: int| 0 <= q < is.len() ==> built_from(#[trigger] is[q], files)
}

/// `out` holds the files that rendering a package of the interfaces `is`
/// gives: per interface, in order, its implementation module and its
/// bind-config module, then the protocol module, then the `.gitignore` unless
/// turned off.
pub open spec fn files_for(out: Seq<OutputFile>, is: Seq<Interface>, no_gitignore: bool) -> bool {
    &&& out.len() == 2 * is.len() + 1 + (if no_gitignore { 0int } else { 1int })
    &&& forall|i: int|
        0 <= i < 2 * is.len() ==> (#[trigger] out[i]).name@ == if i % 2 == 0 {
            impl_file_name(is[i / 2].name@)
        } else {
            bus_file_name(is[i / 2].name@)
        }
    &&& out[2 * is.len() as int].name@ == "protocol.ts"@
    &&& !no_gitignore ==> out[2 * is.len() as int + 1].name@ == ".gitignore"@
}

/// One run: reads the declarations of `files` (whose directories are
/// `parents`), checks the options and links of `cli`, and renders every
/// output file. Nothing is rendered unless every step is clean: a reserved
/// file name, any problem in the declarations, bad options or links, or more
/// functions than IDs each give an error, in that order.
pub fn generate(cli: &CliOptions, parents: &Vec<String>, files: &Vec<SourceFile>) -> (r: Result<
    RunOutput,
    RunError,
>)
    ensures
        has_reserved_file(files@) ==> r is Err && r->Err_0 is Input,
        !has_reserved_file(files@) && files_outcome(files@).1.len() > 0 ==> r is Err && r->Err_0 is Problems
            && diag_views(r->Err_0->Problems_0@) == files_outcome(files@).1,
        !has_reserved_file(files@) && files_outcome(files@).1.len() == 0 && !package_ok(
            *cli,
            parents@,
            files_outcome(files@).0,
        ) ==> r is Err && r->Err_0 is Package,
        r is Ok ==> !has_reserved_file(files@) && files_outcome(files@).1.len() == 0 && package_ok(
            *cli,
            parents@,
            files_outcome(files@).0,
        ),
        r is Err && r->Err_0 is TooManyFunctions ==> !has_reserved_file(files@) && files_outcome(files@).1.len()
            == 0 && package_ok(*cli, parents@, files_outcome(files@).0),
        r is Err && r->Err_0 is Input ==> has_reserved_file(files@),
        r is Err && r->Err_0 is Problems ==> !has_reserved_file(files@) && files_outcome(files@).1.len() > 0,
        r is Err && r->Err_0 is Package ==> !has_reserved_file(files@) && files_outcome(files@).1.len() == 0
            && !package_ok(*cli, parents@, files_outcome(files@).0),
        r is Err && r->Err_0 is TooManyFunctions ==> exists|is: Seq<Interface>|
            loaded(is, files@) && flat_pairs(is).len() + FIRST_FUNCTION_ID > u32::MAX,
        r is Ok ==> r->Ok_0.out_dir@ == out_dir_of(string_views(parents@), cli.dir@)->0 && exists|is: Seq<Interface>|
            loaded(is, files@) && flat_pairs(is).len() + FIRST_FUNCTION_ID <= u32::MAX && files_for(
                r->Ok_0.files@,
                is,
                cli.no_gitignore,
            ),
{
    match parse(files) {
        Err(Error::Filename) => {
            return Err(RunError::Input(Error::Filename));
        },
        _ => {},
    }
    let interfaces = match load_interfaces_from_inputs(files) {
        Ok(is) => is,
        Err(ds) => {
            return Err(RunError::Problems(ds));
        },
    };
    proof {
        assert(interface_names(interfaces@) =~= files_outcome(files@).0);
        assert forall|i: int| 0 <= i < interfaces@.len() implies strictly_sorted(
            #[trigger] interfaces@[i].functions@,
        ) by {
            assert(built_from(interfaces@[i], files@));
            let f = choose|f: int| 0 <= f < files@.len() && built_in_file(interfaces@[i], #[trigger] files@[f]);
            assert(built_in_file(interfaces@[i], files@[f]));
        }
        assert(all_sorted(interfaces@));
    }
    let ghost is = interfaces@;
    assert(loaded(is, files@));
    let pkg = match Package::try_new(cli, parents, interfaces) {
        Ok(p) => p,
        Err(e) => {
            return Err(RunError::Package(e));
        },
    };
    if !ids_fit(&pkg.interfaces) {
        return Err(RunError::TooManyFunctions);
    }
    let out = emit(&pkg);
    assert(files_for(out@, is, cli.no_gitignore));
    Ok(RunOutput { out_dir: pkg.out_dir, files: out })
}

} // verus!
