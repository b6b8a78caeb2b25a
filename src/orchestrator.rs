use vstd::prelude::*;

use crate::amalgam::{
    amalgamate_file, emit, file_in, names_view, push_str_chars, SourceTree,
};
use crate::error::BuildError;

verus! {

/// Rank of the public header directory among the search directories.
pub const HEADER_DIR: usize = 0;

/// Rank of the private source directory among the search directories.
pub const SOURCE_DIR: usize = 1;

/// Where the sources to compile come from.
#[derive(Debug, Clone, Copy, PartialEq, Eq, Structural)]
pub enum BuildMode {
    /// The full source tree is present: regenerate the artifacts from it.
    Source,
    /// Only the artifacts are present: use them as they are.
    Artifact,
}

/// Source mode exactly when both source files and the umbrella header are
/// present.
pub fn build_mode(parser_source: bool, c_api_source: bool, umbrella_header: bool) -> (r: BuildMode)
    ensures
        r == (if parser_source && c_api_source && umbrella_header {
            BuildMode::Source
        } else {
            BuildMode::Artifact
        }),
{
    if parser_source && c_api_source && umbrella_header {
        BuildMode::Source
    } else {
        BuildMode::Artifact
    }
}

/// The compile cannot go on without the amalgamated source artifact.
pub fn require_source_artifact(present: bool) -> (r: Result<(), BuildError>)
    ensures
        r == (if present {
            Ok::<(), BuildError>(())
        } else {
            Err(BuildError::MissingFile)
        }),
{
    if present {
        Ok(())
    } else {
        Err(BuildError::MissingFile)
    }
}

/// The three generated files.
pub struct Artifacts {
    /// The amalgamated public header.
    pub header: Vec<char>,
    /// The amalgamated source, which opens by naming the header.
    pub source: Vec<char>,
    /// The standalone C header, copied as it is.
    pub standalone: Vec<char>,
}

/// The first line of the amalgamated source, and an empty line.
pub open spec fn source_preamble() -> Seq<char> {
    "#include \"merve.h\"\n\n"@
}

/// The artifacts of a tree: the umbrella header expanded; the preamble, then
/// the two source files expanded in turn; the standalone header as it is.
/// All three expansions share one visited list, which starts empty.
pub open spec fn artifacts_of(tree: Seq<crate::amalgam::FileModel>) -> Result<
    (Seq<char>, Seq<char>, Seq<char>),
    BuildError,
> {
    match file_in(tree, HEADER_DIR as nat, "merve.h"@) {
        None => Err(BuildError::MissingFile),
        Some(h) => {
            let hdr = emit(tree, "merve.h"@, h, Seq::empty());
            match file_in(tree, SOURCE_DIR as nat, "parser.cpp"@) {
                None => Err(BuildError::MissingFile),
                Some(p) => {
                    let ps = emit(tree, "parser.cpp"@, p, hdr.1);
                    match file_in(tree, SOURCE_DIR as nat, "merve_c.cpp"@) {
                        None => Err(BuildError::MissingFile),
                        Some(c) => {
                            let cs = emit(tree, "merve_c.cpp"@, c, ps.1);
                            match file_in(tree, HEADER_DIR as nat, "merve_c.h"@) {
                                None => Err(BuildError::MissingFile),
                                Some(s) => Ok((hdr.0, source_preamble() + ps.0 + cs.0, s)),
                            }
                        },
                    }
                },
            }
        },
    }
}

fn name_chars(s: &str) -> (r: Vec<char>)
    ensures
        r@ == s@,
{
    let mut r: Vec<char> = Vec::new();
    push_str_chars(&mut r, s);
    r
}

/// Produces the artifacts of a tree, as `artifacts_of` states.
pub fn amalgamate_tree(tree: &SourceTree) -> (r: Result<Artifacts, BuildError>)
    ensures
        match artifacts_of(tree@) {
            Ok(a) => r is Ok && r->Ok_0.header@ == a.0 && r->Ok_0.source@ == a.1
                && r->Ok_0.standalone@ == a.2,
            Err(e) => r is Err && r->Err_0 == e,
        },
{
    let mut visited: Vec<Vec<char>> = Vec::new();
    assert(names_view(visited@) =~= Seq::empty());
    let mut header: Vec<char> = Vec::new();
    let umbrella = name_chars("merve.h");
    match amalgamate_file(tree, HEADER_DIR, &umbrella, &mut header, &mut visited) {
        Err(e) => {
            return Err(e);
        },
        Ok(()) => {},
    }
    assert(header@ =~= Seq::empty() + header@);
    let mut source: Vec<char> = Vec::new();
    push_str_chars(&mut source, "#include \"merve.h\"\n\n");
    assert(source@ =~= source_preamble());
    let parser = name_chars("parser.cpp");
    match amalgamate_file(tree, SOURCE_DIR, &parser, &mut source, &mut visited) {
        Err(e) => {
            return Err(e);
        },
        Ok(()) => {},
    }
    let c_api = name_chars("merve_c.cpp");
    match amalgamate_file(tree, SOURCE_DIR, &c_api, &mut source, &mut visited) {
        Err(e) => {
            return Err(e);
        },
        Ok(()) => {},
    }
    let standalone_name = name_chars("merve_c.h");
    let mut standalone: Vec<char> = Vec::new();
    let mut i: usize = 0;
    let mut found = false;
    while i < tree.files.len() && !found
        invariant
            i <= tree.files@.len(),
            !found ==> crate::amalgam::file_in_from(tree@, HEADER_DIR as nat, "merve_c.h"@, i as int)
                == file_in(tree@, HEADER_DIR as nat, "merve_c.h"@),
            found ==> file_in(tree@, HEADER_DIR as nat, "merve_c.h"@) == Some(standalone@),
            standalone_name@ == "merve_c.h"@,
        decreases tree.files@.len() - i + (if found {
            0int
        } else {
            1int
        }),
    {
        if tree.files[i].dir == HEADER_DIR && crate::amalgam::chars_eq(
            &tree.files[i].name,
            &standalone_name,
        ) {
            standalone = crate::amalgam::copy_range(&tree.files[i].text, 0, tree.files[i].text.len());
            assert(tree.files@[i as int].text@.subrange(0, tree.files@[i as int].text@.len() as int)
                =~= tree.files@[i as int].text@);
            found = true;
        } else {
            i = i + 1;
        }
    }
    if !found {
        return Err(BuildError::MissingFile);
    }
    Ok(Artifacts { header, source, standalone })
}

/// The hand-written files whose change makes the artifacts stale, each as a
/// search directory rank and a name.
pub fn rebuild_triggers() -> (r: Vec<(usize, String)>)
    ensures
        r@.len() == 6,
        r@[0].0 == SOURCE_DIR && r@[0].1@ == "parser.cpp"@,
        r@[1].0 == SOURCE_DIR && r@[1].1@ == "merve_c.cpp"@,
        r@[2].0 == HEADER_DIR && r@[2].1@ == "merve.h"@,
        r@[3].0 == HEADER_DIR && r@[3].1@ == "merve_c.h"@,
        r@[4].0 == HEADER_DIR && r@[4].1@ == "merve/parser.h"@,
        r@[5].0 == HEADER_DIR && r@[5].1@ == "merve/version.h"@,
{
    let mut r: Vec<(usize, String)> = Vec::new();
    r.push((SOURCE_DIR, String::from_str("parser.cpp")));
    r.push((SOURCE_DIR, String::from_str("merve_c.cpp")));
    r.push((HEADER_DIR, String::from_str("merve.h")));
    r.push((HEADER_DIR, String::from_str("merve_c.h")));
    r.push((HEADER_DIR, String::from_str("merve/parser.h")));
    r.push((HEADER_DIR, String::from_str("merve/version.h")));
    r
}

/// The settings of the native compile that do not depend on the target.
pub struct CompileSettings {
    /// The C++ language standard.
    pub standard: String,
    /// The amalgamated source file to compile, in the artifact directory.
    pub source_file: String,
    /// The name of the static library produced.
    pub library: String,
    /// A preprocessor definition, name and value, when one is needed.
    pub define: Option<(String, String)>,
}

/// C++20, the amalgamated source, the `merve` library, and the error
/// location switch defined exactly when that feature is on.
pub fn compile_settings(error_location: bool) -> (r: CompileSettings)
    ensures
        r.standard@ == "c++20"@,
        r.source_file@ == "merve.cpp"@,
        r.library@ == "merve"@,
        match r.define {
            Some(d) => error_location && d.0@ == "MERVE_ENABLE_ERROR_LOCATION"@ && d.1@ == "1"@,
            None => !error_location,
        },
{
    let define = if error_location {
        Some((String::from_str("MERVE_ENABLE_ERROR_LOCATION"), String::from_str("1")))
    } else {
        None
    };
    CompileSettings {
        standard: String::from_str("c++20"),
        source_file: String::from_str("merve.cpp"),
        library: String::from_str("merve"),
        define,
    }
}

} // verus!
