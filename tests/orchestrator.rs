use merve::amalgam::{SourceFile, SourceTree};
use merve::error::BuildError;
use merve::orchestrator::{
    amalgamate_tree, build_mode, compile_settings, rebuild_triggers, require_source_artifact,
    BuildMode, HEADER_DIR, SOURCE_DIR,
};

fn file(dir: usize, name: &str, body: &str) -> SourceFile {
    SourceFile {
        dir,
        name: name.chars().collect(),
        text: body.chars().collect(),
    }
}

fn text(v: &[char]) -> String {
    v.iter().collect()
}

fn repo() -> Vec<SourceFile> {
    vec![
        file(HEADER_DIR, "merve.h", "#include \"merve/parser.h\"\n"),
        file(HEADER_DIR, "merve/parser.h", "#include \"merve/version.h\"\nP\n"),
        file(HEADER_DIR, "merve/version.h", "V\n"),
        file(HEADER_DIR, "merve_c.h", "#include \"merve.h\"\nC\n"),
        file(SOURCE_DIR, "parser.cpp", "#include \"merve.h\"\n#include \"merve/parser.h\"\nimpl\n"),
        file(SOURCE_DIR, "merve_c.cpp", "#include \"merve_c.h\"\n#include <string>\ncapi\n"),
    ]
}

#[test]
fn artifacts_share_one_visited_list() {
    let a = amalgamate_tree(&SourceTree { files: repo() }).unwrap();
    assert_eq!(
        text(&a.header),
        "/* begin file merve.h */\n/* begin file merve/parser.h */\n\
         /* begin file merve/version.h */\nV\n/* end file merve/version.h */\nP\n\
         /* end file merve/parser.h */\n/* end file merve.h */\n"
    );
    assert_eq!(
        text(&a.source),
        "#include \"merve.h\"\n\n/* begin file parser.cpp */\n\
         /* begin file merve.h */\n/* end file merve.h */\nimpl\n/* end file parser.cpp */\n\
         /* begin file merve_c.cpp */\n/* begin file merve_c.h */\nC\n/* end file merve_c.h */\n\
         #include <string>\ncapi\n/* end file merve_c.cpp */\n"
    );
    assert_eq!(text(&a.standalone), "#include \"merve.h\"\nC\n");
}

#[test]
fn artifacts_need_every_root() {
    for skip in ["merve.h", "parser.cpp", "merve_c.cpp", "merve_c.h"] {
        let files: Vec<SourceFile> = repo()
            .into_iter()
            .filter(|f| f.name != skip.chars().collect::<Vec<char>>())
            .collect();
        assert_eq!(
            amalgamate_tree(&SourceTree { files }).err(),
            Some(BuildError::MissingFile)
        );
    }
}

#[test]
fn mode_selection() {
    assert_eq!(build_mode(true, true, true), BuildMode::Source);
    assert_eq!(build_mode(true, false, true), BuildMode::Artifact);
    assert_eq!(build_mode(false, true, true), BuildMode::Artifact);
    assert_eq!(build_mode(true, true, false), BuildMode::Artifact);
    assert_eq!(require_source_artifact(true), Ok(()));
    assert_eq!(require_source_artifact(false), Err(BuildError::MissingFile));
}

#[test]
fn settings_and_triggers() {
    let s = compile_settings(true);
    assert_eq!(s.standard, "c++20");
    assert_eq!(s.source_file, "merve.cpp");
    assert_eq!(s.library, "merve");
    assert_eq!(
        s.define,
        Some(("MERVE_ENABLE_ERROR_LOCATION".to_string(), "1".to_string()))
    );
    assert_eq!(compile_settings(false).define, None);
    let t = rebuild_triggers();
    assert_eq!(t.len(), 6);
    assert_eq!(t[0], (SOURCE_DIR, "parser.cpp".to_string()));
    assert_eq!(t[5], (HEADER_DIR, "merve/version.h".to_string()));
}
