use merve::amalgam::{amalgamate_file, directive_target_of, SourceFile, SourceTree};
use merve::error::BuildError;

fn chars(s: &str) -> Vec<char> {
    s.chars().collect()
}

fn text(v: &[char]) -> String {
    v.iter().collect()
}

fn file(dir: usize, name: &str, body: &str) -> SourceFile {
    SourceFile {
        dir,
        name: chars(name),
        text: chars(body),
    }
}

fn run(tree: &SourceTree, dir: usize, name: &str, visited: &mut Vec<Vec<char>>) -> String {
    let mut out = Vec::new();
    amalgamate_file(tree, dir, &chars(name), &mut out, visited).unwrap();
    text(&out)
}

#[test]
fn diamond_is_flattened_depth_first() {
    let tree = SourceTree {
        files: vec![
            file(0, "a.h", "a1\n#include \"b.h\"\na2\n#include \"c.h\"\na3\n"),
            file(0, "b.h", "b1\n#include \"c.h\"\nb2\n"),
            file(0, "c.h", "c1\n"),
        ],
    };
    let mut visited = Vec::new();
    let out = run(&tree, 0, "a.h", &mut visited);
    assert_eq!(
        out,
        "/* begin file a.h */\na1\n/* begin file b.h */\nb1\n/* begin file c.h */\nc1\n\
         /* end file c.h */\nb2\n/* end file b.h */\na2\na3\n/* end file a.h */\n"
    );
    assert_eq!(out.matches("c1").count(), 1);
    assert_eq!(visited, vec![chars("b.h"), chars("c.h")]);
}

#[test]
fn shared_visited_list_dedups_across_roots() {
    let tree = SourceTree {
        files: vec![
            file(0, "x.h", "x1\n#include \"s.h\"\n"),
            file(1, "y.cpp", "y1\n#include \"s.h\"\ny2\n"),
            file(0, "s.h", "s1\n"),
        ],
    };
    let mut visited = Vec::new();
    let x = run(&tree, 0, "x.h", &mut visited);
    let y = run(&tree, 1, "y.cpp", &mut visited);
    assert_eq!(
        x,
        "/* begin file x.h */\nx1\n/* begin file s.h */\ns1\n/* end file s.h */\n/* end file x.h */\n"
    );
    assert_eq!(y, "/* begin file y.cpp */\ny1\ny2\n/* end file y.cpp */\n");
}

#[test]
fn fresh_visited_list_inlines_again() {
    let tree = SourceTree {
        files: vec![
            file(0, "x.h", "#include \"s.h\"\n"),
            file(0, "y.h", "#include \"s.h\"\n"),
            file(0, "s.h", "s1\n"),
        ],
    };
    let mut first = Vec::new();
    run(&tree, 0, "x.h", &mut first);
    let mut second = Vec::new();
    let y = run(&tree, 0, "y.h", &mut second);
    assert!(y.contains("s1\n"));
}

#[test]
fn unresolved_directives_pass_through() {
    let tree = SourceTree {
        files: vec![file(
            1,
            "m.cpp",
            "#include <vector>\n#include \"missing.h\"\n  #  include   \"gone.h\" // note\nint x;\n",
        )],
    };
    let mut visited = Vec::new();
    let out = run(&tree, 1, "m.cpp", &mut visited);
    assert_eq!(
        out,
        "/* begin file m.cpp */\n#include <vector>\n#include \"missing.h\"\n  #  include   \"gone.h\" // note\nint x;\n/* end file m.cpp */\n"
    );
    assert!(visited.is_empty());
}

#[test]
fn cycle_terminates() {
    let tree = SourceTree {
        files: vec![
            file(0, "a.h", "#include \"b.h\"\nA\n"),
            file(0, "b.h", "#include \"a.h\"\nB\n"),
        ],
    };
    let mut visited = Vec::new();
    let out = run(&tree, 0, "a.h", &mut visited);
    assert_eq!(
        out,
        "/* begin file a.h */\n/* begin file b.h */\n/* begin file a.h */\nA\n/* end file a.h */\n\
         B\n/* end file b.h */\nA\n/* end file a.h */\n"
    );
}

#[test]
fn first_search_directory_wins() {
    let tree = SourceTree {
        files: vec![
            file(1, "root.cpp", "#include \"dup.h\"\n"),
            file(0, "dup.h", "from headers\n"),
            file(1, "dup.h", "from sources\n"),
        ],
    };
    let mut visited = Vec::new();
    let out = run(&tree, 1, "root.cpp", &mut visited);
    assert!(out.contains("from headers"));
    assert!(!out.contains("from sources"));
}

#[test]
fn dedup_is_by_name_alone() {
    let tree = SourceTree {
        files: vec![
            file(0, "one.h", "#include \"util.h\"\n"),
            file(1, "two.cpp", "#include \"util.h\"\n"),
            file(0, "util.h", "header util\n"),
            file(1, "util.h", "source util\n"),
        ],
    };
    let mut visited = Vec::new();
    run(&tree, 0, "one.h", &mut visited);
    let two = run(&tree, 1, "two.cpp", &mut visited);
    assert_eq!(two, "/* begin file two.cpp */\n/* end file two.cpp */\n");
}

#[test]
fn line_endings() {
    let tree = SourceTree {
        files: vec![file(0, "w.h", "a\r\nb\r\n\r\nc\rd")],
    };
    let mut visited = Vec::new();
    let out = run(&tree, 0, "w.h", &mut visited);
    assert_eq!(out, "/* begin file w.h */\na\nb\n\nc\rd\n/* end file w.h */\n");
}

#[test]
fn empty_file_gives_markers_only() {
    let tree = SourceTree {
        files: vec![file(0, "e.h", "")],
    };
    let mut visited = Vec::new();
    assert_eq!(
        run(&tree, 0, "e.h", &mut visited),
        "/* begin file e.h */\n/* end file e.h */\n"
    );
}

#[test]
fn missing_root_is_an_error() {
    let tree = SourceTree {
        files: vec![file(1, "a.h", "x\n")],
    };
    let mut out = chars("kept");
    let mut visited = vec![chars("v.h")];
    let r = amalgamate_file(&tree, 0, &chars("a.h"), &mut out, &mut visited);
    assert_eq!(r, Err(BuildError::MissingFile));
    assert_eq!(text(&out), "kept");
    assert_eq!(visited, vec![chars("v.h")]);
}

#[test]
fn directive_grammar() {
    let target = |s: &str| directive_target_of(&chars(s)).map(|v| text(&v));
    assert_eq!(target("#include \"a.h\""), Some("a.h".to_string()));
    assert_eq!(target(" \t# include \"dir/a.h\" trailing"), Some("dir/a.h".to_string()));
    assert_eq!(target("#include\"a.h\""), None);
    assert_eq!(target("#include <a.h>"), None);
    assert_eq!(target("#include \"\""), None);
    assert_eq!(target("#include \"a.h"), None);
    assert_eq!(target("x #include \"a.h\""), None);
    assert_eq!(target("#includes \"a.h\""), None);
    assert_eq!(target("#\u{a0}include\u{3000}\"a.h\""), Some("a.h".to_string()));
}
