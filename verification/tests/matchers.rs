use project_assets::error::AssetError;
use project_assets::globs::{is_candidate, ModuleGlobs};
use project_assets::module_type::ModuleType;

fn globs_of(items: &[&str]) -> Option<Vec<String>> {
    Some(items.iter().map(|s| s.to_string()).collect())
}

fn texts_of(list: Vec<String>) -> Vec<String> {
    list
}

#[test]
fn default_configuration_has_no_lists() {
    let globs = ModuleGlobs::default();
    assert_eq!(globs.esm, None);
    assert_eq!(globs.cjs, None);
    assert_eq!(globs.text, None);
    assert_eq!(globs.data, None);
    assert_eq!(globs.compiled_wasm, None);
    for t in ModuleType::declaration_order() {
        assert_eq!(globs.list_of(t), &None);
    }
}

#[test]
fn list_of_picks_the_list_of_the_type() {
    let globs = ModuleGlobs {
        esm: globs_of(&["e"]),
        cjs: globs_of(&["c"]),
        text: globs_of(&["t"]),
        data: globs_of(&["d"]),
        compiled_wasm: globs_of(&["w"]),
    };
    assert_eq!(globs.list_of(ModuleType::ESModule), &globs_of(&["e"]));
    assert_eq!(globs.list_of(ModuleType::CommonJS), &globs_of(&["c"]));
    assert_eq!(globs.list_of(ModuleType::CompiledWasm), &globs_of(&["w"]));
    assert_eq!(globs.list_of(ModuleType::Text), &globs_of(&["t"]));
    assert_eq!(globs.list_of(ModuleType::Data), &globs_of(&["d"]));
}

#[test]
fn default_globs_of_each_type() {
    assert_eq!(texts_of(ModuleGlobs::defaults(ModuleType::ESModule)), vec!["*.mjs"]);
    assert_eq!(texts_of(ModuleGlobs::defaults(ModuleType::CommonJS)), vec!["*.js", "*.cjs"]);
    assert_eq!(texts_of(ModuleGlobs::defaults(ModuleType::CompiledWasm)), Vec::<String>::new());
    assert_eq!(texts_of(ModuleGlobs::defaults(ModuleType::Text)), vec!["*.txt"]);
    assert_eq!(texts_of(ModuleGlobs::defaults(ModuleType::Data)), vec!["*.bin"]);
}

#[test]
fn one_matcher_per_type_in_declaration_order() {
    let (_, matchers) = ModuleGlobs::default().build_type_matchers().unwrap();
    let kinds: Vec<ModuleType> = matchers.iter().map(|m| m.module_type()).collect();
    assert_eq!(
        kinds,
        vec![
            ModuleType::ESModule,
            ModuleType::CommonJS,
            ModuleType::CompiledWasm,
            ModuleType::Text,
            ModuleType::Data,
        ]
    );
}

#[test]
fn default_matchers_accept_by_file_name() {
    let (_, matchers) = ModuleGlobs::default().build_type_matchers().unwrap();
    let accepted = |path: &str| -> Vec<bool> { matchers.iter().map(|m| m.is_match(path)).collect() };
    assert_eq!(accepted("/a/b/index.mjs"), vec![true, false, false, false, false]);
    assert_eq!(accepted("bar.js"), vec![false, true, false, false, false]);
    assert_eq!(accepted("/x/baz.cjs"), vec![false, true, false, false, false]);
    assert_eq!(accepted("main.wasm"), vec![false, false, false, false, false]);
    assert_eq!(accepted("/x/wat.txt"), vec![false, false, false, true, false]);
    assert_eq!(accepted("/x/wat.bin"), vec![false, false, false, false, true]);
    assert_eq!(accepted("/x.js/readme"), vec![false, false, false, false, false]);
    assert_eq!(accepted("/x/js"), vec![false, false, false, false, false]);
    assert_eq!(accepted(""), vec![false, false, false, false, false]);
}

#[test]
fn configured_list_replaces_the_default() {
    let mut globs = ModuleGlobs::default();
    globs.esm = globs_of(&["*.esm.js", "entry-*"]);
    let (_, matchers) = globs.build_type_matchers().unwrap();
    assert!(matchers[0].is_match("/w/a.esm.js"));
    assert!(matchers[0].is_match("/w/entry-point"));
    assert!(!matchers[0].is_match("/w/a.mjs"));
    assert!(matchers[1].is_match("/w/a.esm.js"));
}

#[test]
fn empty_list_accepts_nothing() {
    let mut globs = ModuleGlobs::default();
    globs.text = globs_of(&[]);
    let (all, matchers) = globs.build_type_matchers().unwrap();
    assert!(!matchers[3].is_match("/w/a.txt"));
    assert!(!is_candidate(&all, "/w/a.txt"));
    assert!(is_candidate(&all, "/w/a.js"));
}

#[test]
fn combined_matcher_accepts_what_any_type_accepts() {
    let mut globs = ModuleGlobs::default();
    globs.compiled_wasm = globs_of(&["*.wasm"]);
    let (all, matchers) = globs.build_type_matchers().unwrap();
    for path in [
        "/w/a.mjs", "/w/a.js", "/w/a.cjs", "/w/a.wasm", "/w/a.txt", "/w/a.bin", "/w/a.png",
        "/w/Makefile", "/w/", "",
    ] {
        let any = matchers.iter().any(|m| m.is_match(path));
        assert_eq!(is_candidate(&all, path), any, "{}", path);
    }
    assert!(is_candidate(&all, "/w/a.wasm"));
    assert!(!is_candidate(&all, "/w/a.png"));

    let (plain, _) = ModuleGlobs::default().build_type_matchers().unwrap();
    assert!(!is_candidate(&plain, "/w/a.wasm"));
}

#[test]
fn compiling_twice_classifies_alike() {
    let mut globs = ModuleGlobs::default();
    globs.data = globs_of(&["*.dat", "blob-?"]);
    let (all_a, first) = globs.build_type_matchers().unwrap();
    let (all_b, second) = globs.clone().build_type_matchers().unwrap();
    for path in ["/w/a.mjs", "/w/a.dat", "/w/blob-1", "/w/blob-12", "/w/a.bin", "/w/a.txt"] {
        for k in 0..5 {
            assert_eq!(first[k].is_match(path), second[k].is_match(path));
            assert_eq!(first[k].module_type(), second[k].module_type());
        }
        assert_eq!(is_candidate(&all_a, path), is_candidate(&all_b, path));
    }
    assert!(first[4].is_match("/w/blob-1"));
    assert!(!first[4].is_match("/w/blob-12"));
    assert!(!first[4].is_match("/w/a.bin"));
}

#[test]
fn glob_that_does_not_compile_is_named() {
    let mut globs = ModuleGlobs::default();
    globs.cjs = globs_of(&["*.js", "[a", "[b"]);
    globs.text = globs_of(&["{c"]);
    let err = globs.build_type_matchers().err().unwrap();
    match &err {
        AssetError::GlobSyntax { glob, message } => {
            assert_eq!(glob, &Some("[a".to_string()));
            assert!(!message.is_empty());
            assert_eq!(
                err.message(),
                format!("encountered error while parsing the glob \"[a\": {}", message)
            );
        }
        other => panic!("{:?}", other),
    }
}

#[test]
fn earlier_type_is_compiled_first() {
    let mut globs = ModuleGlobs::default();
    globs.data = globs_of(&["[d"]);
    globs.compiled_wasm = globs_of(&["[w"]);
    let err = globs.build_type_matchers().err().unwrap();
    assert!(matches!(err, AssetError::GlobSyntax { glob: Some(ref g), .. } if g == "[w"));

    globs.esm = globs_of(&["ok", "[e"]);
    let err = globs.build_type_matchers().err().unwrap();
    assert!(matches!(err, AssetError::GlobSyntax { glob: Some(ref g), .. } if g == "[e"));
}

#[test]
fn default_configuration_compiles() {
    let (all, matchers) = ModuleGlobs::default().build_type_matchers().unwrap();
    assert_eq!(matchers.len(), 5);
    assert!(is_candidate(&all, "/worker/dist/bar.js"));
}

#[test]
fn configured_list_leaves_the_default_globs_out() {
    let mut globs = ModuleGlobs::default();
    globs.cjs = globs_of(&["*.cjs"]);
    let (all, matchers) = globs.build_type_matchers().unwrap();
    assert_eq!(matchers[1].module_type(), ModuleType::CommonJS);
    assert!(!matchers[1].is_match("/worker/dist/bar.js"));
    assert!(!is_candidate(&all, "/worker/dist/bar.js"));
    assert!(matchers[1].is_match("/worker/dist/bar.cjs"));
    assert!(is_candidate(&all, "/worker/dist/bar.cjs"));
}

#[test]
fn empty_list_does_not_bring_the_defaults_back() {
    let mut globs = ModuleGlobs::default();
    globs.cjs = globs_of(&[]);
    let (all, matchers) = globs.build_type_matchers().unwrap();
    assert_eq!(matchers.len(), 5);
    assert_eq!(matchers[1].module_type(), ModuleType::CommonJS);
    assert!(!matchers[1].is_match("/worker/dist/bar.js"));
    assert!(!is_candidate(&all, "/worker/dist/bar.js"));
    assert!(matchers[0].is_match("/worker/dist/a.mjs"));
    assert!(is_candidate(&all, "/worker/dist/a.mjs"));
}

#[test]
fn every_glob_of_a_list_counts() {
    let mut globs = ModuleGlobs::default();
    globs.data = globs_of(&["*.one", "*.two", "*.three"]);
    let (all, matchers) = globs.build_type_matchers().unwrap();
    for path in ["/w/a.one", "/w/a.two", "/w/a.three"] {
        assert!(matchers[4].is_match(path));
        assert!(is_candidate(&all, path));
    }
    assert!(!matchers[4].is_match("/w/a.four"));
}

#[test]
fn unclosed_class_is_named_with_its_fault() {
    let mut globs = ModuleGlobs::default();
    globs.text = globs_of(&["["]);
    let err = globs.build_type_matchers().err().unwrap();
    assert!(matches!(err, AssetError::GlobSyntax { glob: Some(ref g), .. } if g == "["));
    assert!(err.message().starts_with("encountered error while parsing the glob \"[\": "));
    assert!(err.message().len() > "encountered error while parsing the glob \"[\": ".len());
}

#[test]
fn build_fails_exactly_on_a_glob_that_does_not_compile() {
    let valid: [&[&str]; 4] = [&[], &["*"], &["*.js", "a?c", "[ab]*"], &["{x,y}.z", "**/*.q"]];
    for list in valid {
        let mut globs = ModuleGlobs::default();
        globs.esm = globs_of(list);
        globs.compiled_wasm = globs_of(list);
        assert!(globs.build_type_matchers().is_ok());
    }
    let invalid: [&[&str]; 3] = [&["["], &["*.js", "{a"], &["[z-a]"]];
    for list in invalid {
        let mut globs = ModuleGlobs::default();
        globs.data = globs_of(list);
        assert!(globs.build_type_matchers().is_err());
    }
}
