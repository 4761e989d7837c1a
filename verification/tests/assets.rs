use project_assets::assets::{ModulesAssets, ServiceWorkerAssets};
use project_assets::binding::{
    append_bindings, ApiMigration, Binding, BindingKind, DurableObjectsClass, KvNamespace,
    PlainText, TextBlob, ToBinding, WasmModule,
};
use project_assets::error::AssetError;
use project_assets::manifest::Module;
use project_assets::module_type::ModuleType;

fn bound(kind: BindingKind, name: &str, resource: &str) -> Binding {
    Binding { kind, name: name.to_string(), resource: resource.to_string() }
}

fn wasm(binding: &str, path: &str) -> WasmModule {
    WasmModule { binding: binding.to_string(), path: path.to_string() }
}

fn kv(binding: &str, id: &str) -> KvNamespace {
    KvNamespace { binding: binding.to_string(), id: id.to_string() }
}

fn class(binding: &str, class_name: &str) -> DurableObjectsClass {
    DurableObjectsClass { binding: binding.to_string(), class_name: class_name.to_string() }
}

fn blob(binding: &str, data: &str) -> TextBlob {
    TextBlob { binding: binding.to_string(), data: data.to_string() }
}

fn plain(binding: &str, value: &str) -> PlainText {
    PlainText { binding: binding.to_string(), value: value.to_string() }
}

#[test]
fn content_type_of_each_module_type() {
    assert_eq!(ModuleType::ESModule.content_type(), "application/javascript+module");
    assert_eq!(ModuleType::CommonJS.content_type(), "application/javascript");
    assert_eq!(ModuleType::CompiledWasm.content_type(), "application/wasm");
    assert_eq!(ModuleType::Text.content_type(), "text/plain");
    assert_eq!(ModuleType::Data.content_type(), "application/octet-stream");
}

#[test]
fn module_types_are_ordered_as_declared() {
    let order = [
        ModuleType::ESModule,
        ModuleType::CommonJS,
        ModuleType::CompiledWasm,
        ModuleType::Text,
        ModuleType::Data,
    ];
    assert_eq!(ModuleType::declaration_order(), order.to_vec());
    for (k, t) in order.iter().enumerate() {
        assert_eq!(t.rank() as usize, k);
        for (j, u) in order.iter().enumerate() {
            assert_eq!(t.precedes(u), k < j);
            assert_eq!(t < u, k < j);
        }
    }
    let mut shuffled = vec![ModuleType::Data, ModuleType::ESModule, ModuleType::Text];
    shuffled.sort();
    assert_eq!(shuffled, vec![ModuleType::ESModule, ModuleType::Text, ModuleType::Data]);
}

#[test]
fn labels_of_the_module_types() {
    assert_eq!(ModuleType::ESModule.label(), "ESModule");
    assert_eq!(ModuleType::CommonJS.label(), "CommonJS");
    assert_eq!(ModuleType::CompiledWasm.label(), "CompiledWasm");
    assert_eq!(ModuleType::Text.label(), "Text");
    assert_eq!(ModuleType::Data.label(), "Data");
}

#[test]
fn binding_of_each_resource() {
    assert_eq!(wasm("W", "w.wasm").binding(), bound(BindingKind::WasmModule, "W", "w.wasm"));
    assert_eq!(kv("KV", "0123abcd").binding(), bound(BindingKind::KvNamespace, "KV", "0123abcd"));
    assert_eq!(
        class("ROOM", "ChatRoom").binding(),
        bound(BindingKind::DurableObjectsClass, "ROOM", "ChatRoom")
    );
    assert_eq!(blob("B", "lorem").binding(), bound(BindingKind::TextBlob, "B", "lorem"));
    assert_eq!(plain("P", "ipsum").binding(), bound(BindingKind::PlainText, "P", "ipsum"));
}

#[test]
fn append_bindings_keeps_what_is_there() {
    let mut bindings = vec![bound(BindingKind::PlainText, "first", "1")];
    append_bindings(&mut bindings, &vec![kv("A", "a"), kv("B", "b")]);
    append_bindings(&mut bindings, &Vec::<TextBlob>::new());
    assert_eq!(
        bindings,
        vec![
            bound(BindingKind::PlainText, "first", "1"),
            bound(BindingKind::KvNamespace, "A", "a"),
            bound(BindingKind::KvNamespace, "B", "b"),
        ]
    );
}

#[test]
fn script_bindings_come_in_fixed_order() {
    let assets = ServiceWorkerAssets::new(
        "/worker/dist/index.js".to_string(),
        vec![wasm("W1", "one.wasm"), wasm("W2", "two.wasm")],
        vec![kv("KV", "id")],
        vec![class("DO", "Counter")],
        vec![blob("BLOB", "data")],
        vec![plain("T1", "x"), plain("T2", "y")],
    )
    .unwrap();
    assert_eq!(
        assets.bindings(),
        vec![
            bound(BindingKind::WasmModule, "W1", "one.wasm"),
            bound(BindingKind::WasmModule, "W2", "two.wasm"),
            bound(BindingKind::KvNamespace, "KV", "id"),
            bound(BindingKind::DurableObjectsClass, "DO", "Counter"),
            bound(BindingKind::TextBlob, "BLOB", "data"),
            bound(BindingKind::PlainText, "T1", "x"),
            bound(BindingKind::PlainText, "T2", "y"),
        ]
    );
    assert_eq!(assets.wasm_modules.len(), 2);
    assert_eq!(assets.plain_texts, vec![plain("T1", "x"), plain("T2", "y")]);
}

#[test]
fn script_is_named_by_its_file_stem() {
    let assets = ServiceWorkerAssets::new(
        "/worker/dist/index.js".to_string(),
        vec![],
        vec![],
        vec![],
        vec![],
        vec![],
    )
    .unwrap();
    assert_eq!(assets.script_name(), "index");
    assert_eq!(assets.script_path(), "/worker/dist/index.js");
    assert!(assets.bindings().is_empty());

    let assets =
        ServiceWorkerAssets::new("worker".to_string(), vec![], vec![], vec![], vec![], vec![])
            .unwrap();
    assert_eq!(assets.script_name(), "worker");

    let assets =
        ServiceWorkerAssets::new("a/b.min.js".to_string(), vec![], vec![], vec![], vec![], vec![])
            .unwrap();
    assert_eq!(assets.script_name(), "b.min");
}

#[test]
fn script_without_file_stem_is_refused() {
    for path in ["", "/", "..", "/worker/dist/.."] {
        let err =
            ServiceWorkerAssets::new(path.to_string(), vec![], vec![], vec![], vec![], vec![])
                .err()
                .unwrap();
        assert_eq!(err, AssetError::EmptyFilename { path: path.to_string() });
        assert_eq!(err.message(), format!("filename should not be empty: {}", path));
    }
}

#[test]
fn with_stem_takes_the_stem_as_given() {
    let assets = ServiceWorkerAssets::with_stem(
        Some("given".to_string()),
        "/somewhere/else.js".to_string(),
        vec![],
        vec![kv("KV", "id")],
        vec![],
        vec![],
        vec![],
    )
    .unwrap();
    assert_eq!(assets.script_name(), "given");
    assert_eq!(assets.script_path(), "/somewhere/else.js");
    assert_eq!(assets.bindings(), vec![bound(BindingKind::KvNamespace, "KV", "id")]);

    let err = ServiceWorkerAssets::with_stem(
        Some(String::new()),
        "/p.js".to_string(),
        vec![],
        vec![],
        vec![],
        vec![],
        vec![],
    )
    .err()
    .unwrap();
    assert_eq!(err, AssetError::EmptyFilename { path: "/p.js".to_string() });

    let err = ServiceWorkerAssets::with_stem(
        None,
        "/q.js".to_string(),
        vec![],
        vec![],
        vec![],
        vec![],
        vec![],
    )
    .err()
    .unwrap();
    assert_eq!(err, AssetError::EmptyFilename { path: "/q.js".to_string() });
}

#[test]
fn modules_assets_hold_what_they_are_given() {
    let modules = vec![Module {
        name: "./index.mjs".to_string(),
        path: "/worker/dist/index.mjs".to_string(),
        module_type: ModuleType::ESModule,
    }];
    let migration =
        Some(ApiMigration { old_tag: Some("v1".to_string()), new_tag: Some("v2".to_string()) });
    let assets = ModulesAssets::new(
        "./index.mjs".to_string(),
        modules.clone(),
        vec![kv("KV1", "a"), kv("KV2", "b")],
        vec![class("DO", "Counter")],
        migration.clone(),
        vec![plain("T", "text")],
    )
    .unwrap();
    assert_eq!(assets.main_module, "./index.mjs");
    assert_eq!(assets.modules, modules);
    assert_eq!(assets.migration, migration);
    assert_eq!(
        assets.bindings(),
        vec![
            bound(BindingKind::KvNamespace, "KV1", "a"),
            bound(BindingKind::KvNamespace, "KV2", "b"),
            bound(BindingKind::DurableObjectsClass, "DO", "Counter"),
            bound(BindingKind::PlainText, "T", "text"),
        ]
    );
}

#[test]
fn modules_assets_without_resources_have_no_bindings() {
    let assets =
        ModulesAssets::new("./m.mjs".to_string(), vec![], vec![], vec![], None, vec![]).unwrap();
    assert!(assets.bindings().is_empty());
    assert_eq!(assets.migration, None);
}

#[test]
fn messages_of_the_errors() {
    assert_eq!(
        AssetError::GlobSyntax { glob: Some("[x".to_string()), message: "bad".to_string() }
            .message(),
        "encountered error while parsing the glob \"[x\": bad"
    );
    assert_eq!(
        AssetError::GlobSyntax { glob: None, message: "too big".to_string() }.message(),
        "encountered error while parsing globs: too big"
    );
    assert_eq!(
        AssetError::MultipleTypes { path: "/w/a.js".to_string() }.message(),
        "The module at /w/a.js matched multiple module type globs."
    );
    assert_eq!(
        AssetError::EmptyFilename { path: "/".to_string() }.message(),
        "filename should not be empty: /"
    );
    assert_eq!(AssetError::NotUnderRoot { path: "/x".to_string() }.message(), "prefix not found");
}
