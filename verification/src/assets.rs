//! What is uploaded for a worker: its script or modules, and its bindings.

use vstd::prelude::*;
use crate::binding::{
    append_bindings, binding_views, bindings_of, ApiMigration, Binding, BindingView,
    DurableObjectsClass, KvNamespace, PlainText, TextBlob, WasmModule,
};
use crate::error::{AssetError, AssetErrorView};
use crate::manifest::Module;
use crate::paths::{file_stem, path_file_stem};

verus! {

/// The assets of a worker that is a single script.
#[derive(Debug)]
pub struct ServiceWorkerAssets {
    script_name: String,
    script_path: String,
    pub wasm_modules: Vec<WasmModule>,
    pub kv_namespaces: Vec<KvNamespace>,
    pub durable_object_classes: Vec<DurableObjectsClass>,
    pub text_blobs: Vec<TextBlob>,
    pub plain_texts: Vec<PlainText>,
}

/// The name that a script of the given file stem goes by: the stem, which
/// must not be missing or empty.
pub open spec fn name_from_stem(stem: Option<Seq<char>>) -> Option<Seq<char>> {
    match stem {
        Some(name) => if name.len() > 0 {
            Some(name)
        } else {
            None
        },
        None => None,
    }
}

/// The bindings of a script with these resources: those of the WebAssembly
/// modules, then of the key-value namespaces, the durable object classes, the
/// text blobs and the plain texts, each list in its order.
pub open spec fn script_bindings(
    wasm_modules: Seq<WasmModule>,
    kv_namespaces: Seq<KvNamespace>,
    durable_object_classes: Seq<DurableObjectsClass>,
    text_blobs: Seq<TextBlob>,
    plain_texts: Seq<PlainText>,
) -> Seq<BindingView> {
    bindings_of(wasm_modules) + bindings_of(kv_namespaces) + bindings_of(durable_object_classes)
        + bindings_of(text_blobs) + bindings_of(plain_texts)
}

impl ServiceWorkerAssets {
    /// The name of the script.
    pub closed spec fn name_text(self) -> Seq<char> {
        self.script_name@
    }

    /// The path of the script.
    pub closed spec fn path_text(self) -> Seq<char> {
        self.script_path@
    }

    /// Whether the assets hold these resources, list by list.
    pub closed spec fn holds(
        self,
        wasm_modules: Vec<WasmModule>,
        kv_namespaces: Vec<KvNamespace>,
        durable_object_classes: Vec<DurableObjectsClass>,
        text_blobs: Vec<TextBlob>,
        plain_texts: Vec<PlainText>,
    ) -> bool {
        &&& self.wasm_modules == wasm_modules
        &&& self.kv_namespaces == kv_namespaces
        &&& self.durable_object_classes == durable_object_classes
        &&& self.text_blobs == text_blobs
        &&& self.plain_texts == plain_texts
    }

    /// The bindings of the assets: the [`script_bindings`] of the resources
    /// that they hold.
    pub closed spec fn bindings_view(self) -> Seq<BindingView> {
        script_bindings(
            self.wasm_modules@,
            self.kv_namespaces@,
            self.durable_object_classes@,
            self.text_blobs@,
            self.plain_texts@,
        )
    }

    /// The assets of the script at `script_path`, named by the file stem of
    /// the path. Fails where the path has no file stem, or an empty one.
    pub fn new(
        script_path: String,
        wasm_modules: Vec<WasmModule>,
        kv_namespaces: Vec<KvNamespace>,
        durable_object_classes: Vec<DurableObjectsClass>,
        text_blobs: Vec<TextBlob>,
        plain_texts: Vec<PlainText>,
    ) -> (r: Result<Self, AssetError>)
        ensures
            match r {
                Ok(assets) => {
                    &&& name_from_stem(path_file_stem(script_path@)) == Some(assets.name_text())
                    &&& assets.path_text() == script_path@
                    &&& assets.holds(
                        wasm_modules,
                        kv_namespaces,
                        durable_object_classes,
                        text_blobs,
                        plain_texts,
                    )
                    &&& assets.bindings_view() == script_bindings(
                        wasm_modules@,
                        kv_namespaces@,
                        durable_object_classes@,
                        text_blobs@,
                        plain_texts@,
                    )
                },
                Err(e) => {
                    &&& name_from_stem(path_file_stem(script_path@)) is None
                    &&& e@ == (AssetErrorView::EmptyFilename { path: script_path@ })
                },
            },
    {
        let stem = file_stem(script_path.as_str());
        Self::with_stem(
            stem,
            script_path,
            wasm_modules,
            kv_namespaces,
            durable_object_classes,
            text_blobs,
            plain_texts,
        )
    }

    /// The assets of the script at `script_path`, whose file stem is `stem`.
    /// Fails where the stem is missing or empty.
    pub fn with_stem(
        stem: Option<String>,
        script_path: String,
        wasm_modules: Vec<WasmModule>,
        kv_namespaces: Vec<KvNamespace>,
        durable_object_classes: Vec<DurableObjectsClass>,
        text_blobs: Vec<TextBlob>,
        plain_texts: Vec<PlainText>,
    ) -> (r: Result<Self, AssetError>)
        ensures
            match r {
                Ok(assets) => {
                    &&& stem is Some
                    &&& stem->Some_0@.len() > 0
                    &&& assets.name_text() == stem->Some_0@
                    &&& assets.path_text() == script_path@
                    &&& assets.holds(
                        wasm_modules,
                        kv_namespaces,
                        durable_object_classes,
                        text_blobs,
                        plain_texts,
                    )
                    &&& assets.bindings_view() == script_bindings(
                        wasm_modules@,
                        kv_namespaces@,
                        durable_object_classes@,
                        text_blobs@,
                        plain_texts@,
                    )
                },
                Err(e) => {
                    &&& stem is None || stem->Some_0@.len() == 0
                    &&& e@ == (AssetErrorView::EmptyFilename { path: script_path@ })
                },
            },
    {
        match stem {
            Some(script_name) => {
                if script_name.as_str().unicode_len() == 0 {
                    Err(AssetError::EmptyFilename { path: script_path })
                } else {
                    Ok(
                        ServiceWorkerAssets {
                            script_name,
                            script_path,
                            wasm_modules,
                            kv_namespaces,
                            durable_object_classes,
                            text_blobs,
                            plain_texts,
                        },
                    )
                }
            },
            None => Err(AssetError::EmptyFilename { path: script_path }),
        }
    }

    /// The bindings of the resources: those of the WebAssembly modules, then
    /// of the key-value namespaces, the durable object classes, the text blobs
    /// and the plain texts.
    pub fn bindings(&self) -> (r: Vec<Binding>)
        ensures
            binding_views(r@) == self.bindings_view(),
    {
        let mut bindings: Vec<Binding> = Vec::new();
        append_bindings(&mut bindings, &self.wasm_modules);
        append_bindings(&mut bindings, &self.kv_namespaces);
        append_bindings(&mut bindings, &self.durable_object_classes);
        append_bindings(&mut bindings, &self.text_blobs);
        append_bindings(&mut bindings, &self.plain_texts);
        bindings
    }

    /// The name of the script.
    pub fn script_name(&self) -> (r: String)
        ensures
            r@ == self.name_text(),
    {
        self.script_name.clone()
    }

    /// The path of the script.
    pub fn script_path(&self) -> (r: String)
        ensures
            r@ == self.path_text(),
    {
        self.script_path.clone()
    }
}

/// The assets of a worker that is made of modules.
#[derive(Debug)]
pub struct ModulesAssets {
    pub main_module: String,
    pub modules: Vec<Module>,
    pub kv_namespaces: Vec<KvNamespace>,
    pub durable_object_classes: Vec<DurableObjectsClass>,
    pub migration: Option<ApiMigration>,
    pub plain_texts: Vec<PlainText>,
}

impl ModulesAssets {
    /// The bindings of the assets: those of the key-value namespaces, then of
    /// the durable object classes and the plain texts. What a script binds as
    /// a part of the upload is a module here, and has no binding.
    pub open spec fn bindings_view(self) -> Seq<BindingView> {
        bindings_of(self.kv_namespaces@) + bindings_of(self.durable_object_classes@) + bindings_of(
            self.plain_texts@,
        )
    }

    /// The assets made of these parts. This never fails.
    pub fn new(
        main_module: String,
        modules: Vec<Module>,
        kv_namespaces: Vec<KvNamespace>,
        durable_object_classes: Vec<DurableObjectsClass>,
        migration: Option<ApiMigration>,
        plain_texts: Vec<PlainText>,
    ) -> (r: Result<Self, AssetError>)
        ensures
            r is Ok,
            r->Ok_0.main_module == main_module,
            r->Ok_0.modules == modules,
            r->Ok_0.kv_namespaces == kv_namespaces,
            r->Ok_0.durable_object_classes == durable_object_classes,
            r->Ok_0.migration == migration,
            r->Ok_0.plain_texts == plain_texts,
    {
        Ok(
            ModulesAssets {
                main_module,
                modules,
                kv_namespaces,
                durable_object_classes,
                migration,
                plain_texts,
            },
        )
    }

    /// The bindings of the resources: those of the key-value namespaces, then
    /// of the durable object classes and the plain texts.
    pub fn bindings(&self) -> (r: Vec<Binding>)
        ensures
            binding_views(r@) == self.bindings_view(),
    {
        let mut bindings: Vec<Binding> = Vec::new();
        append_bindings(&mut bindings, &self.kv_namespaces);
        append_bindings(&mut bindings, &self.durable_object_classes);
        append_bindings(&mut bindings, &self.plain_texts);
        bindings
    }
}

} // verus!
