//! Bindings: the names under which a worker reaches its resources, and the
//! resources that can be bound.

use vstd::prelude::*;

verus! {

/// The kind of resource that a binding refers to.
#[derive(Debug, Clone, Copy, PartialEq, Eq, Hash, Structural)]
pub enum BindingKind {
    WasmModule,
    KvNamespace,
    DurableObjectsClass,
    TextBlob,
    PlainText,
}

/// A name that the worker's code uses, and the resource that it stands for.
#[derive(Debug, Clone, PartialEq, Eq)]
pub struct Binding {
    pub kind: BindingKind,
    pub name: String,
    pub resource: String,
}

/// What a [`Binding`] holds, with the strings as sequences of characters.
pub struct BindingView {
    pub kind: BindingKind,
    pub name: Seq<char>,
    pub resource: Seq<char>,
}

impl View for Binding {
    type V = BindingView;

    open spec fn view(&self) -> BindingView {
        BindingView { kind: self.kind, name: self.name@, resource: self.resource@ }
    }
}

/// The bindings of a list, each by its view.
pub open spec fn binding_views(bindings: Seq<Binding>) -> Seq<BindingView> {
    Seq::new(bindings.len(), |i: int| bindings[i]@)
}

/// A resource that a worker can be bound to.
pub trait ToBinding {
    /// The binding that stands for the resource.
    spec fn binding_view(&self) -> BindingView;

    /// Makes the binding that stands for the resource.
    fn binding(&self) -> (b: Binding)
        ensures
            b@ == self.binding_view(),
    ;
}

/// The bindings of a list of resources, in the order of the list.
pub open spec fn bindings_of<T: ToBinding>(resources: Seq<T>) -> Seq<BindingView> {
    Seq::new(resources.len(), |i: int| resources[i].binding_view())
}

/// A compiled WebAssembly module that is uploaded with the script.
#[derive(Debug, Clone, PartialEq, Eq)]
pub struct WasmModule {
    pub binding: String,
    pub path: String,
}

/// A namespace of the key-value store.
#[derive(Debug, Clone, PartialEq, Eq)]
pub struct KvNamespace {
    pub binding: String,
    pub id: String,
}

/// A class of durable objects.
#[derive(Debug, Clone, PartialEq, Eq)]
pub struct DurableObjectsClass {
    pub binding: String,
    pub class_name: String,
}

/// A blob of text that is uploaded with the script.
#[derive(Debug, Clone, PartialEq, Eq)]
pub struct TextBlob {
    pub binding: String,
    pub data: String,
}

/// A text that the binding itself holds.
#[derive(Debug, Clone, PartialEq, Eq)]
pub struct PlainText {
    pub binding: String,
    pub value: String,
}

/// How the storage of durable object classes is carried from one deployment
/// to the next. It is handed on as it is.
#[derive(Debug, Clone, PartialEq, Eq)]
pub struct ApiMigration {
    pub old_tag: Option<String>,
    pub new_tag: Option<String>,
}

impl ToBinding for WasmModule {
    open spec fn binding_view(&self) -> BindingView {
        BindingView { kind: BindingKind::WasmModule, name: self.binding@, resource: self.path@ }
    }

    fn binding(&self) -> (b: Binding) {
        Binding {
            kind: BindingKind::WasmModule,
            name: self.binding.clone(),
            resource: self.path.clone(),
        }
    }
}

impl ToBinding for KvNamespace {
    open spec fn binding_view(&self) -> BindingView {
        BindingView { kind: BindingKind::KvNamespace, name: self.binding@, resource: self.id@ }
    }

    fn binding(&self) -> (b: Binding) {
        Binding {
            kind: BindingKind::KvNamespace,
            name: self.binding.clone(),
            resource: self.id.clone(),
        }
    }
}

impl ToBinding for DurableObjectsClass {
    open spec fn binding_view(&self) -> BindingView {
        BindingView {
            kind: BindingKind::DurableObjectsClass,
            name: self.binding@,
            resource: self.class_name@,
        }
    }

    fn binding(&self) -> (b: Binding) {
        Binding {
            kind: BindingKind::DurableObjectsClass,
            name: self.binding.clone(),
            resource: self.class_name.clone(),
        }
    }
}

impl ToBinding for TextBlob {
    open spec fn binding_view(&self) -> BindingView {
        BindingView { kind: BindingKind::TextBlob, name: self.binding@, resource: self.data@ }
    }

    fn binding(&self) -> (b: Binding) {
        Binding {
            kind: BindingKind::TextBlob,
            name: self.binding.clone(),
            resource: self.data.clone(),
        }
    }
}

impl ToBinding for PlainText {
    open spec fn binding_view(&self) -> BindingView {
        BindingView { kind: BindingKind::PlainText, name: self.binding@, resource: self.value@ }
    }

    fn binding(&self) -> (b: Binding) {
        Binding {
            kind: BindingKind::PlainText,
            name: self.binding.clone(),
            resource: self.value.clone(),
        }
    }
}

/// Appends the binding of each resource, in the order of the list.
pub fn append_bindings<T: ToBinding>(bindings: &mut Vec<Binding>, resources: &Vec<T>)
    ensures
        binding_views(final(bindings)@) == binding_views(old(bindings)@) + bindings_of(resources@),
{
    let ghost before = binding_views(bindings@);
    let mut i: usize = 0;
    while i < resources.len()
        invariant
            0 <= i <= resources@.len(),
            binding_views(bindings@) == before + bindings_of(resources@.take(i as int)),
        decreases resources@.len() - i,
    {
        let ghost listed = binding_views(bindings@);
        let binding = resources[i].binding();
        let ghost added = binding@;
        bindings.push(binding);
        proof {
            assert(binding_views(bindings@) =~= listed.push(added));
        }
        i = i + 1;
    }
}

} // verus!
