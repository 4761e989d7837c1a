//! The kinds of module that a worker can be made of.

use vstd::prelude::*;

verus! {

/// The kind of a module. The order of the variants is the order in which the
/// kinds are tried and compared.
#[derive(Clone, Copy, Debug, PartialEq, Eq, PartialOrd, Ord, Hash, Structural)]
pub enum ModuleType {
    ESModule,
    CommonJS,
    CompiledWasm,
    Text,
    Data,
}

impl ModuleType {
    /// The kind at a place of the declaration order.
    pub open spec fn nth(k: int) -> ModuleType {
        if k <= 0 {
            ModuleType::ESModule
        } else if k == 1 {
            ModuleType::CommonJS
        } else if k == 2 {
            ModuleType::CompiledWasm
        } else if k == 3 {
            ModuleType::Text
        } else {
            ModuleType::Data
        }
    }

    /// Every kind, in declaration order.
    pub open spec fn order() -> Seq<ModuleType> {
        Seq::new(5, |k: int| Self::nth(k))
    }

    /// The place of a kind in the declaration order.
    pub open spec fn ordinal(self) -> int {
        match self {
            ModuleType::ESModule => 0,
            ModuleType::CommonJS => 1,
            ModuleType::CompiledWasm => 2,
            ModuleType::Text => 3,
            ModuleType::Data => 4,
        }
    }

    /// The content type that a module of this kind is presented with.
    pub open spec fn content_type_text(self) -> Seq<char> {
        match self {
            ModuleType::ESModule => "application/javascript+module"@,
            ModuleType::CommonJS => "application/javascript"@,
            ModuleType::CompiledWasm => "application/wasm"@,
            ModuleType::Text => "text/plain"@,
            ModuleType::Data => "application/octet-stream"@,
        }
    }

    /// The name under which the globs of this kind are registered with the
    /// glob matcher.
    pub open spec fn label_text(self) -> Seq<char> {
        match self {
            ModuleType::ESModule => "ESModule"@,
            ModuleType::CommonJS => "CommonJS"@,
            ModuleType::CompiledWasm => "CompiledWasm"@,
            ModuleType::Text => "Text"@,
            ModuleType::Data => "Data"@,
        }
    }

    /// The content type that a module of this kind is presented with.
    pub fn content_type(&self) -> (r: &str)
        ensures
            r@ == self.content_type_text(),
    {
        match self {
            ModuleType::ESModule => "application/javascript+module",
            ModuleType::CommonJS => "application/javascript",
            ModuleType::CompiledWasm => "application/wasm",
            ModuleType::Text => "text/plain",
            ModuleType::Data => "application/octet-stream",
        }
    }

    /// The name under which the globs of this kind are registered with the
    /// glob matcher.
    pub fn label(&self) -> (r: &'static str)
        ensures
            r@ == self.label_text(),
    {
        match self {
            ModuleType::ESModule => "ESModule",
            ModuleType::CommonJS => "CommonJS",
            ModuleType::CompiledWasm => "CompiledWasm",
            ModuleType::Text => "Text",
            ModuleType::Data => "Data",
        }
    }

    /// Every kind, in declaration order.
    pub fn declaration_order() -> (r: Vec<ModuleType>)
        ensures
            r@ == Self::order(),
    {
        vec![
            ModuleType::ESModule,
            ModuleType::CommonJS,
            ModuleType::CompiledWasm,
            ModuleType::Text,
            ModuleType::Data,
        ]
    }

    /// Whether this kind comes before another in declaration order.
    pub fn precedes(&self, other: &ModuleType) -> (r: bool)
        ensures
            r == (self.ordinal() < other.ordinal()),
    {
        self.rank() < other.rank()
    }

    /// The place of this kind in the declaration order.
    pub fn rank(&self) -> (r: u8)
        ensures
            r == self.ordinal(),
    {
        match self {
            ModuleType::ESModule => 0,
            ModuleType::CommonJS => 1,
            ModuleType::CompiledWasm => 2,
            ModuleType::Text => 3,
            ModuleType::Data => 4,
        }
    }
}

/// The declaration order lists every kind once, at the place of its ordinal.
pub proof fn lemma_order_is_complete(t: ModuleType)
    ensures
        0 <= t.ordinal() < ModuleType::order().len(),
        ModuleType::order()[t.ordinal()] == t,
        ModuleType::nth(t.ordinal()) == t,
{
}

} // verus!
