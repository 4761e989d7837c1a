//! The glob configuration of a worker, and the matchers compiled from it.

use vstd::prelude::*;
use vstd::string::*;
use crate::error::{AssetError, AssetErrorView};
use crate::matching::{
    all_compile, all_defined, all_types, builder_add, builder_build, builder_new, builder_select,
    builder_selected, builder_types, first_bad_of, glob_error, glob_matches, glob_set_error,
    globs_under, handed, negation_free, no_types, none_selected, plain_type_name, selected_after,
    selected_globs, types_globs, types_whitelists,
};
use crate::module_type::{lemma_order_is_complete, ModuleType};
use ignore::types::{Types, TypesBuilder};

verus! {

/// The strings of a list, each as a sequence of characters.
pub open spec fn texts(list: Seq<String>) -> Seq<Seq<char>> {
    Seq::new(list.len(), |i: int| list[i]@)
}

/// The globs by which files are assigned a module type: one list per type. A
/// type without a list has the globs that [`ModuleGlobs::default_globs`] gives.
#[derive(Clone, Debug, PartialEq)]
pub struct ModuleGlobs {
    pub esm: Option<Vec<String>>,
    pub cjs: Option<Vec<String>>,
    pub text: Option<Vec<String>>,
    pub data: Option<Vec<String>>,
    pub compiled_wasm: Option<Vec<String>>,
}

impl Default for ModuleGlobs {
    fn default() -> (r: ModuleGlobs)
        ensures
            forall|t: ModuleType| r.configured(t) is None,
    {
        ModuleGlobs { esm: None, cjs: None, text: None, data: None, compiled_wasm: None }
    }
}

/// A compiled matcher for the globs of one module type.
pub struct ModuleMatcher {
    matcher: Types,
    module_type: ModuleType,
}

impl ModuleMatcher {
    #[verifier::type_invariant]
    spec fn selects_only(self) -> bool {
        negation_free(types_globs(self.matcher))
    }

    /// The globs that the matcher was compiled from.
    pub closed spec fn globs(self) -> Set<Seq<char>> {
        Set::new(|glob: Seq<char>| types_globs(self.matcher).contains((glob, false)))
    }

    /// The module type that the matcher assigns.
    pub closed spec fn kind(self) -> ModuleType {
        self.module_type
    }

    /// Whether the matcher accepts the file at `path`: one of its globs matches
    /// the file name.
    pub open spec fn accepts(self, path: Seq<char>) -> bool {
        exists|glob: Seq<char>| #[trigger] self.globs().contains(glob) && glob_matches(glob, path)
    }

    /// The module type that the matcher assigns.
    pub fn module_type(&self) -> (r: ModuleType)
        ensures
            r == self.kind(),
    {
        self.module_type
    }

    /// Tells whether the matcher accepts the file at `path`.
    pub fn is_match(&self, path: &str) -> (r: bool)
        ensures
            r == self.accepts(path@),
    {
        proof {
            use_type_invariant(self);
        }
        let r = types_whitelists(&self.matcher, path);
        proof {
            if r {
                let glob = choose|glob: Seq<char>| #[trigger]
                    types_globs(self.matcher).contains((glob, false)) && glob_matches(glob, path@);
                assert(self.globs().contains(glob));
            }
        }
        r
    }
}

/// Whether the file at `path` passes a combined matcher: one of the globs of a
/// selection that does not negate matches its file name.
pub open spec fn shortlisted(all: Types, path: Seq<char>) -> bool {
    exists|glob: Seq<char>| #[trigger]
        types_globs(all).contains((glob, false)) && glob_matches(glob, path)
}

/// Tells whether the combined matcher of a configuration lets the file at
/// `path` through as a candidate.
pub fn is_candidate(all: &Types, path: &str) -> (r: bool)
    ensures
        negation_free(types_globs(*all)) ==> r == shortlisted(*all, path@),
{
    types_whitelists(all, path)
}

impl ModuleGlobs {
    /// The list that the configuration holds for a module type.
    pub open spec fn configured(self, t: ModuleType) -> Option<Vec<String>> {
        match t {
            ModuleType::ESModule => self.esm,
            ModuleType::CommonJS => self.cjs,
            ModuleType::CompiledWasm => self.compiled_wasm,
            ModuleType::Text => self.text,
            ModuleType::Data => self.data,
        }
    }

    /// The globs of a module type that has no list of its own. Compiled
    /// WebAssembly has none: it is matched only where it is configured.
    pub open spec fn default_globs(t: ModuleType) -> Seq<Seq<char>> {
        match t {
            ModuleType::ESModule => seq!["*.mjs"@],
            ModuleType::CommonJS => seq!["*.js"@, "*.cjs"@],
            ModuleType::CompiledWasm => seq![],
            ModuleType::Text => seq!["*.txt"@],
            ModuleType::Data => seq!["*.bin"@],
        }
    }

    /// The globs in force for a module type: its list, or the default.
    pub open spec fn effective(self, t: ModuleType) -> Seq<Seq<char>> {
        match self.configured(t) {
            Some(list) => texts(list@),
            None => Self::default_globs(t),
        }
    }

    /// Whether every glob in force for the module type compiles.
    pub open spec fn compiles(self, t: ModuleType) -> bool {
        all_compile(self.effective(t))
    }

    /// Whether the globs in force for every module type compile.
    pub open spec fn compiles_all(self) -> bool {
        forall|k: int| 0 <= k < 5 ==> self.compiles(#[trigger] ModuleType::nth(k))
    }

    /// The globs in force for the first `k` module types, in declaration
    /// order.
    pub open spec fn combined_upto(self, k: int) -> Seq<Seq<char>>
        decreases k,
    {
        if k <= 0 {
            Seq::empty()
        } else {
            self.combined_upto(k - 1) + self.effective(ModuleType::nth(k - 1))
        }
    }

    /// The globs of the combined matcher: those in force for every module
    /// type, in declaration order.
    pub open spec fn combined(self) -> Seq<Seq<char>> {
        self.combined_upto(5)
    }

    /// What is wrong with the set of globs that is compiled at place `k`: the
    /// globs in force for the module type at that place or, at place 5, the
    /// globs of the combined matcher.
    pub open spec fn set_fault_at(self, k: int) -> Option<Seq<char>> {
        if k < 5 {
            set_fault(self.effective(ModuleType::nth(k)))
        } else {
            set_fault(self.combined())
        }
    }

    /// What is wrong with the first set of globs, from place `k` on, that
    /// does not compile.
    pub open spec fn set_fault_from(self, k: int) -> Option<Seq<char>>
        decreases 6 - k,
    {
        if k > 5 {
            None
        } else {
            match self.set_fault_at(k) {
                Some(message) => Some(message),
                None => self.set_fault_from(k + 1),
            }
        }
    }

    /// What is wrong with the first set of globs that does not compile, the
    /// module types taken in declaration order and the combined matcher last;
    /// `None` where every set compiles.
    pub open spec fn first_set_fault(self) -> Option<Seq<char>> {
        self.set_fault_from(0)
    }

    /// Whether all is well with the module types before place `k`: the globs
    /// in force for each of them compile, each on its own and as a set.
    pub open spec fn sound_before(self, k: int) -> bool {
        forall|j: int|
            0 <= j < k ==> self.compiles(ModuleType::nth(j)) && (#[trigger] self.set_fault_at(j))
                is None
    }

    /// Whether `glob` is the first glob in force that does not compile, the
    /// module types taken in declaration order and the globs of each in the
    /// order of its list, and `message` says what is wrong with it. All is
    /// well with the module types before the one that the glob belongs to.
    pub open spec fn first_bad(self, glob: Seq<char>, message: Seq<char>) -> bool {
        exists|k: int|
            {
                &&& 0 <= k < 5
                &&& #[trigger] first_bad_of(self.effective(ModuleType::nth(k)), glob, message)
                &&& self.sound_before(k)
            }
    }

    /// Whether the set of globs at place `k` is where compiling fails, with
    /// `message` as what is wrong with it: all is well with the module types
    /// before it, and its globs compile each on its own.
    pub open spec fn set_fails_at(self, k: int, message: Seq<char>) -> bool {
        &&& 0 <= k <= 5
        &&& self.sound_before(k)
        &&& k < 5 ==> self.compiles(ModuleType::nth(k))
        &&& self.set_fault_at(k) == Some(message)
    }

    /// Whether `glob` is in force for the module type at place `k`.
    pub open spec fn in_force(self, k: int, glob: Seq<char>) -> bool {
        0 <= k < 5 && self.effective(ModuleType::nth(k)).contains(glob)
    }

    /// Whether `m` is the matcher of the module type `t`: it assigns `t` and
    /// holds the globs in force for `t`, all of which compile.
    pub open spec fn matcher_for(self, m: ModuleMatcher, t: ModuleType) -> bool {
        &&& m.kind() == t
        &&& m.globs() == self.effective(t).to_set()
        &&& self.compiles(t)
    }

    /// Whether `all` and `matchers` are what the configuration compiles to: one
    /// matcher per module type, in declaration order, and a combined matcher
    /// that holds the globs in force for any type.
    pub open spec fn compiles_to(self, all: Types, matchers: Seq<ModuleMatcher>) -> bool {
        &&& matchers.len() == 5
        &&& forall|k: int|
            0 <= k < 5 ==> self.matcher_for(#[trigger] matchers[k], ModuleType::nth(k))
        &&& negation_free(types_globs(all))
        &&& forall|glob: Seq<char>| #[trigger]
            types_globs(all).contains((glob, false)) <==> exists|k: int| #[trigger]
                self.in_force(k, glob)
    }

    /// The list that the configuration holds for a module type.
    pub fn list_of(&self, t: ModuleType) -> (r: &Option<Vec<String>>)
        ensures
            *r == self.configured(t),
    {
        match t {
            ModuleType::ESModule => &self.esm,
            ModuleType::CommonJS => &self.cjs,
            ModuleType::CompiledWasm => &self.compiled_wasm,
            ModuleType::Text => &self.text,
            ModuleType::Data => &self.data,
        }
    }

    /// The globs of a module type that has no list of its own.
    pub fn defaults(t: ModuleType) -> (r: Vec<String>)
        ensures
            texts(r@) == Self::default_globs(t),
    {
        let mut globs: Vec<String> = Vec::new();
        match t {
            ModuleType::ESModule => {
                globs.push(String::from_str("*.mjs"));
            },
            ModuleType::CommonJS => {
                globs.push(String::from_str("*.js"));
                globs.push(String::from_str("*.cjs"));
            },
            ModuleType::CompiledWasm => {},
            ModuleType::Text => {
                globs.push(String::from_str("*.txt"));
            },
            ModuleType::Data => {
                globs.push(String::from_str("*.bin"));
            },
        }
        globs
    }
}

/// What is wrong with a list of globs as a set: nothing where the list is
/// empty, else what the matcher makes of them.
pub open spec fn set_fault(globs: Seq<Seq<char>>) -> Option<Seq<char>> {
    if globs.len() == 0 {
        None
    } else {
        glob_set_error(globs)
    }
}

/// The definitions of a builder once `globs` are added under `label`.
spec fn with_globs(
    types: Map<Seq<char>, Seq<Seq<char>>>,
    label: Seq<char>,
    globs: Seq<Seq<char>>,
) -> Map<Seq<char>, Seq<Seq<char>>> {
    if globs.len() == 0 {
        types
    } else {
        types.insert(label, globs)
    }
}

/// The selections of a builder once the type `label`, with these globs, is
/// selected if it has any.
spec fn with_choice(
    selected: Seq<(Seq<char>, bool)>,
    label: Seq<char>,
    globs: Seq<Seq<char>>,
) -> Seq<(Seq<char>, bool)> {
    if globs.len() == 0 {
        selected
    } else {
        selected.push((label, false))
    }
}

/// A builder that holds the globs of one type, and has every type selected,
/// hands on those globs and no other.
proof fn lemma_one_type(label: Seq<char>, list: Seq<Seq<char>>, selected: Seq<(Seq<char>, bool)>)
    requires
        label != all_types(),
        selected_after(
            none_selected(),
            with_globs(no_types(), label, list),
            all_types(),
            selected,
        ),
    ensures
        selected == with_choice(none_selected(), label, list),
        all_defined(with_globs(no_types(), label, list), selected),
        handed(with_globs(no_types(), label, list), selected) == list,
        negation_free(selected_globs(with_globs(no_types(), label, list), selected)),
        forall|glob: Seq<char>| #[trigger]
            selected_globs(with_globs(no_types(), label, list), selected).contains((glob, false))
                <==> list.contains(glob),
{
    let types = with_globs(no_types(), label, list);
    let members = Set::new(|s: (Seq<char>, bool)| types.dom().contains(s.0) && !s.1);
    assert(selected.skip(0) =~= selected);
    assert forall|i: int| 0 <= i < selected.len() implies selected[i] == (label, false)
        && list.len() > 0 by {
        assert(selected.contains(selected[i]));
        assert(members.contains(selected[i]));
    }
    if list.len() > 0 {
        assert(members.contains((label, false)));
        assert(selected.contains((label, false)));
        if selected.len() > 1 {
            assert(selected[0] == selected[1]);
        }
        assert(selected =~= seq![(label, false)]);
        assert(selected.drop_last() =~= Seq::<(Seq<char>, bool)>::empty());
        assert(handed(types, selected.drop_last()) =~= Seq::<Seq<char>>::empty());
        assert(handed(types, selected) =~= list);
        assert forall|glob: Seq<char>| list.contains(glob) implies #[trigger] selected_globs(
            types,
            selected,
        ).contains((glob, false)) by {
            assert(selected[0] == (label, false));
        }
    } else {
        if selected.len() > 0 {
            assert(selected.contains(selected[0]));
            assert(members.contains(selected[0]));
        }
        assert(handed(types, selected) =~= list);
    }
}

/// Registers the globs of one module type with the combined builder, where
/// the type is selected if it has any glob, and compiles them into a matcher
/// of their own.
fn compile_type(all_builder: &mut TypesBuilder, t: ModuleType, globs: &Vec<String>) -> (r: Result<
    ModuleMatcher,
    AssetError,
>)
    requires
        !builder_types(*old(all_builder)).dom().contains(t.label_text()),
    ensures
        builder_selected(*final(all_builder)) == with_choice(
            builder_selected(*old(all_builder)),
            t.label_text(),
            texts(globs@),
        ),
        builder_types(*final(all_builder)) == with_globs(
            builder_types(*old(all_builder)),
            t.label_text(),
            texts(globs@),
        ),
        match r {
            Ok(m) => {
                &&& m.kind() == t
                &&& m.globs() == texts(globs@).to_set()
                &&& all_compile(texts(globs@))
                &&& set_fault(texts(globs@)) is None
            },
            Err(e) => match e@ {
                AssetErrorView::GlobSyntax { glob: Some(glob), message } => first_bad_of(
                    texts(globs@),
                    glob,
                    message,
                ),
                AssetErrorView::GlobSyntax { glob: None, message } => {
                    &&& all_compile(texts(globs@))
                    &&& set_fault(texts(globs@)) == Some(message)
                },
                _ => false,
            },
        },
{
    let ghost before = builder_types(*all_builder);
    let ghost chosen = builder_selected(*all_builder);
    let ghost label = t.label_text();
    let ghost list = texts(globs@);
    let mut builder = builder_new();
    let mut i: usize = 0;
    proof {
        lemma_labels(t, t);
    }
    while i < globs.len()
        invariant
            0 <= i <= globs@.len(),
            label == t.label_text(),
            list == texts(globs@),
            plain_type_name(label),
            !before.dom().contains(label),
            builder_selected(builder) == none_selected(),
            builder_selected(*all_builder) == chosen,
            builder_types(builder) == with_globs(no_types(), label, list.take(i as int)),
            builder_types(*all_builder) == with_globs(before, label, list.take(i as int)),
        decreases globs@.len() - i,
    {
        let ghost so_far = list.take(i as int);
        builder_add(all_builder, t.label(), globs[i].as_str());
        builder_add(&mut builder, t.label(), globs[i].as_str());
        proof {
            let next = list.take(i + 1);
            assert(so_far.push(list[i as int]) =~= next);
            assert(globs_under(with_globs(no_types(), label, so_far), label) =~= so_far);
        }
        i = i + 1;
    }
    proof {
        assert(list.take(i as int) =~= list);
        reveal_strlit("all");
        assert("all"@ =~= all_types());
    }
    // The combined builder selects each type by its label, so that its
    // selections stand in declaration order: `all` would take them in the
    // order of a hash map. A type without globs has no definition to select.
    if globs.len() > 0 {
        builder_select(all_builder, t.label());
    }
    builder_select(&mut builder, "all");
    proof {
        lemma_one_type(label, list, builder_selected(builder));
    }
    match builder_build(&builder) {
        Ok(matcher) => {
            proof {
                assert(negation_free(types_globs(matcher)));
            }
            let m = ModuleMatcher { matcher, module_type: t };
            proof {
                assert(m.globs() =~= list.to_set());
            }
            Ok(m)
        },
        Err(e) => Err(e),
    }
}

impl ModuleGlobs {
    /// The definitions that the combined builder holds once the globs of the
    /// first `k` module types are registered.
    spec fn registered(self, k: int) -> Map<Seq<char>, Seq<Seq<char>>>
        decreases k,
    {
        if k <= 0 {
            no_types()
        } else {
            with_globs(
                self.registered(k - 1),
                ModuleType::nth(k - 1).label_text(),
                self.effective(ModuleType::nth(k - 1)),
            )
        }
    }

    /// The selections that the combined builder holds once the first `k`
    /// module types are registered: those of them that have globs, in
    /// declaration order.
    spec fn chosen(self, k: int) -> Seq<(Seq<char>, bool)>
        decreases k,
    {
        if k <= 0 {
            none_selected()
        } else {
            with_choice(
                self.chosen(k - 1),
                ModuleType::nth(k - 1).label_text(),
                self.effective(ModuleType::nth(k - 1)),
            )
        }
    }

    /// Whether `glob` is in force for one of the first `k` module types.
    spec fn in_force_before(self, k: int, glob: Seq<char>) -> bool {
        exists|j: int| j < k && #[trigger] self.in_force(j, glob)
    }

    /// Whether the type at place `j`, one of the first `k`, has globs and is
    /// registered under `name`.
    spec fn defines(self, j: int, k: int, name: Seq<char>) -> bool {
        0 <= j < k && name == ModuleType::nth(j).label_text() && self.effective(
            ModuleType::nth(j),
        ).len() > 0
    }

    /// The names that are registered are the labels of the types that have
    /// globs, each with the globs in force for its type.
    proof fn lemma_registered(self, k: int)
        requires
            0 <= k <= 5,
        ensures
            forall|name: Seq<char>| #[trigger]
                self.registered(k).dom().contains(name) ==> exists|j: int| #[trigger]
                    self.defines(j, k, name),
            forall|j: int, name: Seq<char>| #[trigger]
                self.defines(j, k, name) ==> self.registered(k).dom().contains(name)
                    && self.registered(k)[name] == self.effective(ModuleType::nth(j)),
        decreases k,
    {
        if k > 0 {
            self.lemma_registered(k - 1);
            let t = ModuleType::nth(k - 1);
            let prev = self.registered(k - 1);
            let cur = self.registered(k);
            assert forall|name: Seq<char>| #[trigger] cur.dom().contains(name) implies exists|
                j: int,
            | #[trigger] self.defines(j, k, name) by {
                if prev.dom().contains(name) {
                    let j = choose|j: int| #[trigger] self.defines(j, k - 1, name);
                    assert(self.defines(j, k, name));
                } else {
                    assert(self.defines(k - 1, k, name));
                }
            }
            assert forall|j: int, name: Seq<char>| #[trigger]
                self.defines(j, k, name) implies cur.dom().contains(name) && cur[name]
                == self.effective(ModuleType::nth(j)) by {
                if j < k - 1 {
                    lemma_labels(ModuleType::nth(j), t);
                    assert(self.defines(j, k - 1, name));
                }
            }
        }
    }

    /// The label of the type at place `k` is not among the names registered
    /// for the types before it.
    proof fn lemma_label_is_free(self, k: int)
        requires
            0 <= k < 5,
        ensures
            !self.registered(k).dom().contains(ModuleType::nth(k).label_text()),
    {
        self.lemma_registered(k);
        let name = ModuleType::nth(k).label_text();
        if self.registered(k).dom().contains(name) {
            let j = choose|j: int| #[trigger] self.defines(j, k, name);
            lemma_labels(ModuleType::nth(j), ModuleType::nth(k));
        }
    }

    /// The selections are those of the types that have globs, none negated,
    /// and the globs that they hand on are the globs in force, type by type.
    proof fn lemma_chosen(self, k: int)
        requires
            0 <= k <= 5,
        ensures
            forall|i: int|
                0 <= i < self.chosen(k).len() ==> !(#[trigger] self.chosen(k)[i]).1
                    && exists|j: int| #[trigger] self.defines(j, k, self.chosen(k)[i].0),
            forall|j: int, name: Seq<char>| #[trigger]
                self.defines(j, k, name) ==> self.chosen(k).contains((name, false)),
            handed(self.registered(5), self.chosen(k)) == self.combined_upto(k),
            forall|i: int|
                0 <= i < self.combined_upto(k).len() ==> self.in_force_before(
                    k,
                    #[trigger] self.combined_upto(k)[i],
                ),
        decreases k,
    {
        if k > 0 {
            self.lemma_chosen(k - 1);
            self.lemma_registered(5);
            let t = ModuleType::nth(k - 1);
            let list = self.effective(t);
            let prev = self.chosen(k - 1);
            let cur = self.chosen(k);
            let types = self.registered(5);
            assert forall|i: int| 0 <= i < cur.len() implies !(#[trigger] cur[i]).1 && exists|
                j: int,
            | #[trigger] self.defines(j, k, cur[i].0) by {
                if i < prev.len() {
                    assert(cur[i] == prev[i]);
                    let j = choose|j: int| #[trigger] self.defines(j, k - 1, prev[i].0);
                    assert(self.defines(j, k, cur[i].0));
                } else {
                    assert(self.defines(k - 1, k, cur[i].0));
                }
            }
            assert forall|j: int, name: Seq<char>| #[trigger]
                self.defines(j, k, name) implies cur.contains((name, false)) by {
                if j < k - 1 {
                    assert(self.defines(j, k - 1, name));
                    let i = choose|i: int| 0 <= i < prev.len() && prev[i] == (name, false);
                    assert(cur[i] == (name, false));
                } else {
                    assert(cur[cur.len() - 1] == (name, false));
                }
            }
            if list.len() > 0 {
                assert(self.defines(k - 1, 5, t.label_text()));
                assert(cur.drop_last() =~= prev);
                assert(handed(types, cur) =~= self.combined_upto(k));
            } else {
                assert(self.combined_upto(k) =~= self.combined_upto(k - 1));
            }
            let before = self.combined_upto(k - 1);
            let now = self.combined_upto(k);
            assert forall|i: int| 0 <= i < now.len() implies self.in_force_before(
                k,
                #[trigger] now[i],
            ) by {
                if i < before.len() {
                    assert(now[i] == before[i]);
                    assert(self.in_force_before(k - 1, before[i]));
                    let j = choose|j: int| j < k - 1 && #[trigger] self.in_force(j, before[i]);
                    assert(self.in_force(j, now[i]));
                } else {
                    assert(now[i] == list[i - before.len()]);
                    assert(self.in_force(k - 1, now[i]));
                }
            }
        } else {
            assert(handed(self.registered(5), self.chosen(k)) =~= self.combined_upto(k));
        }
    }

    /// A matcher built from every type that has globs holds the globs in
    /// force for any type and no other.
    proof fn lemma_all_types(self, held: Set<(Seq<char>, bool)>)
        requires
            held == selected_globs(self.registered(5), self.chosen(5)),
        ensures
            negation_free(held),
            forall|glob: Seq<char>| #[trigger]
                held.contains((glob, false)) <==> exists|k: int| #[trigger] self.in_force(k, glob),
    {
        let types = self.registered(5);
        let selected = self.chosen(5);
        self.lemma_registered(5);
        self.lemma_chosen(5);
        assert forall|g: (Seq<char>, bool)| #[trigger] held.contains(g) implies !g.1 && exists|
            k: int,
        | #[trigger] self.in_force(k, g.0) by {
            let i = choose|i: int|
                #![trigger selected[i]]
                0 <= i < selected.len() && selected[i].1 == g.1 && types.dom().contains(
                    selected[i].0,
                ) && types[selected[i].0].contains(g.0);
            let j = choose|j: int| #[trigger] self.defines(j, 5, selected[i].0);
            assert(self.in_force(j, g.0));
        }
        assert forall|glob: Seq<char>| (exists|k: int| #[trigger] self.in_force(k, glob))
            implies #[trigger] held.contains((glob, false)) by {
            let k = choose|k: int| #[trigger] self.in_force(k, glob);
            let name = ModuleType::nth(k).label_text();
            assert(self.defines(k, 5, name));
            let i = choose|i: int| 0 <= i < selected.len() && selected[i] == (name, false);
            assert(selected[i].1 == false && types[selected[i].0].contains(glob));
        }
    }

    /// Where all is well before place `k`, the first set that does not
    /// compile is the first from place `k` on.
    proof fn lemma_first_set_fault(self, k: int)
        requires
            0 <= k <= 6,
            forall|j: int| 0 <= j < k ==> (#[trigger] self.set_fault_at(j)) is None,
        ensures
            self.first_set_fault() == self.set_fault_from(k),
        decreases k,
    {
        if k > 0 {
            self.lemma_first_set_fault(k - 1);
            assert(self.set_fault_at(k - 1) is None);
        }
    }

    /// Compiles the configuration: a combined matcher that lets through every
    /// file that the globs of any module type accept, and one matcher per
    /// module type, in declaration order.
    ///
    /// The globs are compiled type by type, each glob on its own and then the
    /// globs of the type as a set, and last the globs of all types as the set
    /// of the combined matcher. The build succeeds exactly if every glob and
    /// every set compiles. It fails on the first that does not: with the glob
    /// that is at fault, or without one where a set is.
    pub fn build_type_matchers(&self) -> (r: Result<(Types, Vec<ModuleMatcher>), AssetError>)
        ensures
            r is Ok <==> self.compiles_all() && self.first_set_fault() is None,
            match r {
                Ok((all, matchers)) => self.compiles_to(all, matchers@),
                Err(e) => match e@ {
                    AssetErrorView::GlobSyntax { glob: Some(glob), message } => self.first_bad(
                        glob,
                        message,
                    ),
                    AssetErrorView::GlobSyntax { glob: None, message } => {
                        &&& self.first_set_fault() == Some(message)
                        &&& exists|k: int| #[trigger] self.set_fails_at(k, message)
                    },
                    _ => false,
                },
            },
    {
        let mut matchers: Vec<ModuleMatcher> = Vec::new();
        let mut all_builder = builder_new();
        let order = ModuleType::declaration_order();
        let mut k: usize = 0;
        while k < order.len()
            invariant
                0 <= k <= 5,
                order@ == ModuleType::order(),
                matchers@.len() == k,
                forall|j: int|
                    0 <= j < k ==> self.matcher_for(#[trigger] matchers@[j], ModuleType::nth(j)),
                self.sound_before(k as int),
                builder_types(all_builder) == self.registered(k as int),
                builder_selected(all_builder) == self.chosen(k as int),
            decreases 5 - k,
        {
            let t = order[k];
            let defaults = Self::defaults(t);
            let globs: &Vec<String> = match self.list_of(t) {
                Some(list) => list,
                None => &defaults,
            };
            proof {
                self.lemma_label_is_free(k as int);
                self.lemma_first_set_fault(k as int);
            }
            match compile_type(&mut all_builder, t, globs) {
                Ok(m) => {
                    matchers.push(m);
                },
                Err(e) => {
                    proof {
                        match e@ {
                            AssetErrorView::GlobSyntax { glob: Some(glob), message } => {
                                assert(first_bad_of(
                                    self.effective(ModuleType::nth(k as int)),
                                    glob,
                                    message,
                                ));
                                assert(!self.compiles(ModuleType::nth(k as int)));
                            },
                            AssetErrorView::GlobSyntax { glob: None, message } => {
                                assert(self.set_fails_at(k as int, message));
                            },
                            _ => {},
                        }
                    }
                    return Err(e);
                },
            }
            k = k + 1;
        }
        proof {
            self.lemma_chosen(5);
            self.lemma_registered(5);
            self.lemma_first_set_fault(5);
            assert(all_defined(self.registered(5), self.chosen(5))) by {
                assert forall|i: int| 0 <= i < self.chosen(5).len() implies self.registered(
                    5,
                ).dom().contains((#[trigger] self.chosen(5)[i]).0) by {
                    let j = choose|j: int| #[trigger] self.defines(j, 5, self.chosen(5)[i].0);
                }
            }
            assert(all_compile(self.combined())) by {
                assert forall|i: int| 0 <= i < self.combined().len() implies glob_error(
                    #[trigger] self.combined()[i],
                ) is None by {
                    assert(self.in_force_before(5, self.combined()[i]));
                    let j = choose|j: int| j < 5 && #[trigger] self.in_force(j, self.combined()[i]);
                    assert(self.set_fault_at(j) is None);
                    assert(self.compiles(ModuleType::nth(j)));
                }
            }
        }
        match builder_build(&all_builder) {
            Ok(all) => {
                proof {
                    self.lemma_all_types(types_globs(all));
                    assert(self.set_fault_at(5) is None);
                    assert(self.set_fault_from(6) is None);
                    assert(self.set_fault_from(5) is None);
                    assert(self.compiles_all()) by {
                        assert forall|j: int| 0 <= j < 5 implies self.compiles(
                            #[trigger] ModuleType::nth(j),
                        ) by {
                            assert(self.set_fault_at(j) is None);
                        }
                    }
                }
                Ok((all, matchers))
            },
            Err(e) => {
                proof {
                    match e@ {
                        AssetErrorView::GlobSyntax { glob: None, message } => {
                            assert(self.set_fails_at(5, message));
                            assert(self.set_fault_from(5) == Some(message));
                        },
                        AssetErrorView::GlobSyntax { glob: Some(glob), message } => {
                            // Every glob compiled for the matcher of its own
                            // type, so none can be at fault here.
                            assert(false);
                        },
                        _ => {},
                    }
                }
                Err(e)
            },
        }
    }
}

/// Every module type has its matcher, at the place of the type in declaration
/// order.
pub proof fn lemma_every_type_has_a_matcher(
    config: ModuleGlobs,
    all: Types,
    matchers: Seq<ModuleMatcher>,
    t: ModuleType,
)
    requires
        config.compiles_to(all, matchers),
    ensures
        config.matcher_for(matchers[t.ordinal()], t),
{
    lemma_order_is_complete(t);
}

/// The combined matcher lets a file through exactly if the matcher of some
/// module type accepts it.
pub proof fn lemma_shortlist_is_any_type(
    config: ModuleGlobs,
    all: Types,
    matchers: Seq<ModuleMatcher>,
    path: Seq<char>,
)
    requires
        config.compiles_to(all, matchers),
    ensures
        shortlisted(all, path) <==> exists|k: int| 0 <= k < 5 && (#[trigger] matchers[k]).accepts(path),
{
    if shortlisted(all, path) {
        let glob = choose|glob: Seq<char>| #[trigger]
            types_globs(all).contains((glob, false)) && glob_matches(glob, path);
        let k = choose|k: int| #[trigger] config.in_force(k, glob);
        assert(matchers[k].globs().contains(glob));
    }
    if exists|k: int| 0 <= k < 5 && (#[trigger] matchers[k]).accepts(path) {
        let k = choose|k: int| 0 <= k < 5 && (#[trigger] matchers[k]).accepts(path);
        let glob = choose|glob: Seq<char>| #[trigger]
            matchers[k].globs().contains(glob) && glob_matches(glob, path);
        assert(config.in_force(k, glob));
        assert(types_globs(all).contains((glob, false)));
    }
}

/// Compiling is deterministic: the matchers that two configurations with the
/// same globs in force compile to, or one configuration compiles to twice,
/// classify every file alike.
pub proof fn lemma_matchers_are_determined(
    first: ModuleGlobs,
    second: ModuleGlobs,
    all_a: Types,
    matchers_a: Seq<ModuleMatcher>,
    all_b: Types,
    matchers_b: Seq<ModuleMatcher>,
    path: Seq<char>,
)
    requires
        forall|t: ModuleType| first.effective(t) == second.effective(t),
        first.compiles_to(all_a, matchers_a),
        second.compiles_to(all_b, matchers_b),
    ensures
        forall|k: int|
            0 <= k < 5 ==> {
                &&& (#[trigger] matchers_a[k]).kind() == matchers_b[k].kind()
                &&& matchers_a[k].accepts(path) == matchers_b[k].accepts(path)
            },
        shortlisted(all_a, path) == shortlisted(all_b, path),
{
    lemma_shortlist_is_any_type(first, all_a, matchers_a, path);
    lemma_shortlist_is_any_type(second, all_b, matchers_b, path);
    if shortlisted(all_a, path) {
        let k = choose|k: int| 0 <= k < 5 && (#[trigger] matchers_a[k]).accepts(path);
        assert(matchers_b[k].accepts(path));
    }
    if shortlisted(all_b, path) {
        let k = choose|k: int| 0 <= k < 5 && (#[trigger] matchers_b[k]).accepts(path);
        assert(matchers_a[k].accepts(path));
    }
}

/// The labels of the module types are names that the glob matcher accepts,
/// and no two types share one.
pub proof fn lemma_labels(a: ModuleType, b: ModuleType)
    ensures
        plain_type_name(a.label_text()),
        a != b ==> a.label_text() != b.label_text(),
{
    reveal_strlit("ESModule");
    reveal_strlit("CommonJS");
    reveal_strlit("CompiledWasm");
    reveal_strlit("Text");
    reveal_strlit("Data");
    if a != b {
        assert(a.label_text()[0] != b.label_text()[0] || a.label_text().len()
            != b.label_text().len());
    }
}

} // verus!
