//! The module manifest: which of the candidate files are modules, under which
//! name and of which type.

use vstd::prelude::*;
use vstd::string::*;
use crate::error::{AssetError, AssetErrorView};
use crate::globs::{texts, ModuleGlobs, ModuleMatcher};
use crate::module_type::ModuleType;
use crate::paths::{path_strip_prefix, path_to_slash, strip_prefix, to_slash};

verus! {

/// A file that is part of the worker.
#[derive(Debug, Clone, PartialEq, PartialOrd, Eq, Ord)]
pub struct Module {
    /// The path of the file below the upload directory, with `/` between its
    /// components and `./` in front.
    pub name: String,
    /// Where the file is.
    pub path: String,
    pub module_type: ModuleType,
}

/// What a [`Module`] holds, with the strings as sequences of characters.
pub struct ModuleView {
    pub name: Seq<char>,
    pub path: Seq<char>,
    pub module_type: ModuleType,
}

impl View for Module {
    type V = ModuleView;

    open spec fn view(&self) -> ModuleView {
        ModuleView { name: self.name@, path: self.path@, module_type: self.module_type }
    }
}

/// The modules of a list, each by its view.
pub open spec fn views(modules: Seq<Module>) -> Seq<ModuleView> {
    Seq::new(modules.len(), |i: int| modules[i]@)
}

/// Whether a module of the list has the name.
pub open spec fn has_name(listed: Seq<ModuleView>, name: Seq<char>) -> bool {
    exists|i: int| 0 <= i < listed.len() && (#[trigger] listed[i]).name == name
}

/// Whether no two modules of the list share a name.
pub open spec fn distinct_names(listed: Seq<ModuleView>) -> bool {
    forall|i: int, j: int|
        0 <= i < j < listed.len() ==> (#[trigger] listed[i]).name != (#[trigger] listed[j]).name
}

/// The name of the module whose path below the upload directory, written with
/// `/`, is `relative`.
pub open spec fn name_of(relative: Seq<char>) -> Seq<char> {
    seq!['.', '/'] + relative
}

/// The name of the module at `path`; `None` where the path does not lie under
/// the upload directory `root`.
pub open spec fn canonical_name(path: Seq<char>, root: Seq<char>) -> Option<Seq<char>> {
    match path_strip_prefix(path, root) {
        Some(rest) => Some(name_of(path_to_slash(rest))),
        None => None,
    }
}

/// Whether the matcher at place `j` accepts the file.
pub open spec fn accepted_by(matchers: Seq<ModuleMatcher>, path: Seq<char>, j: int) -> bool {
    0 <= j < matchers.len() && matchers[j].accepts(path)
}

/// Whether some matcher accepts the file.
pub open spec fn accepted(matchers: Seq<ModuleMatcher>, path: Seq<char>) -> bool {
    exists|j: int| accepted_by(matchers, path, j)
}

/// Whether two of the matchers accept the file.
pub open spec fn accepted_twice(matchers: Seq<ModuleMatcher>, path: Seq<char>) -> bool {
    exists|j: int, k: int| j < k && accepted_by(matchers, path, j) && accepted_by(matchers, path, k)
}

/// The module type of a file that one matcher accepts.
pub open spec fn assigned_type(matchers: Seq<ModuleMatcher>, path: Seq<char>) -> ModuleType {
    matchers[choose|j: int| accepted_by(matchers, path, j)].kind()
}

/// Whether the file cannot join the modules listed so far: two matchers accept
/// it, or one does and its name is taken.
pub open spec fn conflicts(
    listed: Seq<ModuleView>,
    matchers: Seq<ModuleMatcher>,
    path: Seq<char>,
    name: Seq<char>,
) -> bool {
    accepted_twice(matchers, path) || (accepted(matchers, path) && has_name(listed, name))
}

/// The modules listed once a file that does not conflict is classified: the
/// file joins them if a matcher accepts it, and is passed over if none does.
pub open spec fn with_candidate(
    listed: Seq<ModuleView>,
    matchers: Seq<ModuleMatcher>,
    path: Seq<char>,
    name: Seq<char>,
) -> Seq<ModuleView> {
    if accepted(matchers, path) {
        listed.push(ModuleView { name, path, module_type: assigned_type(matchers, path) })
    } else {
        listed
    }
}

/// The modules among the first `n` candidates, in the order of the candidates.
pub open spec fn modules_upto(
    paths: Seq<Seq<char>>,
    root: Seq<char>,
    matchers: Seq<ModuleMatcher>,
    n: int,
) -> Seq<ModuleView>
    decreases n,
{
    if n <= 0 {
        Seq::empty()
    } else {
        let listed = modules_upto(paths, root, matchers, n - 1);
        match canonical_name(paths[n - 1], root) {
            Some(name) => with_candidate(listed, matchers, paths[n - 1], name),
            None => listed,
        }
    }
}

/// What is wrong with the candidate at place `i`, given the candidates before
/// it: it does not lie under the upload directory, or it conflicts with the
/// modules listed so far. `None` where nothing is wrong.
pub open spec fn fault(
    paths: Seq<Seq<char>>,
    root: Seq<char>,
    matchers: Seq<ModuleMatcher>,
    i: int,
) -> Option<AssetErrorView> {
    match canonical_name(paths[i], root) {
        None => Some(AssetErrorView::NotUnderRoot { path: paths[i] }),
        Some(name) => if conflicts(modules_upto(paths, root, matchers, i), matchers, paths[i], name) {
            Some(AssetErrorView::MultipleTypes { path: paths[i] })
        } else {
            None
        },
    }
}

/// Whether nothing is wrong with any of the first `n` candidates.
pub open spec fn clean(
    paths: Seq<Seq<char>>,
    root: Seq<char>,
    matchers: Seq<ModuleMatcher>,
    n: int,
) -> bool {
    forall|i: int| 0 <= i < n ==> #[trigger] fault(paths, root, matchers, i) is None
}

/// Whether `outcome` is the manifest of the candidates: the modules among
/// them, in their order, where nothing is wrong with any candidate; else what
/// is wrong with the first candidate that has a fault.
pub open spec fn is_manifest_of(
    paths: Seq<Seq<char>>,
    root: Seq<char>,
    matchers: Seq<ModuleMatcher>,
    outcome: Result<Seq<ModuleView>, AssetErrorView>,
) -> bool {
    match outcome {
        Ok(listed) => {
            &&& clean(paths, root, matchers, paths.len() as int)
            &&& listed == modules_upto(paths, root, matchers, paths.len() as int)
        },
        Err(error) => exists|i: int|
            {
                &&& 0 <= i < paths.len()
                &&& clean(paths, root, matchers, i)
                &&& #[trigger] fault(paths, root, matchers, i) == Some(error)
            },
    }
}

/// What is found below the upload directory: each path, with whether a
/// regular file is there.
pub open spec fn entry_views(entries: Seq<(String, bool)>) -> Seq<(Seq<char>, bool)> {
    Seq::new(entries.len(), |i: int| (entries[i].0@, entries[i].1))
}

/// The paths of the entries that are regular files, in the order of the
/// entries.
pub open spec fn kept(entries: Seq<(Seq<char>, bool)>) -> Seq<Seq<char>>
    decreases entries.len(),
{
    if entries.len() == 0 {
        Seq::empty()
    } else if entries.last().1 {
        kept(entries.drop_last()).push(entries.last().0)
    } else {
        kept(entries.drop_last())
    }
}

/// Picks the candidates out of what was found below the upload directory:
/// only regular files are classified, so every other entry is passed over.
pub fn regular_files(entries: &[(String, bool)]) -> (r: Vec<String>)
    ensures
        texts(r@) == kept(entry_views(entries@)),
{
    let mut files: Vec<String> = Vec::new();
    let mut i: usize = 0;
    assert(entry_views(entries@).take(0) =~= Seq::<(Seq<char>, bool)>::empty());
    while i < entries.len()
        invariant
            0 <= i <= entries@.len(),
            texts(files@) == kept(entry_views(entries@).take(i as int)),
        decreases entries@.len() - i,
    {
        let ghost found = entry_views(entries@);
        assert(found.take(i + 1).drop_last() =~= found.take(i as int));
        if entries[i].1 {
            let ghost before = texts(files@);
            files.push(entries[i].0.clone());
            assert(texts(files@) =~= before.push(found[i as int].0));
        }
        i = i + 1;
    }
    assert(entry_views(entries@).take(i as int) =~= entry_views(entries@));
    files
}

/// The name of the module whose path below the upload directory, written with
/// `/`, is `relative`.
pub fn module_name(relative: &str) -> (r: String)
    ensures
        r@ == name_of(relative@),
{
    proof {
        reveal_strlit("./");
    }
    let mut name = String::from_str("./");
    name.append(relative);
    name
}

/// Tells whether a module of the list has the name.
pub fn contains_name(modules: &Vec<Module>, name: &String) -> (r: bool)
    ensures
        r == has_name(views(modules@), name@),
{
    let mut i: usize = 0;
    while i < modules.len()
        invariant
            0 <= i <= modules@.len(),
            forall|k: int| 0 <= k < i ==> (#[trigger] views(modules@)[k]).name != name@,
        decreases modules@.len() - i,
    {
        if modules[i].name == *name {
            assert(views(modules@)[i as int].name == name@);
            return true;
        }
        i = i + 1;
    }
    false
}

/// Lists the file as a module of the given type, unless its name is taken:
/// then the list stays as it is and the file is reported.
pub fn add_module(
    modules: &mut Vec<Module>,
    name: &String,
    path: &String,
    module_type: ModuleType,
) -> (r: Result<(), AssetError>)
    ensures
        match r {
            Ok(()) => {
                &&& !has_name(views(old(modules)@), name@)
                &&& views(final(modules)@) == views(old(modules)@).push(
                    ModuleView { name: name@, path: path@, module_type },
                )
            },
            Err(e) => {
                &&& has_name(views(old(modules)@), name@)
                &&& e@ == (AssetErrorView::MultipleTypes { path: path@ })
                &&& final(modules)@ == old(modules)@
            },
        },
{
    if contains_name(modules, name) {
        Err(AssetError::MultipleTypes { path: path.clone() })
    } else {
        modules.push(Module { name: name.clone(), path: path.clone(), module_type });
        Ok(())
    }
}

/// Classifies one file whose name is known: every matcher is asked in turn,
/// and the file is listed under the type of the one that accepts it.
///
/// Fails where the file conflicts with the modules listed so far; the list
/// may then hold the file already.
pub fn classify(
    modules: &mut Vec<Module>,
    path: &String,
    name: &String,
    matchers: &[ModuleMatcher],
) -> (r: Result<(), AssetError>)
    ensures
        match r {
            Ok(()) => {
                &&& !conflicts(views(old(modules)@), matchers@, path@, name@)
                &&& views(final(modules)@) == with_candidate(
                    views(old(modules)@),
                    matchers@,
                    path@,
                    name@,
                )
            },
            Err(e) => {
                &&& conflicts(views(old(modules)@), matchers@, path@, name@)
                &&& e@ == (AssetErrorView::MultipleTypes { path: path@ })
            },
        },
{
    let ghost before = views(modules@);
    let ghost mut first: int = -1;
    let mut j: usize = 0;
    while j < matchers.len()
        invariant
            0 <= j <= matchers@.len(),
            -1 <= first < j,
            before == views(old(modules)@),
            forall|k: int| 0 <= k < j && k != first ==> !accepted_by(matchers@, path@, k),
            first == -1 ==> views(modules@) == before,
            first != -1 ==> {
                &&& accepted_by(matchers@, path@, first)
                &&& !has_name(before, name@)
                &&& views(modules@) == before.push(
                    ModuleView { name: name@, path: path@, module_type: matchers@[first].kind() },
                )
            },
        decreases matchers@.len() - j,
    {
        if matchers[j].is_match(path.as_str()) {
            assert(accepted_by(matchers@, path@, j as int));
            let ghost listed = views(modules@);
            match add_module(modules, name, path, matchers[j].module_type()) {
                Ok(()) => {
                    proof {
                        if first != -1 {
                            // The first acceptance took the name, so a second
                            // one cannot be listed.
                            assert(listed[before.len() as int].name == name@);
                        }
                        first = j as int;
                    }
                },
                Err(e) => {
                    return Err(e);
                },
            }
        }
        j = j + 1;
    }
    Ok(())
}

impl ModuleGlobs {
    /// Builds the manifest of the candidate files `paths` below the upload
    /// directory `upload_dir`.
    ///
    /// Each candidate is named by its path below the upload directory, and
    /// listed under the type of the one matcher that accepts it; a candidate
    /// that no matcher accepts is left out. The build ends at the first
    /// candidate that does not lie under the upload directory, that two
    /// matchers accept, or whose name is taken.
    pub fn create_module_manifest(
        paths: &[String],
        upload_dir: &str,
        matchers: &[ModuleMatcher],
    ) -> (r: Result<Vec<Module>, AssetError>)
        ensures
            is_manifest_of(
                texts(paths@),
                upload_dir@,
                matchers@,
                match r {
                    Ok(modules) => Ok(views(modules@)),
                    Err(e) => Err(e@),
                },
            ),
            r matches Ok(modules) ==> distinct_names(views(modules@)),
    {
        let ghost files = texts(paths@);
        let mut modules: Vec<Module> = Vec::new();
        let mut i: usize = 0;
        while i < paths.len()
            invariant
                0 <= i <= paths@.len(),
                files == texts(paths@),
                clean(files, upload_dir@, matchers@, i as int),
                views(modules@) == modules_upto(files, upload_dir@, matchers@, i as int),
            decreases paths@.len() - i,
        {
            let path = &paths[i];
            match strip_prefix(path.as_str(), upload_dir) {
                None => {
                    let e = AssetError::NotUnderRoot { path: path.clone() };
                    assert(fault(files, upload_dir@, matchers@, i as int) == Some(e@));
                    return Err(e);
                },
                Some(rest) => {
                    let slashed = to_slash(rest.as_str());
                    let name = module_name(slashed.as_str());
                    if let Err(e) = classify(&mut modules, path, &name, matchers) {
                        return Err(e);
                    }
                },
            }
            i = i + 1;
        }
        proof {
            lemma_names_are_distinct(files, upload_dir@, matchers@, i as int);
        }
        Ok(modules)
    }
}

/// Where nothing is wrong with the first `n` candidates, no two of the modules
/// among them share a name.
pub proof fn lemma_names_are_distinct(
    paths: Seq<Seq<char>>,
    root: Seq<char>,
    matchers: Seq<ModuleMatcher>,
    n: int,
)
    requires
        0 <= n <= paths.len(),
        clean(paths, root, matchers, n),
    ensures
        distinct_names(modules_upto(paths, root, matchers, n)),
    decreases n,
{
    if n > 0 {
        lemma_names_are_distinct(paths, root, matchers, n - 1);
        assert(fault(paths, root, matchers, n - 1) is None);
    }
}

/// The module that the candidate at place `i` is listed as.
pub open spec fn listing_of(
    paths: Seq<Seq<char>>,
    root: Seq<char>,
    matchers: Seq<ModuleMatcher>,
    i: int,
) -> ModuleView {
    ModuleView {
        name: canonical_name(paths[i], root).unwrap(),
        path: paths[i],
        module_type: assigned_type(matchers, paths[i]),
    }
}

/// Whether the candidate at place `i`, one of the first `n`, lies under the
/// upload directory and is accepted by a matcher.
pub open spec fn is_module(
    paths: Seq<Seq<char>>,
    root: Seq<char>,
    matchers: Seq<ModuleMatcher>,
    i: int,
    n: int,
) -> bool {
    0 <= i < n && canonical_name(paths[i], root) is Some && accepted(matchers, paths[i])
}

/// The modules among the first `n` candidates are the candidates that lie
/// under the upload directory and that a matcher accepts: each of these is
/// listed, and nothing else is.
pub proof fn lemma_modules_are_the_accepted(
    paths: Seq<Seq<char>>,
    root: Seq<char>,
    matchers: Seq<ModuleMatcher>,
    n: int,
)
    requires
        0 <= n <= paths.len(),
    ensures
        forall|m: int|
            0 <= m < modules_upto(paths, root, matchers, n).len() ==> exists|i: int|
                is_module(paths, root, matchers, i, n) && #[trigger] listing_of(
                    paths,
                    root,
                    matchers,
                    i,
                ) == (#[trigger] modules_upto(paths, root, matchers, n)[m]),
        forall|i: int|
            is_module(paths, root, matchers, i, n) ==> modules_upto(
                paths,
                root,
                matchers,
                n,
            ).contains(#[trigger] listing_of(paths, root, matchers, i)),
    decreases n,
{
    if n > 0 {
        lemma_modules_are_the_accepted(paths, root, matchers, n - 1);
        let before = modules_upto(paths, root, matchers, n - 1);
        let now = modules_upto(paths, root, matchers, n);
        assert forall|m: int| 0 <= m < now.len() implies exists|i: int|
            is_module(paths, root, matchers, i, n) && #[trigger] listing_of(
                paths,
                root,
                matchers,
                i,
            ) == (#[trigger] now[m]) by {
            if m >= before.len() {
                assert(listing_of(paths, root, matchers, n - 1) == now[m]);
            }
        }
        assert forall|i: int| is_module(paths, root, matchers, i, n) implies now.contains(
            #[trigger] listing_of(paths, root, matchers, i),
        ) by {
            if i < n - 1 {
                let m = choose|m: int|
                    0 <= m < before.len() && before[m] == listing_of(paths, root, matchers, i);
                assert(now[m] == listing_of(paths, root, matchers, i));
            } else {
                assert(now[now.len() - 1] == listing_of(paths, root, matchers, i));
            }
        }
    }
}

/// A candidate that exactly one matcher accepts is, in a manifest that was
/// built, the one module of its name: the name is `./` and the path below the
/// upload directory with `/` between its components, and the type is that of
/// the matcher.
pub proof fn lemma_single_match_is_listed(
    paths: Seq<Seq<char>>,
    root: Seq<char>,
    matchers: Seq<ModuleMatcher>,
    listed: Seq<ModuleView>,
    i: int,
    j: int,
)
    requires
        is_manifest_of(paths, root, matchers, Ok(listed)),
        0 <= i < paths.len(),
        accepted_by(matchers, paths[i], j),
        forall|k: int| accepted_by(matchers, paths[i], k) ==> k == j,
    ensures
        path_strip_prefix(paths[i], root) is Some,
        exists|m: int|
            {
                &&& 0 <= m < listed.len()
                &&& #[trigger] listed[m] == (ModuleView {
                    name: seq!['.', '/'] + path_to_slash(path_strip_prefix(paths[i], root).unwrap()),
                    path: paths[i],
                    module_type: matchers[j].kind(),
                })
                &&& forall|other: int|
                    0 <= other < listed.len() && (#[trigger] listed[other]).name == listed[m].name
                        ==> other == m
            },
{
    let n = paths.len() as int;
    assert(fault(paths, root, matchers, i) is None);
    lemma_modules_are_the_accepted(paths, root, matchers, n);
    lemma_names_are_distinct(paths, root, matchers, n);
    let entry = listing_of(paths, root, matchers, i);
    let m = choose|m: int| 0 <= m < listed.len() && listed[m] == entry;
    assert(listed[m].module_type == matchers[j].kind());
}

/// Where two or more matchers accept a candidate, no manifest is built.
pub proof fn lemma_double_match_fails(
    paths: Seq<Seq<char>>,
    root: Seq<char>,
    matchers: Seq<ModuleMatcher>,
    outcome: Result<Seq<ModuleView>, AssetErrorView>,
    i: int,
)
    requires
        is_manifest_of(paths, root, matchers, outcome),
        0 <= i < paths.len(),
        accepted_twice(matchers, paths[i]),
    ensures
        outcome is Err,
{
    if outcome is Ok {
        assert(fault(paths, root, matchers, i) is None);
    }
}

/// Where two or more matchers accept a candidate that lies under the upload
/// directory, and nothing is wrong with the candidates before it, the build
/// fails with the error that names this candidate.
pub proof fn lemma_double_match_is_reported(
    paths: Seq<Seq<char>>,
    root: Seq<char>,
    matchers: Seq<ModuleMatcher>,
    outcome: Result<Seq<ModuleView>, AssetErrorView>,
    i: int,
)
    requires
        is_manifest_of(paths, root, matchers, outcome),
        0 <= i < paths.len(),
        accepted_twice(matchers, paths[i]),
        path_strip_prefix(paths[i], root) is Some,
        clean(paths, root, matchers, i),
    ensures
        outcome == Err::<Seq<ModuleView>, AssetErrorView>(
            AssetErrorView::MultipleTypes { path: paths[i] },
        ),
{
    lemma_double_match_fails(paths, root, matchers, outcome, i);
    assert(fault(paths, root, matchers, i) is Some);
}

/// A candidate that no matcher accepts is not in the manifest: no module has
/// its path.
pub proof fn lemma_unmatched_is_left_out(
    paths: Seq<Seq<char>>,
    root: Seq<char>,
    matchers: Seq<ModuleMatcher>,
    listed: Seq<ModuleView>,
    i: int,
)
    requires
        is_manifest_of(paths, root, matchers, Ok(listed)),
        0 <= i < paths.len(),
        !accepted(matchers, paths[i]),
    ensures
        forall|m: int| 0 <= m < listed.len() ==> (#[trigger] listed[m]).path != paths[i],
{
    let n = paths.len() as int;
    lemma_modules_are_the_accepted(paths, root, matchers, n);
}

/// The candidates, the upload directory and the matchers determine the
/// manifest: two builds from the same ones end alike.
pub proof fn lemma_manifest_is_determined(
    paths: Seq<Seq<char>>,
    root: Seq<char>,
    matchers: Seq<ModuleMatcher>,
    first: Result<Seq<ModuleView>, AssetErrorView>,
    second: Result<Seq<ModuleView>, AssetErrorView>,
)
    requires
        is_manifest_of(paths, root, matchers, first),
        is_manifest_of(paths, root, matchers, second),
    ensures
        first == second,
{
}

/// Whether no two candidates have the same name below the upload directory.
pub open spec fn distinct_candidates(paths: Seq<Seq<char>>, root: Seq<char>) -> bool {
    forall|i: int, j: int|
        0 <= i < j < paths.len() && canonical_name(paths[i], root) is Some ==> canonical_name(
            paths[i],
            root,
        ) != canonical_name(paths[j], root)
}

/// Whether the file at `path` can be classified on its own: it lies under the
/// upload directory, and no two matchers accept it.
pub open spec fn classifiable(path: Seq<char>, root: Seq<char>, matchers: Seq<ModuleMatcher>) -> bool {
    canonical_name(path, root) is Some && !accepted_twice(matchers, path)
}

/// Among candidates of distinct names, something is wrong with a candidate
/// only on its own account: the candidates before it do not matter.
pub proof fn lemma_fault_is_the_candidates_own(
    paths: Seq<Seq<char>>,
    root: Seq<char>,
    matchers: Seq<ModuleMatcher>,
    i: int,
)
    requires
        0 <= i < paths.len(),
        distinct_candidates(paths, root),
    ensures
        fault(paths, root, matchers, i) is None <==> classifiable(paths[i], root, matchers),
{
    lemma_modules_are_the_accepted(paths, root, matchers, i);
    let listed = modules_upto(paths, root, matchers, i);
    if canonical_name(paths[i], root) is Some {
        let name = canonical_name(paths[i], root).unwrap();
        if has_name(listed, name) {
            let m = choose|m: int| 0 <= m < listed.len() && (#[trigger] listed[m]).name == name;
            let from = choose|from: int|
                is_module(paths, root, matchers, from, i) && #[trigger] listing_of(
                    paths,
                    root,
                    matchers,
                    from,
                ) == listed[m];
            assert(canonical_name(paths[from], root) != canonical_name(paths[i], root));
        }
    }
}

/// The order of the candidates does not matter: the same set of candidates,
/// of distinct names, listed in two orders, is classified with the same
/// success, and the two manifests hold the same modules.
pub proof fn lemma_manifest_ignores_order(
    first: Seq<Seq<char>>,
    second: Seq<Seq<char>>,
    root: Seq<char>,
    matchers: Seq<ModuleMatcher>,
    outcome_a: Result<Seq<ModuleView>, AssetErrorView>,
    outcome_b: Result<Seq<ModuleView>, AssetErrorView>,
)
    requires
        first.to_set() == second.to_set(),
        distinct_candidates(first, root),
        distinct_candidates(second, root),
        is_manifest_of(first, root, matchers, outcome_a),
        is_manifest_of(second, root, matchers, outcome_b),
    ensures
        outcome_a is Ok <==> outcome_b is Ok,
        outcome_a is Ok ==> outcome_a->Ok_0.to_set() == outcome_b->Ok_0.to_set(),
{
    lemma_same_success(first, second, root, matchers, outcome_a, outcome_b);
    lemma_same_success(second, first, root, matchers, outcome_b, outcome_a);
    if outcome_a is Ok {
        lemma_same_modules(first, second, root, matchers);
        lemma_same_modules(second, first, root, matchers);
        assert(outcome_a->Ok_0.to_set() =~= outcome_b->Ok_0.to_set());
    }
}

/// Where one listing of the candidates is classified, so is any other.
proof fn lemma_same_success(
    first: Seq<Seq<char>>,
    second: Seq<Seq<char>>,
    root: Seq<char>,
    matchers: Seq<ModuleMatcher>,
    outcome_a: Result<Seq<ModuleView>, AssetErrorView>,
    outcome_b: Result<Seq<ModuleView>, AssetErrorView>,
)
    requires
        first.to_set() == second.to_set(),
        distinct_candidates(first, root),
        distinct_candidates(second, root),
        is_manifest_of(first, root, matchers, outcome_a),
        is_manifest_of(second, root, matchers, outcome_b),
    ensures
        outcome_a is Ok ==> outcome_b is Ok,
{
    if outcome_a is Ok && outcome_b is Err {
        let at = choose|at: int|
            0 <= at < second.len() && clean(second, root, matchers, at) && #[trigger] fault(
                second,
                root,
                matchers,
                at,
            ) == Some(outcome_b->Err_0);
        lemma_fault_is_the_candidates_own(second, root, matchers, at);
        assert(second.to_set().contains(second[at]));
        assert(first.contains(second[at]));
        let i = choose|i: int| 0 <= i < first.len() && first[i] == second[at];
        lemma_fault_is_the_candidates_own(first, root, matchers, i);
        assert(fault(first, root, matchers, i) is None);
    }
}

/// Every module among the candidates in one listing is a module among them
/// in any other.
proof fn lemma_same_modules(
    first: Seq<Seq<char>>,
    second: Seq<Seq<char>>,
    root: Seq<char>,
    matchers: Seq<ModuleMatcher>,
)
    requires
        first.to_set() == second.to_set(),
    ensures
        forall|m: ModuleView|
            modules_upto(first, root, matchers, first.len() as int).contains(m)
                ==> modules_upto(second, root, matchers, second.len() as int).contains(m),
{
    let listed_a = modules_upto(first, root, matchers, first.len() as int);
    let listed_b = modules_upto(second, root, matchers, second.len() as int);
    lemma_modules_are_the_accepted(first, root, matchers, first.len() as int);
    lemma_modules_are_the_accepted(second, root, matchers, second.len() as int);
    assert forall|m: ModuleView| listed_a.contains(m) implies listed_b.contains(m) by {
        let at = choose|at: int| 0 <= at < listed_a.len() && listed_a[at] == m;
        let i = choose|i: int|
            is_module(first, root, matchers, i, first.len() as int) && #[trigger] listing_of(
                first,
                root,
                matchers,
                i,
            ) == listed_a[at];
        assert(first.to_set().contains(first[i]));
        assert(second.contains(first[i]));
        let j = choose|j: int| 0 <= j < second.len() && second[j] == first[i];
        assert(is_module(second, root, matchers, j, second.len() as int));
        assert(listing_of(second, root, matchers, j) == m);
    }
}

} // verus!
