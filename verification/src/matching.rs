//! What is assumed of the glob matcher of the `ignore` crate.
//!
//! A `TypesBuilder` collects, under type names, the globs that define each
//! type, and the names that were selected. `build` compiles the globs of the
//! selected names into a `Types`, which tells of a path whether one of them
//! accepts its file name. Nothing in this file is proved: each contract says
//! what the crate's source does, over the names declared here.

use vstd::prelude::*;
use crate::error::AssetError;
use ignore::types::{Types, TypesBuilder};
use std::path::Path;

verus! {

#[verifier::external_type_specification]
#[verifier::external_body]
pub struct ExTypesBuilder(ignore::types::TypesBuilder);

#[verifier::external_type_specification]
#[verifier::external_body]
pub struct ExTypes(ignore::types::Types);

/// The definitions that a builder holds: for each type name that has any, its
/// globs in the order in which they were added.
pub uninterp spec fn builder_types(b: TypesBuilder) -> Map<Seq<char>, Seq<Seq<char>>>;

/// The selections that a builder holds, in the order in which they were made:
/// each selected type name, with `true` where the selection negates the type.
pub uninterp spec fn builder_selected(b: TypesBuilder) -> Seq<(Seq<char>, bool)>;

/// The globs that a matcher was compiled from, each with `true` where it
/// belongs to a negated selection.
pub uninterp spec fn types_globs(t: Types) -> Set<(Seq<char>, bool)>;

/// What is wrong with a glob, as the matcher words it when it compiles the glob
/// with literal path separators; `None` where the glob compiles.
pub uninterp spec fn glob_error(glob: Seq<char>) -> Option<Seq<char>>;

/// What is wrong with the globs as a set, as the matcher words it when it
/// compiles them, in this order, into one set of globs; `None` where the set
/// compiles. It speaks of globs that compile each on its own.
pub uninterp spec fn glob_set_error(globs: Seq<Seq<char>>) -> Option<Seq<char>>;

/// Whether `path` has a file name, as the matcher takes it from the path, and
/// the glob, compiled with literal path separators, matches that file name.
pub uninterp spec fn glob_matches(glob: Seq<char>, path: Seq<char>) -> bool;

pub open spec fn ascii_alphanumeric(c: char) -> bool {
    ('a' <= c && c <= 'z') || ('A' <= c && c <= 'Z') || ('0' <= c && c <= '9')
}

/// The name that selects every defined type.
pub open spec fn all_types() -> Seq<char> {
    seq!['a', 'l', 'l']
}

/// A type name that a builder is sure to accept: letters and digits of ASCII,
/// and not the reserved name `all`.
pub open spec fn plain_type_name(name: Seq<char>) -> bool {
    &&& name != all_types()
    &&& forall|i: int| 0 <= i < name.len() ==> ascii_alphanumeric(#[trigger] name[i])
}

/// The globs defined under a name: none where the name has no definition.
pub open spec fn globs_under(types: Map<Seq<char>, Seq<Seq<char>>>, name: Seq<char>) -> Seq<
    Seq<char>,
> {
    if types.dom().contains(name) {
        types[name]
    } else {
        Seq::empty()
    }
}

/// Whether `listing` holds each member of `members` once, and nothing else.
pub open spec fn lists_once(listing: Seq<(Seq<char>, bool)>, members: Set<(Seq<char>, bool)>) -> bool {
    &&& listing.no_duplicates()
    &&& forall|s: (Seq<char>, bool)| listing.contains(s) == members.contains(s)
}

/// Whether `after` is what the selections `before` become when `name` is
/// selected: the name is appended, without negation. For `all`, every type
/// that has a definition is appended once, in an order that is not fixed.
pub open spec fn selected_after(
    before: Seq<(Seq<char>, bool)>,
    types: Map<Seq<char>, Seq<Seq<char>>>,
    name: Seq<char>,
    after: Seq<(Seq<char>, bool)>,
) -> bool {
    if name == all_types() {
        &&& after.len() >= before.len()
        &&& after.take(before.len() as int) == before
        &&& lists_once(
            after.skip(before.len() as int),
            Set::new(|s: (Seq<char>, bool)| types.dom().contains(s.0) && !s.1),
        )
    } else {
        after == before.push((name, false))
    }
}

/// Whether every selected name has a definition.
pub open spec fn all_defined(
    types: Map<Seq<char>, Seq<Seq<char>>>,
    selected: Seq<(Seq<char>, bool)>,
) -> bool {
    forall|i: int| 0 <= i < selected.len() ==> types.dom().contains((#[trigger] selected[i]).0)
}

/// The globs that are compiled, in the order in which they are: selection by
/// selection, and those of one selection in the order of its definition.
pub open spec fn handed(
    types: Map<Seq<char>, Seq<Seq<char>>>,
    selected: Seq<(Seq<char>, bool)>,
) -> Seq<Seq<char>>
    decreases selected.len(),
{
    if selected.len() == 0 {
        Seq::empty()
    } else {
        handed(types, selected.drop_last()) + globs_under(types, selected.last().0)
    }
}

/// Whether every one of the globs compiles.
pub open spec fn all_compile(globs: Seq<Seq<char>>) -> bool {
    forall|i: int| 0 <= i < globs.len() ==> glob_error(#[trigger] globs[i]) is None
}

/// Whether `glob` is the first of `globs` that does not compile, and `message`
/// says what is wrong with it.
pub open spec fn first_bad_of(globs: Seq<Seq<char>>, glob: Seq<char>, message: Seq<char>) -> bool {
    exists|i: int|
        #![trigger globs[i]]
        {
            &&& 0 <= i < globs.len()
            &&& globs[i] == glob
            &&& glob_error(glob) == Some(message)
            &&& forall|j: int| 0 <= j < i ==> glob_error(#[trigger] globs[j]) is None
        }
}

/// The globs of the selected types that have a definition, each with the
/// negation of its selection.
pub open spec fn selected_globs(
    types: Map<Seq<char>, Seq<Seq<char>>>,
    selected: Seq<(Seq<char>, bool)>,
) -> Set<(Seq<char>, bool)> {
    Set::new(
        |g: (Seq<char>, bool)|
            exists|i: int|
                #![trigger selected[i]]
                0 <= i < selected.len() && selected[i].1 == g.1 && types.dom().contains(
                    selected[i].0,
                ) && types[selected[i].0].contains(g.0),
    )
}

/// Whether none of the globs belongs to a negated selection.
pub open spec fn negation_free(globs: Set<(Seq<char>, bool)>) -> bool {
    forall|g: (Seq<char>, bool)| #[trigger] globs.contains(g) ==> !g.1
}

/// No definitions.
pub open spec fn no_types() -> Map<Seq<char>, Seq<Seq<char>>> {
    Map::empty()
}

/// No selections.
pub open spec fn none_selected() -> Seq<(Seq<char>, bool)> {
    Seq::empty()
}

/// `TypesBuilder::new`: a builder that holds no definition and no selection.
#[verifier::external_body]
pub(crate) fn builder_new() -> (b: TypesBuilder)
    ensures
        builder_types(b) == no_types(),
        builder_selected(b) == none_selected(),
{
    TypesBuilder::new()
}

/// `TypesBuilder::add`: appends `glob` to the globs under `name` and returns
/// `true`, or refuses the name, changes nothing and returns `false`. A plain
/// type name is never refused. The glob is stored as it is, not compiled.
#[verifier::external_body]
pub(crate) fn builder_add(b: &mut TypesBuilder, name: &str, glob: &str) -> (added: bool)
    ensures
        plain_type_name(name@) ==> added,
        builder_selected(*final(b)) == builder_selected(*old(b)),
        added ==> builder_types(*final(b)) == builder_types(*old(b)).insert(
            name@,
            globs_under(builder_types(*old(b)), name@).push(glob@),
        ),
        !added ==> builder_types(*final(b)) == builder_types(*old(b)),
{
    b.add(name, glob).is_ok()
}

/// `TypesBuilder::select`: appends the selection of `name`, which for `all` is
/// that of every type defined so far, in the order in which a hash map hands
/// out its keys. The definitions stay as they are.
#[verifier::external_body]
pub(crate) fn builder_select(b: &mut TypesBuilder, name: &str)
    ensures
        builder_types(*final(b)) == builder_types(*old(b)),
        selected_after(
            builder_selected(*old(b)),
            builder_types(*old(b)),
            name@,
            builder_selected(*final(b)),
        ),
{
    b.select(name);
}

/// `TypesBuilder::build`: takes the selections in their order, compiles the
/// globs of each, and then compiles all of them into one set.
///
/// - A matcher comes back exactly if every selected name has a definition,
///   every glob compiles and the set compiles. It holds exactly those globs.
/// - An error that names a glob names the first one that does not compile,
///   with what is wrong with it.
/// - An error without a glob, where every selected name has a definition,
///   comes only after every glob has compiled, from a set that is not empty,
///   and says what is wrong with the set. Where a selected name has no
///   definition, the error is the outside crate's own, under its own text.
#[verifier::external_body]
pub(crate) fn builder_build(b: &TypesBuilder) -> (r: Result<Types, AssetError>)
    ensures
        match r {
            Ok(t) => {
                &&& all_defined(builder_types(*b), builder_selected(*b))
                &&& all_compile(handed(builder_types(*b), builder_selected(*b)))
                &&& glob_set_error(handed(builder_types(*b), builder_selected(*b))) is None
                &&& types_globs(t) == selected_globs(builder_types(*b), builder_selected(*b))
            },
            Err(AssetError::GlobSyntax { glob: Some(g), message }) => {
                &&& glob_error(g@) == Some(message@)
                &&& first_bad_of(handed(builder_types(*b), builder_selected(*b)), g@, message@)
            },
            Err(AssetError::GlobSyntax { glob: None, message }) => all_defined(
                builder_types(*b),
                builder_selected(*b),
            ) ==> {
                &&& all_compile(handed(builder_types(*b), builder_selected(*b)))
                &&& handed(builder_types(*b), builder_selected(*b)).len() > 0
                &&& glob_set_error(handed(builder_types(*b), builder_selected(*b))) == Some(
                    message@,
                )
            },
            Err(_) => false,
        },
{
    match b.build() {
        Ok(types) => Ok(types),
        Err(ignore::Error::Glob { glob, err }) => Err(AssetError::GlobSyntax { glob, message: err }),
        Err(other) => Err(AssetError::GlobSyntax { glob: None, message: other.to_string() }),
    }
}

/// `Types::matched`, asked of a file: where the matcher holds no glob of a
/// negated selection, the path is whitelisted exactly if one of the globs
/// matches its file name.
#[verifier::external_body]
pub(crate) fn types_whitelists(t: &Types, path: &str) -> (r: bool)
    ensures
        negation_free(types_globs(*t)) ==> r == (exists|glob: Seq<char>| #[trigger]
            types_globs(*t).contains((glob, false)) && glob_matches(glob, path@)),
{
    t.matched(Path::new(path), false).is_whitelist()
}

} // verus!
