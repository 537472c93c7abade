//! The files of a fresh configuration directory.

use vstd::prelude::*;
use vstd::string::*;
use crate::driver::append_to_path;
use crate::model::view_names;

verus! {

/// The names of the files that a fresh configuration directory holds, in the
/// order in which they are written.
pub open spec fn default_names() -> Seq<Seq<char>> {
    seq![
        "base.rhai"@,
        "AActor.rhai"@,
        "aactor-template-cpp.txt"@,
        "aactor-template-h.txt"@,
        "field-declaration-template.txt"@,
        "field-definition-template.txt"@,
        "field-name-template.txt"@,
        "type-template-array.txt"@,
        "type-template-bool.txt"@,
        "type-template-char.txt"@,
        "type-template-class.txt"@,
        "type-template-float.txt"@,
        "type-template-integer.txt"@,
        "type-template-matrix.txt"@,
        "type-template-pointer.txt"@,
        "type-template-ref.txt"@,
        "type-template-string.txt"@,
        "method-declaration-template.txt"@,
    ]
}

/// The names of the files that a fresh configuration directory holds.
pub fn default_file_names() -> (names: Vec<String>)
    ensures
        view_names(names@) == default_names(),
{
    let mut names: Vec<String> = Vec::new();
    names.push(String::from_str("base.rhai"));
    names.push(String::from_str("AActor.rhai"));
    names.push(String::from_str("aactor-template-cpp.txt"));
    names.push(String::from_str("aactor-template-h.txt"));
    names.push(String::from_str("field-declaration-template.txt"));
    names.push(String::from_str("field-definition-template.txt"));
    names.push(String::from_str("field-name-template.txt"));
    names.push(String::from_str("type-template-array.txt"));
    names.push(String::from_str("type-template-bool.txt"));
    names.push(String::from_str("type-template-char.txt"));
    names.push(String::from_str("type-template-class.txt"));
    names.push(String::from_str("type-template-float.txt"));
    names.push(String::from_str("type-template-integer.txt"));
    names.push(String::from_str("type-template-matrix.txt"));
    names.push(String::from_str("type-template-pointer.txt"));
    names.push(String::from_str("type-template-ref.txt"));
    names.push(String::from_str("type-template-string.txt"));
    names.push(String::from_str("method-declaration-template.txt"));
    assert(view_names(names@) =~= default_names());
    names
}

/// The paths of `names` in the directory `dir`.
pub open spec fn paths_in(dir: Seq<char>, separator: Seq<char>, names: Seq<Seq<char>>) -> Seq<
    Seq<char>,
> {
    names.map_values(|n: Seq<char>| dir + separator + n)
}

/// The paths that the files of a fresh configuration are written to in the
/// directory `moho_path`: one for each default file, in order.
pub fn copy_default_files(moho_path: &str, separator: &str) -> (paths: Vec<String>)
    ensures
        view_names(paths@) == paths_in(moho_path@, separator@, default_names()),
{
    let names = default_file_names();
    let mut paths: Vec<String> = Vec::new();
    let mut i: usize = 0;
    while i < names.len()
        invariant
            i <= names.len(),
            paths@.len() == i,
            forall|j: int| 0 <= j < i ==> paths@[j]@ == moho_path@ + separator@ + names@[j]@,
        decreases names.len() - i,
    {
        paths.push(append_to_path(moho_path, separator, names[i].as_str()));
        i += 1;
    }
    assert(view_names(paths@) =~= paths_in(moho_path@, separator@, view_names(names@)));
    paths
}

} // verus!
