//! How a scene description resolves the material that a surface names.

use vstd::prelude::*;

verus! {

/// The three kinds of material, in the order in which a name is looked up.
#[derive(Clone, Copy, Debug, PartialEq, Eq)]
pub enum MaterialKind {
    Diffuse,
    Reflective,
    Dielectric,
}

/// A material of a scene description: its kind and its place in the list of
/// that kind.
#[derive(Clone, Copy, Debug, PartialEq, Eq)]
pub struct MaterialRef {
    pub kind: MaterialKind,
    pub index: usize,
}

/// `index` is the first place in `names` that holds `name`.
pub open spec fn is_first(names: Seq<Seq<char>>, name: Seq<char>, index: int) -> bool {
    &&& 0 <= index < names.len()
    &&& names[index] == name
    &&& forall|j: int| 0 <= j < index ==> #[trigger] names[j] != name
}

/// No entry of `names` is `name`.
pub open spec fn is_absent(names: Seq<Seq<char>>, name: Seq<char>) -> bool {
    forall|j: int| 0 <= j < names.len() ==> #[trigger] names[j] != name
}

/// The names of a list, each as its characters.
pub open spec fn names_of(list: Seq<String>) -> Seq<Seq<char>> {
    list.map_values(|s: String| s@)
}

/// The material that `name` resolves to: the first diffuse material of that
/// name; without one, the first reflective one; without one, the first
/// dielectric one.
pub open spec fn resolves_to(
    diffuse: Seq<Seq<char>>,
    reflective: Seq<Seq<char>>,
    dielectric: Seq<Seq<char>>,
    name: Seq<char>,
    found: Option<MaterialRef>,
) -> bool {
    match found {
        Some(MaterialRef { kind: MaterialKind::Diffuse, index }) => is_first(
            diffuse,
            name,
            index as int,
        ),
        Some(MaterialRef { kind: MaterialKind::Reflective, index }) => is_absent(diffuse, name)
            && is_first(reflective, name, index as int),
        Some(MaterialRef { kind: MaterialKind::Dielectric, index }) => is_absent(diffuse, name)
            && is_absent(reflective, name) && is_first(dielectric, name, index as int),
        None => is_absent(diffuse, name) && is_absent(reflective, name) && is_absent(
            dielectric,
            name,
        ),
    }
}

/// The first place in `names` that holds `name`, if any does.
pub fn position_of(names: &Vec<String>, name: &String) -> (r: Option<usize>)
    ensures
        match r {
            Some(i) => is_first(names_of(names@), name@, i as int),
            None => is_absent(names_of(names@), name@),
        },
{
    let mut i: usize = 0;
    while i < names.len()
        invariant
            i <= names@.len(),
            forall|j: int| 0 <= j < i ==> #[trigger] names_of(names@)[j] != name@,
        decreases names@.len() - i,
    {
        if names[i] == *name {
            return Some(i);
        }
        i = i + 1;
    }
    None
}

/// Looks `name` up among the materials of a scene description, given the
/// names of its diffuse, reflective and dielectric materials.
pub fn find_material(
    diffuse: &Vec<String>,
    reflective: &Vec<String>,
    dielectric: &Vec<String>,
    name: &String,
) -> (found: Option<MaterialRef>)
    ensures
        resolves_to(
            names_of(diffuse@),
            names_of(reflective@),
            names_of(dielectric@),
            name@,
            found,
        ),
{
    if let Some(index) = position_of(diffuse, name) {
        return Some(MaterialRef { kind: MaterialKind::Diffuse, index });
    }
    if let Some(index) = position_of(reflective, name) {
        return Some(MaterialRef { kind: MaterialKind::Reflective, index });
    }
    if let Some(index) = position_of(dielectric, name) {
        return Some(MaterialRef { kind: MaterialKind::Dielectric, index });
    }
    None
}

} // verus!
