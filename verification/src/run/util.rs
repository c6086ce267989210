//! Tables of named entities that take each name once.

use vstd::hash_map::StringHashMap;
use vstd::prelude::*;

verus! {

/// An error when a name is put to use.
#[derive(Debug)]
pub enum EntityError {
    /// Two entities of one kind go by the same name.
    Duplicate { name: String, kind: &'static str },
}

impl EntityError {
    /// The error for a second entity of `kind` called `name`.
    pub fn duplicate(kind: &'static str, name: String) -> (e: Self)
        ensures
            e == (EntityError::Duplicate { name, kind }),
    {
        EntityError::Duplicate { kind, name }
    }
}

/// A table from names to values: the hashed map of the standard library,
/// keyed by strings, as `vstd` specifies it.
pub type Table<V> = StringHashMap<V>;

/// Puts what `f` makes into `map` under `name`, unless the name is taken:
/// then `f` is not called, the table stays as it is, and the error tells the
/// name and the kind of entity.
pub fn try_insert<V, F>(name: String, map: &mut Table<V>, f: F, kind: &'static str) -> (r: Result<
    (),
    EntityError,
>) where F: FnOnce() -> V
    requires
        f.requires(()),
    ensures
        old(map)@.dom().contains(name@) ==> final(map)@ == old(map)@ && (r matches Err(
            EntityError::Duplicate { name: taken, kind: of },
        ) && taken@ == name@ && of == kind),
        !old(map)@.dom().contains(name@) ==> r is Ok && final(map)@.dom().contains(name@)
            && f.ensures((), final(map)@[name@]) && final(map)@ == old(map)@.insert(
            name@,
            final(map)@[name@],
        ),
{
    if map.contains_key(name.as_str()) {
        return Err(EntityError::duplicate(kind, name));
    }
    let value = f();
    map.insert(name, value);
    Ok(())
}

} // verus!
