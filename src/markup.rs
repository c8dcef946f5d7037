//! Plain data read from a scene description: element names and attribute
//! pairs, handed over by the loader that reads the file.

use vstd::prelude::*;

verus! {

/// One element of an entity's description: its tag name, its attributes
/// in document order, and its child elements as (tag name, attribute named
/// like the tag) pairs. `texture` holds the bytes of the texture file the
/// loader read for a sprite, if any.
#[derive(Clone, Debug)]
pub struct SceneElement {
    pub tag: String,
    pub attributes: Vec<(String, String)>,
    pub children: Vec<(String, Option<String>)>,
    pub texture: Option<Vec<u8>>,
}

/// Value of the last attribute named `name` among `attrs`, if any.
pub open spec fn last_value(attrs: Seq<(String, String)>, name: Seq<char>) -> Option<String>
    decreases attrs.len(),
{
    if attrs.len() == 0 {
        None
    } else if attrs.last().0@ == name {
        Some(attrs.last().1)
    } else {
        last_value(attrs.drop_last(), name)
    }
}

/// Whether `s` reads exactly `text`.
pub fn text_is(s: &str, text: &str) -> (r: bool)
    ensures
        r == (s@ == text@),
{
    let a = s.to_owned();
    let b = text.to_owned();
    a == b
}

/// Value of the last attribute named `name`.
pub fn attribute(attrs: &Vec<(String, String)>, name: &str) -> (r: Option<String>)
    ensures
        r == last_value(attrs@, name@),
{
    let mut i: usize = attrs.len();
    assert(attrs@.subrange(0, i as int) =~= attrs@);
    while i > 0
        invariant
            i <= attrs@.len(),
            last_value(attrs@, name@) == last_value(attrs@.subrange(0, i as int), name@),
        decreases i,
    {
        let ghost prefix = attrs@.subrange(0, i as int);
        assert(prefix.drop_last() =~= attrs@.subrange(0, i - 1));
        if text_is(attrs[i - 1].0.as_str(), name) {
            return Some(attrs[i - 1].1.clone());
        }
        i = i - 1;
    }
    assert(attrs@.subrange(0, 0).len() == 0);
    None
}

} // verus!
