//! Declarative audio binding of an entity.

use vstd::prelude::*;

use crate::components::Component;
use crate::markup::{attribute, last_value, text_is};

verus! {

/// Whether the entity is muted and the paths of its background music and
/// sound effect; the paths are resolved by the audio collaborator.
#[derive(Clone, Debug, PartialEq, Eq)]
pub struct AudioComponent {
    pub muted: bool,
    pub bgm: Option<String>,
    pub sfx: Option<String>,
}

/// Some attribute is named `name`.
pub open spec fn has_attribute(attrs: Seq<(String, String)>, name: Seq<char>) -> bool {
    exists|i: int| 0 <= i < attrs.len() && (#[trigger] attrs[i]).0@ == name
}

/// The audio binding a description's attributes give.
pub open spec fn audio_from(attrs: Seq<(String, String)>) -> Component {
    Component::Audio(
        AudioComponent {
            muted: has_attribute(attrs, "muted"@),
            bgm: last_value(attrs, "bgm"@),
            sfx: None,
        },
    )
}

impl AudioComponent {
    /// The audio binding a description's attributes give: muted when a
    /// `muted` attribute is present, whatever its value, and the music of
    /// the last `bgm` attribute.
    pub fn from_xml(attrs: &Vec<(String, String)>) -> (c: Component)
        ensures
            c == audio_from(attrs@),
    {
        let mut muted = false;
        let mut i: usize = 0;
        while i < attrs.len()
            invariant
                i <= attrs@.len(),
                muted == exists|k: int| 0 <= k < i && (#[trigger] attrs@[k]).0@ == "muted"@,
            decreases attrs@.len() - i,
        {
            if text_is(attrs[i].0.as_str(), "muted") {
                muted = true;
            }
            i = i + 1;
        }
        Component::Audio(AudioComponent { muted, bgm: attribute(attrs, "bgm"), sfx: None })
    }

    /// An unmuted audio binding with no sounds.
    pub fn new() -> (c: Component)
        ensures
            c == Component::Audio(AudioComponent { muted: false, bgm: None, sfx: None }),
    {
        Component::Audio(AudioComponent { muted: false, bgm: None, sfx: None })
    }
}

} // verus!
