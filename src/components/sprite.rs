//! Declarative render binding of an entity.

use vstd::prelude::*;

use crate::components::Component;
use crate::markup::text_is;
use crate::shaders::Shader;
use vstd::utf8::encode_utf8;

verus! {

/// Shader choice, colour (red, green, blue bytes) and texture bytes, read by
/// the render collaborator.
#[derive(Clone, Debug, PartialEq, Eq)]
pub struct SpriteComponent {
    pub shader: Shader,
    pub color: [u8; 3],
    pub texture: Option<Vec<u8>>,
}

/// Value of one hexadecimal digit.
pub open spec fn hex_digit(c: u8) -> Option<u8> {
    if 48 <= c <= 57 {
        Some((c - 48) as u8)
    } else if 97 <= c <= 102 {
        Some((c - 87) as u8)
    } else if 65 <= c <= 70 {
        Some((c - 55) as u8)
    } else {
        None
    }
}

/// Value of a two-byte group: two hexadecimal digits, or `+` and one.
pub open spec fn hex_pair(a: u8, b: u8) -> Option<u8> {
    if a == 43 {
        hex_digit(b)
    } else {
        match (hex_digit(a), hex_digit(b)) {
            (Some(x), Some(y)) => Some((16 * x + y) as u8),
            _ => None,
        }
    }
}

/// The bytes that text of two-byte hexadecimal groups spells; `None` when
/// the length is odd or a group is not hexadecimal.
pub open spec fn hex_bytes(t: Seq<u8>) -> Option<Seq<u8>>
    decreases t.len(),
{
    if t.len() == 0 {
        Some(Seq::empty())
    } else if t.len() == 1 {
        None
    } else {
        match (hex_bytes(t.take(t.len() - 2)), hex_pair(t[t.len() - 2], t[t.len() - 1])) {
            (Some(init), Some(last)) => Some(init.push(last)),
            _ => None,
        }
    }
}

/// The colour that hexadecimal text spells: its first three bytes, or black
/// when it does not spell three.
pub open spec fn hex_color(t: Seq<char>) -> [u8; 3] {
    match hex_bytes(encode_utf8(t)) {
        Some(v) => if v.len() >= 3 {
            [v[0], v[1], v[2]]
        } else {
            [0, 0, 0]
        },
        None => [0, 0, 0],
    }
}

/// The shader a sprite's child elements choose: the last `shader` child
/// that names a known shader, or the rainbow shader.
pub open spec fn sprite_shader(children: Seq<(String, Option<String>)>) -> Shader
    decreases children.len(),
{
    if children.len() == 0 {
        Shader::Rainbow
    } else {
        let (tag, value) = children.last();
        if tag@ == "shader"@ && value is Some && value.unwrap()@ == "solid"@ {
            Shader::Solid
        } else if tag@ == "shader"@ && value is Some && value.unwrap()@ == "texture"@ {
            Shader::Texture
        } else if tag@ == "shader"@ && value is Some && value.unwrap()@ == "rainbow"@ {
            Shader::Rainbow
        } else {
            sprite_shader(children.drop_last())
        }
    }
}

/// The value of the last child named `tag` that carries it.
pub open spec fn child_value(children: Seq<(String, Option<String>)>, tag: Seq<char>) -> Option<
    String,
>
    decreases children.len(),
{
    if children.len() == 0 {
        None
    } else if children.last().0@ == tag && children.last().1 is Some {
        children.last().1
    } else {
        child_value(children.drop_last(), tag)
    }
}

/// Value of one hexadecimal digit.
fn hex_digit_of(c: u8) -> (r: Option<u8>)
    ensures
        r == hex_digit(c),
{
    if 48 <= c && c <= 57 {
        Some(c - 48)
    } else if 97 <= c && c <= 102 {
        Some(c - 87)
    } else if 65 <= c && c <= 70 {
        Some(c - 55)
    } else {
        None
    }
}

/// The bytes hexadecimal text spells, two characters a byte.
pub fn decode_hex(s: &str) -> (r: Option<Vec<u8>>)
    ensures
        match r {
            Some(v) => hex_bytes(encode_utf8(s@)) == Some(v@),
            None => hex_bytes(encode_utf8(s@)) is None,
        },
{
    let b = s.as_bytes();
    assert(b@ == encode_utf8(s@));
    let n = b.len();
    if n % 2 == 1 {
        proof {
            lemma_odd_has_no_bytes(b@);
        }
        return None;
    }
    let mut out: Vec<u8> = Vec::new();
    let mut i: usize = 0;
    assert(b@.take(0) =~= Seq::<u8>::empty());
    while i < n
        invariant
            n == b@.len(),
            b@ == encode_utf8(s@),
            n % 2 == 0,
            i % 2 == 0,
            i <= n,
            hex_bytes(b@.take(i as int)) == Some(out@),
        decreases n - i,
    {
        let ghost t = b@.take(i + 2);
        assert(t.take(t.len() - 2) =~= b@.take(i as int));
        assert(t[t.len() - 2] == b@[i as int]);
        assert(t[t.len() - 1] == b@[i + 1]);
        let pair = if b[i] == 43 {
            hex_digit_of(b[i + 1])
        } else {
            match (hex_digit_of(b[i]), hex_digit_of(b[i + 1])) {
                (Some(x), Some(y)) => Some(16 * x + y),
                _ => None,
            }
        };
        assert(pair == hex_pair(b@[i as int], b@[i + 1]));
        assert(hex_bytes(t) == match (hex_bytes(t.take(t.len() - 2)), hex_pair(t[t.len() - 2], t[t.len() - 1])) {
            (Some(init), Some(last)) => Some(init.push(last)),
            _ => None,
        });
        match pair {
            Some(v) => out.push(v),
            None => {
                proof {
                    lemma_bad_prefix(b@, i + 2);
                }
                return None;
            },
        }
        i = i + 2;
    }
    assert(b@.take(n as int) =~= b@);
    Some(out)
}

proof fn lemma_odd_has_no_bytes(t: Seq<u8>)
    requires
        t.len() % 2 == 1,
    ensures
        hex_bytes(t) is None,
    decreases t.len(),
{
    if t.len() > 1 {
        lemma_odd_has_no_bytes(t.take(t.len() - 2));
    }
}

/// Text whose first `k` bytes spell nothing spells nothing.
proof fn lemma_bad_prefix(t: Seq<u8>, k: int)
    requires
        0 <= k <= t.len(),
        k % 2 == 0,
        hex_bytes(t.take(k)) is None,
    ensures
        hex_bytes(t) is None,
    decreases t.len() - k,
{
    if k < t.len() {
        if t.len() - k == 1 {
            lemma_odd_has_no_bytes(t);
        } else {
            let u = t.take(k + 2);
            assert(u.take(u.len() - 2) =~= t.take(k));
            lemma_bad_prefix(t, k + 2);
        }
    } else {
        assert(t.take(k) =~= t);
    }
}

/// The colour hexadecimal text spells: its first three bytes, or black.
pub fn color_from_hex(s: &str) -> (r: [u8; 3])
    ensures
        r == hex_color(s@),
{
    match decode_hex(s) {
        Some(v) => if v.len() >= 3 {
            [v[0], v[1], v[2]]
        } else {
            [0, 0, 0]
        },
        None => [0, 0, 0],
    }
}

/// The value of the last child named `tag` that carries it.
pub fn child_attribute(children: &Vec<(String, Option<String>)>, tag: &str) -> (r: Option<String>)
    ensures
        r == child_value(children@, tag@),
{
    let mut i: usize = children.len();
    assert(children@.subrange(0, i as int) =~= children@);
    while i > 0
        invariant
            i <= children@.len(),
            child_value(children@, tag@) == child_value(children@.subrange(0, i as int), tag@),
        decreases i,
    {
        let ghost prefix = children@.subrange(0, i as int);
        assert(prefix.drop_last() =~= children@.subrange(0, i - 1));
        if text_is(children[i - 1].0.as_str(), tag) {
            if let Some(v) = &children[i - 1].1 {
                return Some(v.clone());
            }
        }
        i = i - 1;
    }
    None
}

/// The sprite a description's child elements give, with the bytes the
/// loader read for its texture.
pub open spec fn sprite_from(children: Seq<(String, Option<String>)>, texture: Option<Vec<u8>>) -> Component {
    Component::Sprite(
        SpriteComponent {
            shader: sprite_shader(children),
            color: match child_value(children, "color"@) {
                Some(c) => hex_color(c@),
                None => [0u8, 0u8, 0u8],
            },
            texture: if child_value(children, "texture"@) is Some {
                texture
            } else {
                None
            },
        },
    )
}

impl SpriteComponent {
    /// Path of the texture file a sprite's children name, if any: the
    /// loader reads it and hands the bytes to `from_xml`.
    pub fn texture_path(children: &Vec<(String, Option<String>)>) -> (r: Option<String>)
        ensures
            r == child_value(children@, "texture"@),
    {
        child_attribute(children, "texture")
    }

    /// The sprite a description's child elements give: the last known
    /// `shader`, the colour of the last `color` (black when it does not
    /// spell one), and `texture` when a `texture` child names a file.
    pub fn from_xml(children: &Vec<(String, Option<String>)>, texture: Option<Vec<u8>>) -> (r:
        Component)
        ensures
            r == sprite_from(children@, texture),
    {
        let shader = shader_of(children);
        let color = match child_attribute(children, "color") {
            Some(c) => color_from_hex(c.as_str()),
            None => [0, 0, 0],
        };
        let texture = match child_attribute(children, "texture") {
            Some(_) => texture,
            None => None,
        };
        Component::Sprite(SpriteComponent { shader, color, texture })
    }
}

/// The shader a sprite's children choose.
fn shader_of(children: &Vec<(String, Option<String>)>) -> (r: Shader)
    ensures
        r == sprite_shader(children@),
{
    let mut i: usize = children.len();
    assert(children@.subrange(0, i as int) =~= children@);
    while i > 0
        invariant
            i <= children@.len(),
            sprite_shader(children@) == sprite_shader(children@.subrange(0, i as int)),
        decreases i,
    {
        let ghost prefix = children@.subrange(0, i as int);
        assert(prefix.drop_last() =~= children@.subrange(0, i - 1));
        if text_is(children[i - 1].0.as_str(), "shader") {
            if let Some(v) = &children[i - 1].1 {
                if text_is(v.as_str(), "solid") {
                    return Shader::Solid;
                } else if text_is(v.as_str(), "texture") {
                    return Shader::Texture;
                } else if text_is(v.as_str(), "rainbow") {
                    return Shader::Rainbow;
                }
            }
        }
        i = i - 1;
    }
    Shader::Rainbow
}

} // verus!
