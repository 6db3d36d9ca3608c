//! The shaders that bring the picture to the size of the window.
use crate::text::{chars_of, spells};
use vstd::prelude::*;

verus! {

/// A shader.
#[derive(Copy, Clone, Debug, PartialEq, Eq, Structural)]
pub enum ShaderMode {
    /// Nearest pixel, whole factors.
    Sharp,
    /// Blur, scanlines and vignette.
    Crt,
    /// Scale2x: diagonals smoothed by colour equality.
    Pixely,
    /// hq4x: blend weights out of a table of neighbourhoods.
    Hq4x,
}

/// The shader that a name stands for.
pub open spec fn shader_named(name: Seq<char>) -> Option<ShaderMode> {
    if name == "sharp"@ {
        Some(ShaderMode::Sharp)
    } else if name == "crt"@ {
        Some(ShaderMode::Crt)
    } else if name == "pixely"@ || name == "scale2x"@ || name == "epx"@ {
        Some(ShaderMode::Pixely)
    } else if name == "hq4x"@ || name == "hqx"@ {
        Some(ShaderMode::Hq4x)
    } else {
        None
    }
}

impl ShaderMode {
    /// Its name.
    pub open spec fn name(self) -> Seq<char> {
        match self {
            ShaderMode::Sharp => "sharp"@,
            ShaderMode::Crt => "crt"@,
            ShaderMode::Pixely => "pixely"@,
            ShaderMode::Hq4x => "hq4x"@,
        }
    }

    /// The shader after it in the cycle.
    pub open spec fn next(self) -> ShaderMode {
        match self {
            ShaderMode::Sharp => ShaderMode::Crt,
            ShaderMode::Crt => ShaderMode::Pixely,
            ShaderMode::Pixely => ShaderMode::Hq4x,
            ShaderMode::Hq4x => ShaderMode::Sharp,
        }
    }

    /// The shader that a name stands for.
    pub fn parse(s: &str) -> (r: Option<Self>)
        ensures
            r == shader_named(s@),
    {
        let name = chars_of(s);
        if spells(&name, "sharp") {
            Some(ShaderMode::Sharp)
        } else if spells(&name, "crt") {
            Some(ShaderMode::Crt)
        } else if spells(&name, "pixely") || spells(&name, "scale2x") || spells(&name, "epx") {
            Some(ShaderMode::Pixely)
        } else if spells(&name, "hq4x") || spells(&name, "hqx") {
            Some(ShaderMode::Hq4x)
        } else {
            None
        }
    }

    /// The next shader of the cycle.
    pub fn toggle(self) -> (r: Self)
        ensures
            r == self.next(),
    {
        match self {
            ShaderMode::Sharp => ShaderMode::Crt,
            ShaderMode::Crt => ShaderMode::Pixely,
            ShaderMode::Pixely => ShaderMode::Hq4x,
            ShaderMode::Hq4x => ShaderMode::Sharp,
        }
    }

    /// Its name.
    pub fn label(self) -> (r: &'static str)
        ensures
            r@ == self.name(),
    {
        match self {
            ShaderMode::Sharp => "sharp",
            ShaderMode::Crt => "crt",
            ShaderMode::Pixely => "pixely",
            ShaderMode::Hq4x => "hq4x",
        }
    }
}

/// A shader's name stands for the shader.
pub proof fn law_labels_parse(m: ShaderMode)
    ensures
        shader_named(m.name()) == Some(m),
{
    reveal_strlit("sharp");
    reveal_strlit("crt");
    reveal_strlit("pixely");
    reveal_strlit("scale2x");
    reveal_strlit("epx");
    reveal_strlit("hq4x");
    reveal_strlit("hqx");
    assert("sharp"@.len() == 5 && "crt"@.len() == 3 && "pixely"@.len() == 6 && "hq4x"@.len() == 4);
    assert("scale2x"@.len() == 7 && "epx"@.len() == 3 && "hqx"@.len() == 3);
}

/// Four steps go round the cycle, and no fewer do.
pub proof fn law_cycle_of_four(m: ShaderMode)
    ensures
        m.next().next().next().next() == m,
        m.next() != m,
        m.next().next() != m,
        m.next().next().next() != m,
{
}

} // verus!
