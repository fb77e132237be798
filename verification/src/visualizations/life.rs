//! Render modes of the Game of Life visualization.
use vstd::prelude::*;
use crate::text::str_eq;

verus! {

/// How the Life grid is drawn: one character per cell, two cells per
/// terminal cell with half blocks, or eight with braille dots.
#[derive(Clone, Copy, Debug, PartialEq, Eq, Structural)]
pub enum RenderMode {
    Character,
    HalfBlock,
    Braille,
}

impl RenderMode {
    /// The mode's name as used in saved state.
    pub open spec fn spec_name(self) -> Seq<char> {
        match self {
            RenderMode::Character => "character"@,
            RenderMode::HalfBlock => "halfblock"@,
            RenderMode::Braille => "braille"@,
        }
    }

    /// The mode that follows: character, half block, braille, and round.
    pub open spec fn spec_next(self) -> RenderMode {
        match self {
            RenderMode::Character => RenderMode::HalfBlock,
            RenderMode::HalfBlock => RenderMode::Braille,
            RenderMode::Braille => RenderMode::Character,
        }
    }

    /// The mode named `s`, if there is one.
    pub open spec fn spec_from_name(s: Seq<char>) -> Option<RenderMode> {
        if s == "character"@ {
            Some(RenderMode::Character)
        } else if s == "halfblock"@ {
            Some(RenderMode::HalfBlock)
        } else if s == "braille"@ {
            Some(RenderMode::Braille)
        } else {
            None
        }
    }

    /// The mode that follows in the cycle.
    pub fn next(self) -> (m: RenderMode)
        ensures
            m == self.spec_next(),
    {
        match self {
            RenderMode::Character => RenderMode::HalfBlock,
            RenderMode::HalfBlock => RenderMode::Braille,
            RenderMode::Braille => RenderMode::Character,
        }
    }

    /// The mode's name as used in saved state.
    pub fn name(self) -> (s: &'static str)
        ensures
            s@ == self.spec_name(),
    {
        match self {
            RenderMode::Character => "character",
            RenderMode::HalfBlock => "halfblock",
            RenderMode::Braille => "braille",
        }
    }

    /// The mode named `name`, or `None` for any other text.
    pub fn from_name(name: &str) -> (r: Option<RenderMode>)
        ensures
            r == Self::spec_from_name(name@),
    {
        if str_eq(name, "character") {
            Some(RenderMode::Character)
        } else if str_eq(name, "halfblock") {
            Some(RenderMode::HalfBlock)
        } else if str_eq(name, "braille") {
            Some(RenderMode::Braille)
        } else {
            None
        }
    }
}

/// The render mode after key `c` and whether Life handled the key: `m`
/// steps to the next mode; other keys are not Life's.
pub open spec fn spec_life_on_key(mode: RenderMode, c: char) -> (RenderMode, bool) {
    if c == 'm' {
        (mode.spec_next(), true)
    } else {
        (mode, false)
    }
}

/// The render mode after key `c` and whether Life handled the key.
pub fn life_on_key(mode: RenderMode, c: char) -> (r: (RenderMode, bool))
    ensures
        r == spec_life_on_key(mode, c),
{
    if c == 'm' {
        (mode.next(), true)
    } else {
        (mode, false)
    }
}

/// Three steps of the cycle come back to the starting mode, and every mode
/// is found again under its own name.
pub proof fn lemma_render_mode_laws(m: RenderMode)
    ensures
        m.spec_next().spec_next().spec_next() == m,
        m.spec_next() != m,
        RenderMode::spec_from_name(m.spec_name()) == Some(m),
{
    reveal_strlit("character");
    reveal_strlit("halfblock");
    reveal_strlit("braille");
    assert("character"@ != "halfblock"@) by {
        assert("character"@[0] != "halfblock"@[0]);
    }
    assert("character"@ != "braille"@) by {
        assert("character"@.len() != "braille"@.len());
    }
    assert("halfblock"@ != "braille"@) by {
        assert("halfblock"@.len() != "braille"@.len());
    }
}


/// The modes are named `character`, `halfblock` and `braille`, each name
/// finds its mode, and they cycle in that order, braille coming back to
/// character. The `m` key steps Life's mode and is handled; any other key
/// leaves the mode and is not handled.
pub proof fn lemma_render_mode_table(mode: RenderMode, c: char)
    ensures
        RenderMode::Character.spec_name() == "character"@,
        RenderMode::HalfBlock.spec_name() == "halfblock"@,
        RenderMode::Braille.spec_name() == "braille"@,
        RenderMode::spec_from_name("character"@) == Some(RenderMode::Character),
        RenderMode::spec_from_name("halfblock"@) == Some(RenderMode::HalfBlock),
        RenderMode::spec_from_name("braille"@) == Some(RenderMode::Braille),
        RenderMode::Character.spec_next() == RenderMode::HalfBlock,
        RenderMode::HalfBlock.spec_next() == RenderMode::Braille,
        RenderMode::Braille.spec_next() == RenderMode::Character,
        spec_life_on_key(mode, 'm') == (mode.spec_next(), true),
        c != 'm' ==> spec_life_on_key(mode, c) == (mode, false),
{
    lemma_render_mode_laws(RenderMode::Character);
    lemma_render_mode_laws(RenderMode::HalfBlock);
    lemma_render_mode_laws(RenderMode::Braille);
}

} // verus!
