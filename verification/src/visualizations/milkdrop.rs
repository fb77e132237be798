//! Key map and layer switches of the feedback ("milkdrop") visualization.
use vstd::prelude::*;
use crate::visualizations::spectrum::{lemma_palette_cycle, ColorPalette};

verus! {

/// What a key of the feedback visualization does. The layer and palette
/// keys act on `MilkdropLayers`; the others step one of the transform
/// settings up or down.
#[derive(Clone, Copy, Debug, PartialEq, Eq, Structural)]
pub enum MilkdropKey {
    ToggleWaveform,
    ToggleShapes,
    ToggleParticles,
    DecayUp,
    DecayDown,
    ZoomUp,
    ZoomDown,
    RotationUp,
    RotationDown,
    WarpUp,
    WarpDown,
    ReactivityUp,
    ReactivityDown,
    PaletteNext,
    PalettePrev,
}

/// The key map: `w`, `e`, `r` toggle the waveform, shape and particle
/// layers; `d`/`D` the trail decay, `z`/`Z` the zoom, `x`/`X` the rotation
/// speed, `c`/`C` the warp intensity and `v`/`V` the reactivity go up and
/// down; `p`/`P` step to the next and previous palette. Other keys are not
/// the visualization's.
pub open spec fn spec_milkdrop_key(c: char) -> Option<MilkdropKey> {
    if c == 'w' {
        Some(MilkdropKey::ToggleWaveform)
    } else if c == 'e' {
        Some(MilkdropKey::ToggleShapes)
    } else if c == 'r' {
        Some(MilkdropKey::ToggleParticles)
    } else if c == 'd' {
        Some(MilkdropKey::DecayUp)
    } else if c == 'D' {
        Some(MilkdropKey::DecayDown)
    } else if c == 'z' {
        Some(MilkdropKey::ZoomUp)
    } else if c == 'Z' {
        Some(MilkdropKey::ZoomDown)
    } else if c == 'x' {
        Some(MilkdropKey::RotationUp)
    } else if c == 'X' {
        Some(MilkdropKey::RotationDown)
    } else if c == 'c' {
        Some(MilkdropKey::WarpUp)
    } else if c == 'C' {
        Some(MilkdropKey::WarpDown)
    } else if c == 'v' {
        Some(MilkdropKey::ReactivityUp)
    } else if c == 'V' {
        Some(MilkdropKey::ReactivityDown)
    } else if c == 'p' {
        Some(MilkdropKey::PaletteNext)
    } else if c == 'P' {
        Some(MilkdropKey::PalettePrev)
    } else {
        None
    }
}

/// The action of key `c`, `None` for keys the visualization leaves alone.
pub fn milkdrop_key(c: char) -> (k: Option<MilkdropKey>)
    ensures
        k == spec_milkdrop_key(c),
{
    match c {
        'w' => Some(MilkdropKey::ToggleWaveform),
        'e' => Some(MilkdropKey::ToggleShapes),
        'r' => Some(MilkdropKey::ToggleParticles),
        'd' => Some(MilkdropKey::DecayUp),
        'D' => Some(MilkdropKey::DecayDown),
        'z' => Some(MilkdropKey::ZoomUp),
        'Z' => Some(MilkdropKey::ZoomDown),
        'x' => Some(MilkdropKey::RotationUp),
        'X' => Some(MilkdropKey::RotationDown),
        'c' => Some(MilkdropKey::WarpUp),
        'C' => Some(MilkdropKey::WarpDown),
        'v' => Some(MilkdropKey::ReactivityUp),
        'V' => Some(MilkdropKey::ReactivityDown),
        'p' => Some(MilkdropKey::PaletteNext),
        'P' => Some(MilkdropKey::PalettePrev),
        _ => None,
    }
}

/// The layers drawn and the palette of the feedback visualization.
#[derive(Clone, Copy, Debug, PartialEq, Eq, Structural)]
pub struct MilkdropLayers {
    pub waveform: bool,
    pub shapes: bool,
    pub particles: bool,
    pub palette: ColorPalette,
}

impl MilkdropLayers {
    /// All three layers on, in the synthwave palette.
    pub fn new() -> (l: Self)
        ensures
            l.waveform,
            l.shapes,
            l.particles,
            l.palette == ColorPalette::Synthwave,
    {
        MilkdropLayers { waveform: true, shapes: true, particles: true, palette: ColorPalette::Synthwave }
    }

    /// The layers after key action `k`: the toggles flip their layer, the
    /// palette keys step the palette, the setting steps leave the layers
    /// as they are.
    pub open spec fn spec_apply(self, k: MilkdropKey) -> MilkdropLayers {
        match k {
            MilkdropKey::ToggleWaveform => MilkdropLayers { waveform: !self.waveform, ..self },
            MilkdropKey::ToggleShapes => MilkdropLayers { shapes: !self.shapes, ..self },
            MilkdropKey::ToggleParticles => MilkdropLayers { particles: !self.particles, ..self },
            MilkdropKey::PaletteNext => MilkdropLayers { palette: self.palette.spec_next(), ..self },
            MilkdropKey::PalettePrev => MilkdropLayers { palette: self.palette.spec_prev(), ..self },
            _ => self,
        }
    }

    /// Applies key action `k` to the layers and the palette.
    pub fn apply(&mut self, k: MilkdropKey)
        ensures
            *final(self) == old(self).spec_apply(k),
    {
        match k {
            MilkdropKey::ToggleWaveform => self.waveform = !self.waveform,
            MilkdropKey::ToggleShapes => self.shapes = !self.shapes,
            MilkdropKey::ToggleParticles => self.particles = !self.particles,
            MilkdropKey::PaletteNext => self.palette = self.palette.next(),
            MilkdropKey::PalettePrev => self.palette = self.palette.prev(),
            _ => {},
        }
    }
}

/// A layer toggled twice is back as it was, and the palette keys undo each
/// other.
pub proof fn lemma_milkdrop_keys_undo(l: MilkdropLayers)
    ensures
        l.spec_apply(MilkdropKey::ToggleWaveform).spec_apply(MilkdropKey::ToggleWaveform) == l,
        l.spec_apply(MilkdropKey::ToggleShapes).spec_apply(MilkdropKey::ToggleShapes) == l,
        l.spec_apply(MilkdropKey::ToggleParticles).spec_apply(MilkdropKey::ToggleParticles) == l,
        l.spec_apply(MilkdropKey::PaletteNext).spec_apply(MilkdropKey::PalettePrev) == l,
        l.spec_apply(MilkdropKey::PalettePrev).spec_apply(MilkdropKey::PaletteNext) == l,
{
    lemma_palette_cycle(l.palette);
}


/// The feedback visualization's keys: `w`, `e` and `r` toggle the waveform,
/// shape and particle layers; `d`/`D`, `z`/`Z`, `x`/`X`, `c`/`C` and `v`/`V`
/// raise and lower the trail decay, zoom, rotation speed, warp intensity
/// and reactivity; `p`/`P` step the palette forward and back. No two keys
/// share an action, and every other key is left alone.
pub proof fn lemma_milkdrop_key_map(c: char, d: char)
    ensures
        spec_milkdrop_key('w') == Some(MilkdropKey::ToggleWaveform),
        spec_milkdrop_key('e') == Some(MilkdropKey::ToggleShapes),
        spec_milkdrop_key('r') == Some(MilkdropKey::ToggleParticles),
        spec_milkdrop_key('d') == Some(MilkdropKey::DecayUp),
        spec_milkdrop_key('D') == Some(MilkdropKey::DecayDown),
        spec_milkdrop_key('z') == Some(MilkdropKey::ZoomUp),
        spec_milkdrop_key('Z') == Some(MilkdropKey::ZoomDown),
        spec_milkdrop_key('x') == Some(MilkdropKey::RotationUp),
        spec_milkdrop_key('X') == Some(MilkdropKey::RotationDown),
        spec_milkdrop_key('c') == Some(MilkdropKey::WarpUp),
        spec_milkdrop_key('C') == Some(MilkdropKey::WarpDown),
        spec_milkdrop_key('v') == Some(MilkdropKey::ReactivityUp),
        spec_milkdrop_key('V') == Some(MilkdropKey::ReactivityDown),
        spec_milkdrop_key('p') == Some(MilkdropKey::PaletteNext),
        spec_milkdrop_key('P') == Some(MilkdropKey::PalettePrev),
        (c != 'w' && c != 'e' && c != 'r' && c != 'd' && c != 'D' && c != 'z' && c != 'Z' && c != 'x' && c != 'X' && c != 'c' && c != 'C' && c != 'v' && c != 'V' && c != 'p' && c != 'P') ==> spec_milkdrop_key(c) is None,
        spec_milkdrop_key(c) is Some && spec_milkdrop_key(c) == spec_milkdrop_key(d) ==> c == d,
{
}

/// A layer key flips its own layer and nothing else; a palette key steps
/// the palette forward or back and leaves the layers; the transform keys
/// leave the layers and the palette as they are.
pub proof fn lemma_milkdrop_layer_keys(l: MilkdropLayers, k: MilkdropKey)
    ensures
        ({
            let t = l.spec_apply(k);
            &&& k == MilkdropKey::ToggleWaveform ==> t.waveform == !l.waveform && t.shapes == l.shapes
                && t.particles == l.particles && t.palette == l.palette
            &&& k == MilkdropKey::ToggleShapes ==> t.shapes == !l.shapes && t.waveform == l.waveform
                && t.particles == l.particles && t.palette == l.palette
            &&& k == MilkdropKey::ToggleParticles ==> t.particles == !l.particles && t.waveform
                == l.waveform && t.shapes == l.shapes && t.palette == l.palette
            &&& k == MilkdropKey::PaletteNext ==> t.palette.spec_index() == (l.palette.spec_index() + 1)
                % 12 && t.waveform == l.waveform && t.shapes == l.shapes && t.particles == l.particles
            &&& k == MilkdropKey::PalettePrev ==> t.palette.spec_index() == (l.palette.spec_index() + 11)
                % 12 && t.waveform == l.waveform && t.shapes == l.shapes && t.particles == l.particles
            &&& (k != MilkdropKey::ToggleWaveform && k != MilkdropKey::ToggleShapes && k
                != MilkdropKey::ToggleParticles && k != MilkdropKey::PaletteNext && k
                != MilkdropKey::PalettePrev) ==> t == l
        }),
{
    lemma_palette_cycle(l.palette);
    lemma_palette_cycle(l.palette.spec_prev());
}

} // verus!
