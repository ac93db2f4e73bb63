//! The visualizer: its modes and palettes, and the parts of its drawing that are
//! whole numbers: the braille grid, the rings of past frames, glyphs and meters.

use vstd::prelude::*;
use vstd::utf8::is_ascii_chars;

use crate::text::{ascii_lower, lowercase, same, to_lowercase};
use crate::tui::screen::{fits, max_int, min_int, sub0, within, Rect};

verus! {

// ---------------------------------------------------------------------------
// Modes
// ---------------------------------------------------------------------------

/// What the visualizer draws.
#[derive(Clone, Copy, Debug, PartialEq, Eq, Structural)]
pub enum VisualizerMode {
    /// Classic LED-segment spectrum bars (default).
    Bars,
    /// Raw PCM waveform drawn as a continuous braille line.
    Oscilloscope,
    /// Spectrum bars mapped to polar coordinates.
    Radial,
    /// Frequency-driven particle system.
    Particles,
    /// Stereo phase scope: left against right channel.
    Lissajous,
    /// Time by frequency heatmap, newest at the bottom.
    Spectrogram,
    /// Left and right waveforms, stacked.
    StereoWaveform,
    /// Analog-style needle VU meters.
    VuMeter,
    /// Filled spectrum curve with decay trails.
    Flame,
    /// Overlapping sine waves.
    Plasma,
    /// Fly-through tunnel.
    Tunnel,
    /// Rotating wireframe mesh.
    Wireframe,
    /// Blobs driven by frequency bands.
    Metaballs,
    /// Starfield with beat-driven acceleration.
    Starfield,
    /// Heightmap terrain from spectrum history.
    Terrain,
    /// Overlapping rotating line grids.
    Moire,
    /// Waveform mirrored around the center.
    Kaleidoscope,
    /// Julia fractal with an audio-driven constant.
    Julia,
    /// Archimedean spiral.
    Spiral,
    /// Ripple interference of wave sources.
    Interference,
    /// Wireframe tunnel with reactive stars.
    Wormhole,
    /// Digital rain.
    Matrix,
}

/// The mode that a name in lower case stands for; bars for any other text.
pub open spec fn mode_named(s: Seq<char>) -> VisualizerMode {
    if s == "bars"@ || s == "spectrum"@ {
        VisualizerMode::Bars
    } else if s == "oscilloscope"@ || s == "scope"@ {
        VisualizerMode::Oscilloscope
    } else if s == "radial"@ {
        VisualizerMode::Radial
    } else if s == "particles"@ || s == "particle"@ {
        VisualizerMode::Particles
    } else if s == "lissajous"@ || s == "phase"@ {
        VisualizerMode::Lissajous
    } else if s == "spectrogram"@ || s == "waterfall"@ {
        VisualizerMode::Spectrogram
    } else if s == "stereo"@ || s == "stereo_waveform"@ || s == "stereo-waveform"@ {
        VisualizerMode::StereoWaveform
    } else if s == "vu"@ || s == "vu_meter"@ || s == "vu-meter"@ || s == "meter"@ {
        VisualizerMode::VuMeter
    } else if s == "flame"@ || s == "mountain"@ {
        VisualizerMode::Flame
    } else if s == "plasma"@ {
        VisualizerMode::Plasma
    } else if s == "tunnel"@ {
        VisualizerMode::Tunnel
    } else if s == "wireframe"@ || s == "wire"@ || s == "3d"@ {
        VisualizerMode::Wireframe
    } else if s == "metaballs"@ || s == "blobs"@ {
        VisualizerMode::Metaballs
    } else if s == "starfield"@ || s == "stars"@ {
        VisualizerMode::Starfield
    } else if s == "terrain"@ || s == "landscape"@ || s == "pleasures"@ {
        VisualizerMode::Terrain
    } else if s == "moire"@ || s == "moir\u{e9}"@ {
        VisualizerMode::Moire
    } else if s == "kaleidoscope"@ || s == "kaleid"@ || s == "kaleido"@ {
        VisualizerMode::Kaleidoscope
    } else if s == "julia"@ || s == "fractal"@ {
        VisualizerMode::Julia
    } else if s == "spiral"@ || s == "hypno"@ {
        VisualizerMode::Spiral
    } else if s == "interference"@ || s == "ripple"@ || s == "ripples"@ {
        VisualizerMode::Interference
    } else if s == "wormhole"@ || s == "wormholes"@ {
        VisualizerMode::Wormhole
    } else if s == "matrix"@ || s == "rain"@ || s == "cmatrix"@ {
        VisualizerMode::Matrix
    } else {
        VisualizerMode::Bars
    }
}

/// The name of a mode in the configuration.
pub open spec fn mode_name(m: VisualizerMode) -> Seq<char> {
    match m {
        VisualizerMode::Bars => "bars"@,
        VisualizerMode::Oscilloscope => "oscilloscope"@,
        VisualizerMode::Radial => "radial"@,
        VisualizerMode::Particles => "particles"@,
        VisualizerMode::Lissajous => "lissajous"@,
        VisualizerMode::Spectrogram => "spectrogram"@,
        VisualizerMode::StereoWaveform => "stereo_waveform"@,
        VisualizerMode::VuMeter => "vu_meter"@,
        VisualizerMode::Flame => "flame"@,
        VisualizerMode::Plasma => "plasma"@,
        VisualizerMode::Tunnel => "tunnel"@,
        VisualizerMode::Wireframe => "wireframe"@,
        VisualizerMode::Metaballs => "metaballs"@,
        VisualizerMode::Starfield => "starfield"@,
        VisualizerMode::Terrain => "terrain"@,
        VisualizerMode::Moire => "moire"@,
        VisualizerMode::Kaleidoscope => "kaleidoscope"@,
        VisualizerMode::Julia => "julia"@,
        VisualizerMode::Spiral => "spiral"@,
        VisualizerMode::Interference => "interference"@,
        VisualizerMode::Wormhole => "wormhole"@,
        VisualizerMode::Matrix => "matrix"@,
    }
}

/// What a mode is called on screen.
pub open spec fn mode_label(m: VisualizerMode) -> Seq<char> {
    match m {
        VisualizerMode::Bars => "bars"@,
        VisualizerMode::Oscilloscope => "oscilloscope"@,
        VisualizerMode::Radial => "radial"@,
        VisualizerMode::Particles => "particles"@,
        VisualizerMode::Lissajous => "lissajous"@,
        VisualizerMode::Spectrogram => "spectrogram"@,
        VisualizerMode::StereoWaveform => "stereo waveform"@,
        VisualizerMode::VuMeter => "vu meter"@,
        VisualizerMode::Flame => "flame"@,
        VisualizerMode::Plasma => "plasma"@,
        VisualizerMode::Tunnel => "tunnel"@,
        VisualizerMode::Wireframe => "wireframe"@,
        VisualizerMode::Metaballs => "metaballs"@,
        VisualizerMode::Starfield => "starfield"@,
        VisualizerMode::Terrain => "pleasures"@,
        VisualizerMode::Moire => "moir\u{e9}"@,
        VisualizerMode::Kaleidoscope => "kaleidoscope"@,
        VisualizerMode::Julia => "julia fractal"@,
        VisualizerMode::Spiral => "spiral"@,
        VisualizerMode::Interference => "interference"@,
        VisualizerMode::Wormhole => "wormhole"@,
        VisualizerMode::Matrix => "matrix"@,
    }
}

/// All modes, in rotation order.
pub open spec fn rotation() -> Seq<VisualizerMode> {
    seq![
        VisualizerMode::Bars,
        VisualizerMode::Oscilloscope,
        VisualizerMode::Radial,
        VisualizerMode::Particles,
        VisualizerMode::Lissajous,
        VisualizerMode::Spectrogram,
        VisualizerMode::StereoWaveform,
        VisualizerMode::VuMeter,
        VisualizerMode::Flame,
        VisualizerMode::Plasma,
        VisualizerMode::Tunnel,
        VisualizerMode::Wireframe,
        VisualizerMode::Metaballs,
        VisualizerMode::Starfield,
        VisualizerMode::Terrain,
        VisualizerMode::Moire,
        VisualizerMode::Kaleidoscope,
        VisualizerMode::Julia,
        VisualizerMode::Spiral,
        VisualizerMode::Interference,
        VisualizerMode::Wormhole,
        VisualizerMode::Matrix,
    ]
}

/// The place of a mode in the rotation.
pub open spec fn mode_index(m: VisualizerMode) -> int {
    match m {
        VisualizerMode::Bars => 0,
        VisualizerMode::Oscilloscope => 1,
        VisualizerMode::Radial => 2,
        VisualizerMode::Particles => 3,
        VisualizerMode::Lissajous => 4,
        VisualizerMode::Spectrogram => 5,
        VisualizerMode::StereoWaveform => 6,
        VisualizerMode::VuMeter => 7,
        VisualizerMode::Flame => 8,
        VisualizerMode::Plasma => 9,
        VisualizerMode::Tunnel => 10,
        VisualizerMode::Wireframe => 11,
        VisualizerMode::Metaballs => 12,
        VisualizerMode::Starfield => 13,
        VisualizerMode::Terrain => 14,
        VisualizerMode::Moire => 15,
        VisualizerMode::Kaleidoscope => 16,
        VisualizerMode::Julia => 17,
        VisualizerMode::Spiral => 18,
        VisualizerMode::Interference => 19,
        VisualizerMode::Wormhole => 20,
        VisualizerMode::Matrix => 21,
    }
}

/// The mode behind another in the rotation, the first behind the last.
pub open spec fn next_mode(m: VisualizerMode) -> VisualizerMode {
    rotation()[(mode_index(m) + 1) % rotation().len() as int]
}

/// The mode some steps further in the rotation.
pub open spec fn modes_on(m: VisualizerMode, steps: nat) -> VisualizerMode
    decreases steps,
{
    if steps == 0 {
        m
    } else {
        next_mode(modes_on(m, (steps - 1) as nat))
    }
}

impl VisualizerMode {
    /// Reads a mode's name, whatever its case; bars if there is no such mode.
    pub fn parse(s: &str) -> (r: Self)
        ensures
            r == mode_named(lowercase(s@)),
            is_ascii_chars(s@) ==> r == mode_named(ascii_lower(s@)),
    {
        let lower = to_lowercase(s);
        Self::from_lowercase(lower.as_str())
    }

    /// Reads a mode's name in lower case; bars if there is no such mode.
    pub fn from_lowercase(s: &str) -> (r: Self)
        ensures
            r == mode_named(s@),
    {
        if same(s, "bars") || same(s, "spectrum") {
            VisualizerMode::Bars
        } else if same(s, "oscilloscope") || same(s, "scope") {
            VisualizerMode::Oscilloscope
        } else if same(s, "radial") {
            VisualizerMode::Radial
        } else if same(s, "particles") || same(s, "particle") {
            VisualizerMode::Particles
        } else if same(s, "lissajous") || same(s, "phase") {
            VisualizerMode::Lissajous
        } else if same(s, "spectrogram") || same(s, "waterfall") {
            VisualizerMode::Spectrogram
        } else if same(s, "stereo") || same(s, "stereo_waveform") || same(s, "stereo-waveform") {
            VisualizerMode::StereoWaveform
        } else if same(s, "vu") || same(s, "vu_meter") || same(s, "vu-meter") || same(s, "meter") {
            VisualizerMode::VuMeter
        } else if same(s, "flame") || same(s, "mountain") {
            VisualizerMode::Flame
        } else if same(s, "plasma") {
            VisualizerMode::Plasma
        } else if same(s, "tunnel") {
            VisualizerMode::Tunnel
        } else if same(s, "wireframe") || same(s, "wire") || same(s, "3d") {
            VisualizerMode::Wireframe
        } else if same(s, "metaballs") || same(s, "blobs") {
            VisualizerMode::Metaballs
        } else if same(s, "starfield") || same(s, "stars") {
            VisualizerMode::Starfield
        } else if same(s, "terrain") || same(s, "landscape") || same(s, "pleasures") {
            VisualizerMode::Terrain
        } else if same(s, "moire") || same(s, "moir\u{e9}") {
            VisualizerMode::Moire
        } else if same(s, "kaleidoscope") || same(s, "kaleid") || same(s, "kaleido") {
            VisualizerMode::Kaleidoscope
        } else if same(s, "julia") || same(s, "fractal") {
            VisualizerMode::Julia
        } else if same(s, "spiral") || same(s, "hypno") {
            VisualizerMode::Spiral
        } else if same(s, "interference") || same(s, "ripple") || same(s, "ripples") {
            VisualizerMode::Interference
        } else if same(s, "wormhole") || same(s, "wormholes") {
            VisualizerMode::Wormhole
        } else if same(s, "matrix") || same(s, "rain") || same(s, "cmatrix") {
            VisualizerMode::Matrix
        } else {
            VisualizerMode::Bars
        }
    }

    /// The next mode in the rotation.
    pub fn next(self) -> (r: Self)
        ensures
            r == next_mode(self),
    {
        assert(rotation().len() == 22);
        match self {
            VisualizerMode::Bars => VisualizerMode::Oscilloscope,
            VisualizerMode::Oscilloscope => VisualizerMode::Radial,
            VisualizerMode::Radial => VisualizerMode::Particles,
            VisualizerMode::Particles => VisualizerMode::Lissajous,
            VisualizerMode::Lissajous => VisualizerMode::Spectrogram,
            VisualizerMode::Spectrogram => VisualizerMode::StereoWaveform,
            VisualizerMode::StereoWaveform => VisualizerMode::VuMeter,
            VisualizerMode::VuMeter => VisualizerMode::Flame,
            VisualizerMode::Flame => VisualizerMode::Plasma,
            VisualizerMode::Plasma => VisualizerMode::Tunnel,
            VisualizerMode::Tunnel => VisualizerMode::Wireframe,
            VisualizerMode::Wireframe => VisualizerMode::Metaballs,
            VisualizerMode::Metaballs => VisualizerMode::Starfield,
            VisualizerMode::Starfield => VisualizerMode::Terrain,
            VisualizerMode::Terrain => VisualizerMode::Moire,
            VisualizerMode::Moire => VisualizerMode::Kaleidoscope,
            VisualizerMode::Kaleidoscope => VisualizerMode::Julia,
            VisualizerMode::Julia => VisualizerMode::Spiral,
            VisualizerMode::Spiral => VisualizerMode::Interference,
            VisualizerMode::Interference => VisualizerMode::Wormhole,
            VisualizerMode::Wormhole => VisualizerMode::Matrix,
            VisualizerMode::Matrix => VisualizerMode::Bars,
        }
    }

    /// The name for the configuration.
    pub fn as_str(self) -> (r: &'static str)
        ensures
            r@ == mode_name(self),
    {
        match self {
            VisualizerMode::Bars => "bars",
            VisualizerMode::Oscilloscope => "oscilloscope",
            VisualizerMode::Radial => "radial",
            VisualizerMode::Particles => "particles",
            VisualizerMode::Lissajous => "lissajous",
            VisualizerMode::Spectrogram => "spectrogram",
            VisualizerMode::StereoWaveform => "stereo_waveform",
            VisualizerMode::VuMeter => "vu_meter",
            VisualizerMode::Flame => "flame",
            VisualizerMode::Plasma => "plasma",
            VisualizerMode::Tunnel => "tunnel",
            VisualizerMode::Wireframe => "wireframe",
            VisualizerMode::Metaballs => "metaballs",
            VisualizerMode::Starfield => "starfield",
            VisualizerMode::Terrain => "terrain",
            VisualizerMode::Moire => "moire",
            VisualizerMode::Kaleidoscope => "kaleidoscope",
            VisualizerMode::Julia => "julia",
            VisualizerMode::Spiral => "spiral",
            VisualizerMode::Interference => "interference",
            VisualizerMode::Wormhole => "wormhole",
            VisualizerMode::Matrix => "matrix",
        }
    }

    /// The name for status messages.
    pub fn label(self) -> (r: &'static str)
        ensures
            r@ == mode_label(self),
    {
        match self {
            VisualizerMode::Bars => "bars",
            VisualizerMode::Oscilloscope => "oscilloscope",
            VisualizerMode::Radial => "radial",
            VisualizerMode::Particles => "particles",
            VisualizerMode::Lissajous => "lissajous",
            VisualizerMode::Spectrogram => "spectrogram",
            VisualizerMode::StereoWaveform => "stereo waveform",
            VisualizerMode::VuMeter => "vu meter",
            VisualizerMode::Flame => "flame",
            VisualizerMode::Plasma => "plasma",
            VisualizerMode::Tunnel => "tunnel",
            VisualizerMode::Wireframe => "wireframe",
            VisualizerMode::Metaballs => "metaballs",
            VisualizerMode::Starfield => "starfield",
            VisualizerMode::Terrain => "pleasures",
            VisualizerMode::Moire => "moir\u{e9}",
            VisualizerMode::Kaleidoscope => "kaleidoscope",
            VisualizerMode::Julia => "julia fractal",
            VisualizerMode::Spiral => "spiral",
            VisualizerMode::Interference => "interference",
            VisualizerMode::Wormhole => "wormhole",
            VisualizerMode::Matrix => "matrix",
        }
    }
}

/// How the names of modes are spelled, as far as it tells them apart.
proof fn spellings()
    ensures
        "bars"@.len() == 4 && "bars"@[0] == 'b' && "bars"@[1] == 'a' && "bars"@[2] == 'r',
        "spectrum"@.len() == 8 && "spectrum"@[0] == 's' && "spectrum"@[1] == 'p' && "spectrum"@[2] == 'e',
        "oscilloscope"@.len() == 12 && "oscilloscope"@[0] == 'o' && "oscilloscope"@[1] == 's' && "oscilloscope"@[2] == 'c',
        "scope"@.len() == 5 && "scope"@[0] == 's' && "scope"@[1] == 'c' && "scope"@[2] == 'o',
        "radial"@.len() == 6 && "radial"@[0] == 'r' && "radial"@[1] == 'a' && "radial"@[2] == 'd',
        "particles"@.len() == 9 && "particles"@[0] == 'p' && "particles"@[1] == 'a' && "particles"@[2] == 'r',
        "particle"@.len() == 8 && "particle"@[0] == 'p' && "particle"@[1] == 'a' && "particle"@[2] == 'r',
        "lissajous"@.len() == 9 && "lissajous"@[0] == 'l' && "lissajous"@[1] == 'i' && "lissajous"@[2] == 's',
        "phase"@.len() == 5 && "phase"@[0] == 'p' && "phase"@[1] == 'h' && "phase"@[2] == 'a',
        "spectrogram"@.len() == 11 && "spectrogram"@[0] == 's' && "spectrogram"@[1] == 'p' && "spectrogram"@[2] == 'e',
        "waterfall"@.len() == 9 && "waterfall"@[0] == 'w' && "waterfall"@[1] == 'a' && "waterfall"@[2] == 't',
        "stereo"@.len() == 6 && "stereo"@[0] == 's' && "stereo"@[1] == 't' && "stereo"@[2] == 'e',
        "stereo_waveform"@.len() == 15 && "stereo_waveform"@[0] == 's' && "stereo_waveform"@[1] == 't' && "stereo_waveform"@[2] == 'e',
        "stereo-waveform"@.len() == 15 && "stereo-waveform"@[0] == 's' && "stereo-waveform"@[1] == 't' && "stereo-waveform"@[2] == 'e',
        "vu"@.len() == 2 && "vu"@[0] == 'v' && "vu"@[1] == 'u',
        "vu_meter"@.len() == 8 && "vu_meter"@[0] == 'v' && "vu_meter"@[1] == 'u' && "vu_meter"@[2] == '_',
        "vu-meter"@.len() == 8 && "vu-meter"@[0] == 'v' && "vu-meter"@[1] == 'u' && "vu-meter"@[2] == '-',
        "meter"@.len() == 5 && "meter"@[0] == 'm' && "meter"@[1] == 'e' && "meter"@[2] == 't',
        "flame"@.len() == 5 && "flame"@[0] == 'f' && "flame"@[1] == 'l' && "flame"@[2] == 'a',
        "mountain"@.len() == 8 && "mountain"@[0] == 'm' && "mountain"@[1] == 'o' && "mountain"@[2] == 'u',
        "plasma"@.len() == 6 && "plasma"@[0] == 'p' && "plasma"@[1] == 'l' && "plasma"@[2] == 'a',
        "tunnel"@.len() == 6 && "tunnel"@[0] == 't' && "tunnel"@[1] == 'u' && "tunnel"@[2] == 'n',
        "wireframe"@.len() == 9 && "wireframe"@[0] == 'w' && "wireframe"@[1] == 'i' && "wireframe"@[2] == 'r',
        "wire"@.len() == 4 && "wire"@[0] == 'w' && "wire"@[1] == 'i' && "wire"@[2] == 'r',
        "3d"@.len() == 2 && "3d"@[0] == '3' && "3d"@[1] == 'd',
        "metaballs"@.len() == 9 && "metaballs"@[0] == 'm' && "metaballs"@[1] == 'e' && "metaballs"@[2] == 't',
        "blobs"@.len() == 5 && "blobs"@[0] == 'b' && "blobs"@[1] == 'l' && "blobs"@[2] == 'o',
        "starfield"@.len() == 9 && "starfield"@[0] == 's' && "starfield"@[1] == 't' && "starfield"@[2] == 'a',
        "stars"@.len() == 5 && "stars"@[0] == 's' && "stars"@[1] == 't' && "stars"@[2] == 'a',
        "terrain"@.len() == 7 && "terrain"@[0] == 't' && "terrain"@[1] == 'e' && "terrain"@[2] == 'r',
        "landscape"@.len() == 9 && "landscape"@[0] == 'l' && "landscape"@[1] == 'a' && "landscape"@[2] == 'n',
        "pleasures"@.len() == 9 && "pleasures"@[0] == 'p' && "pleasures"@[1] == 'l' && "pleasures"@[2] == 'e',
        "moire"@.len() == 5 && "moire"@[0] == 'm' && "moire"@[1] == 'o' && "moire"@[2] == 'i',
        "kaleidoscope"@.len() == 12 && "kaleidoscope"@[0] == 'k' && "kaleidoscope"@[1] == 'a' && "kaleidoscope"@[2] == 'l',
        "kaleid"@.len() == 6 && "kaleid"@[0] == 'k' && "kaleid"@[1] == 'a' && "kaleid"@[2] == 'l',
        "kaleido"@.len() == 7 && "kaleido"@[0] == 'k' && "kaleido"@[1] == 'a' && "kaleido"@[2] == 'l',
        "julia"@.len() == 5 && "julia"@[0] == 'j' && "julia"@[1] == 'u' && "julia"@[2] == 'l',
        "fractal"@.len() == 7 && "fractal"@[0] == 'f' && "fractal"@[1] == 'r' && "fractal"@[2] == 'a',
        "spiral"@.len() == 6 && "spiral"@[0] == 's' && "spiral"@[1] == 'p' && "spiral"@[2] == 'i',
        "hypno"@.len() == 5 && "hypno"@[0] == 'h' && "hypno"@[1] == 'y' && "hypno"@[2] == 'p',
        "interference"@.len() == 12 && "interference"@[0] == 'i' && "interference"@[1] == 'n' && "interference"@[2] == 't',
        "ripple"@.len() == 6 && "ripple"@[0] == 'r' && "ripple"@[1] == 'i' && "ripple"@[2] == 'p',
        "ripples"@.len() == 7 && "ripples"@[0] == 'r' && "ripples"@[1] == 'i' && "ripples"@[2] == 'p',
        "wormhole"@.len() == 8 && "wormhole"@[0] == 'w' && "wormhole"@[1] == 'o' && "wormhole"@[2] == 'r',
        "wormholes"@.len() == 9 && "wormholes"@[0] == 'w' && "wormholes"@[1] == 'o' && "wormholes"@[2] == 'r',
        "matrix"@.len() == 6 && "matrix"@[0] == 'm' && "matrix"@[1] == 'a' && "matrix"@[2] == 't',
        "rain"@.len() == 4 && "rain"@[0] == 'r' && "rain"@[1] == 'a' && "rain"@[2] == 'i',
        "cmatrix"@.len() == 7 && "cmatrix"@[0] == 'c' && "cmatrix"@[1] == 'm' && "cmatrix"@[2] == 'a',
        "moir\u{e9}"@.len() == 5 && "moir\u{e9}"@[0] == 'm' && "moir\u{e9}"@[1] == 'o' && "moir\u{e9}"@[2] == 'i',
{
    reveal_strlit("bars");
    reveal_strlit("spectrum");
    reveal_strlit("oscilloscope");
    reveal_strlit("scope");
    reveal_strlit("radial");
    reveal_strlit("particles");
    reveal_strlit("particle");
    reveal_strlit("lissajous");
    reveal_strlit("phase");
    reveal_strlit("spectrogram");
    reveal_strlit("waterfall");
    reveal_strlit("stereo");
    reveal_strlit("stereo_waveform");
    reveal_strlit("stereo-waveform");
    reveal_strlit("vu");
    reveal_strlit("vu_meter");
    reveal_strlit("vu-meter");
    reveal_strlit("meter");
    reveal_strlit("flame");
    reveal_strlit("mountain");
    reveal_strlit("plasma");
    reveal_strlit("tunnel");
    reveal_strlit("wireframe");
    reveal_strlit("wire");
    reveal_strlit("3d");
    reveal_strlit("metaballs");
    reveal_strlit("blobs");
    reveal_strlit("starfield");
    reveal_strlit("stars");
    reveal_strlit("terrain");
    reveal_strlit("landscape");
    reveal_strlit("pleasures");
    reveal_strlit("moire");
    reveal_strlit("kaleidoscope");
    reveal_strlit("kaleid");
    reveal_strlit("kaleido");
    reveal_strlit("julia");
    reveal_strlit("fractal");
    reveal_strlit("spiral");
    reveal_strlit("hypno");
    reveal_strlit("interference");
    reveal_strlit("ripple");
    reveal_strlit("ripples");
    reveal_strlit("wormhole");
    reveal_strlit("wormholes");
    reveal_strlit("matrix");
    reveal_strlit("rain");
    reveal_strlit("cmatrix");
    reveal_strlit("moir\u{e9}");
}

/// A text without capitals is its own lower case.
proof fn lower_is_lower(s: Seq<char>)
    requires
        forall|i: int| 0 <= i < s.len() ==> !('A' <= #[trigger] s[i] <= 'Z'),
    ensures
        ascii_lower(s) == s,
{
    assert(ascii_lower(s) =~= s);
}

/// The name written to the configuration is read back as the same mode.
pub proof fn names_read_back(m: VisualizerMode)
    ensures
        is_ascii_chars(mode_name(m)),
        mode_named(ascii_lower(mode_name(m))) == m,
{
    spellings();
    reveal_strlit("bars");
    reveal_strlit("oscilloscope");
    reveal_strlit("radial");
    reveal_strlit("particles");
    reveal_strlit("lissajous");
    reveal_strlit("spectrogram");
    reveal_strlit("stereo_waveform");
    reveal_strlit("vu_meter");
    reveal_strlit("flame");
    reveal_strlit("plasma");
    reveal_strlit("tunnel");
    reveal_strlit("wireframe");
    reveal_strlit("metaballs");
    reveal_strlit("starfield");
    reveal_strlit("terrain");
    reveal_strlit("moire");
    reveal_strlit("kaleidoscope");
    reveal_strlit("julia");
    reveal_strlit("spiral");
    reveal_strlit("interference");
    reveal_strlit("wormhole");
    reveal_strlit("matrix");
    lower_is_lower(mode_name(m));
}

/// Stepping through the rotation meets every mode: from any mode, any other is
/// reached in fewer steps than there are modes, and after as many steps as there
/// are modes the first one is back.
pub proof fn rotation_meets_every_mode(m: VisualizerMode, steps: nat)
    ensures
        modes_on(m, steps) == rotation()[(mode_index(m) + steps) % 22],
        modes_on(m, 22) == m,
    decreases steps,
{
    assert(rotation().len() == 22);
    steps_count(m, steps);
    steps_count(m, 22);
    assert((mode_index(m) + 22) % 22 == mode_index(m));
    assert(rotation()[mode_index(m)] == m);
}

proof fn steps_count(m: VisualizerMode, steps: nat)
    ensures
        modes_on(m, steps) == rotation()[(mode_index(m) + steps) % 22],
    decreases steps,
{
    assert(rotation().len() == 22);
    if steps == 0 {
        assert(rotation()[mode_index(m)] == m);
    } else {
        steps_count(m, (steps - 1) as nat);
        let k = (mode_index(m) + steps - 1) % 22;
        assert(mode_index(rotation()[k]) == k);
        assert((k + 1) % 22 == (mode_index(m) + steps) % 22);
    }
}

// ---------------------------------------------------------------------------
// Palettes
// ---------------------------------------------------------------------------

/// The colours of the visualizer.
#[derive(Clone, Copy, Debug, PartialEq, Eq, Structural)]
pub enum VisualizerPalette {
    /// Green, yellow and red by height.
    Mono,
    /// Red bass to purple highs.
    Spectrum,
    /// Deep red to white.
    Fire,
    /// Hot pink to cyan.
    Neon,
}

/// The palette that a name in lower case stands for; spectrum for any other text.
pub open spec fn palette_named(s: Seq<char>) -> VisualizerPalette {
    if s == "mono"@ {
        VisualizerPalette::Mono
    } else if s == "spectrum"@ {
        VisualizerPalette::Spectrum
    } else if s == "fire"@ {
        VisualizerPalette::Fire
    } else if s == "neon"@ {
        VisualizerPalette::Neon
    } else {
        VisualizerPalette::Spectrum
    }
}

impl VisualizerPalette {
    /// Reads a palette's name, whatever its case; spectrum if there is none such.
    pub fn parse(s: &str) -> (r: Self)
        ensures
            r == palette_named(lowercase(s@)),
            is_ascii_chars(s@) ==> r == palette_named(ascii_lower(s@)),
    {
        let lower = to_lowercase(s);
        Self::from_lowercase(lower.as_str())
    }

    /// Reads a palette's name in lower case; spectrum if there is none such.
    pub fn from_lowercase(s: &str) -> (r: Self)
        ensures
            r == palette_named(s@),
    {
        if same(s, "mono") {
            VisualizerPalette::Mono
        } else if same(s, "spectrum") {
            VisualizerPalette::Spectrum
        } else if same(s, "fire") {
            VisualizerPalette::Fire
        } else if same(s, "neon") {
            VisualizerPalette::Neon
        } else {
            VisualizerPalette::Spectrum
        }
    }
}

// ---------------------------------------------------------------------------
// Braille grid
// ---------------------------------------------------------------------------

/// A colour of a grid's cell.
#[derive(Clone, Copy, Debug, PartialEq, Eq, Structural)]
pub enum Colour {
    Reset,
    Green,
    White,
    Rgb(u8, u8, u8),
}

/// The bit of a dot in a cell of two by four, down the left and then down the right; none
/// outside the cell.
pub open spec fn dot_bit(sub_x: int, sub_y: int) -> u8 {
    if 0 <= sub_x < 2 && 0 <= sub_y < 4 {
        seq![0x01u8, 0x02u8, 0x04u8, 0x40u8, 0x08u8, 0x10u8, 0x20u8, 0x80u8][4 * sub_x + sub_y]
    } else {
        0
    }
}

/// The bit of a dot in a cell: 1, 2, 3 and 7 down the left, 4, 5, 6 and 8 down the
/// right.
pub fn braille_bit(sub_x: usize, sub_y: usize) -> (r: u8)
    ensures
        r == dot_bit(sub_x as int, sub_y as int),
{
    if sub_x == 0 {
        if sub_y == 0 {
            0x01
        } else if sub_y == 1 {
            0x02
        } else if sub_y == 2 {
            0x04
        } else if sub_y == 3 {
            0x40
        } else {
            0
        }
    } else if sub_x == 1 {
        if sub_y == 0 {
            0x08
        } else if sub_y == 1 {
            0x10
        } else if sub_y == 2 {
            0x20
        } else if sub_y == 3 {
            0x80
        } else {
            0
        }
    } else {
        0
    }
}

/// Setting one of the eight bits lights it and leaves the others as they are.
proof fn bits_are_separate(d: u8, b: u8, other: u8)
    requires
        b == 0x01 || b == 0x02 || b == 0x04 || b == 0x08 || b == 0x10 || b == 0x20 || b == 0x40
            || b == 0x80,
        other == 0x01 || other == 0x02 || other == 0x04 || other == 0x08 || other == 0x10 || other
            == 0x20 || other == 0x40 || other == 0x80,
    ensures
        (d | b) & other != 0 <==> (d & other != 0 || b == other),
{
    assert((d | b) & other != 0 <==> (d & other != 0 || b == other)) by (bit_vector)
        requires
            b == 0x01 || b == 0x02 || b == 0x04 || b == 0x08 || b == 0x10 || b == 0x20 || b == 0x40
                || b == 0x80,
            other == 0x01 || other == 0x02 || other == 0x04 || other == 0x08 || other == 0x10
                || other == 0x20 || other == 0x40 || other == 0x80,
    ;
}

/// Dots of two by four to a terminal cell, each cell in one colour.
#[derive(Debug)]
pub struct BrailleGrid {
    /// Terminal cells across and down.
    pub width: usize,
    pub height: usize,
    /// The dots of each cell, row by row.
    pub dots: Vec<u8>,
    /// The colour of each cell; the last dot set decides.
    pub colors: Vec<Colour>,
}

/// A cell of a grid with at least one dot.
#[derive(Clone, Copy, Debug, PartialEq, Eq, Structural)]
pub struct BrailleCell {
    pub x: u16,
    pub y: u16,
    pub symbol: char,
    pub color: Colour,
}

/// The braille character of some dots.
pub open spec fn braille_char(pattern: u8) -> char {
    (0x2800 + pattern) as char
}

impl BrailleGrid {
    /// One pattern and one colour for each cell, and dots that can be counted.
    pub open spec fn wf(self) -> bool {
        &&& self.dots@.len() == self.width * self.height
        &&& self.colors@.len() == self.width * self.height
        &&& self.width * 2 <= usize::MAX
        &&& self.height * 4 <= usize::MAX
    }

    /// Whether a dot lies on the grid.
    pub open spec fn on_grid(self, px: int, py: int) -> bool {
        0 <= px < self.width * 2 && 0 <= py < self.height * 4
    }

    /// The cell that a dot is in.
    pub open spec fn cell_of(self, px: int, py: int) -> int {
        (py / 4) * self.width + px / 2
    }

    /// Whether a dot is set.
    pub open spec fn is_lit(self, px: int, py: int) -> bool {
        self.dots@[self.cell_of(px, py)] & dot_bit(px % 2, py % 4) != 0
    }

    /// An empty grid of some cells.
    pub fn new(width: usize, height: usize) -> (r: Self)
        requires
            width * height <= usize::MAX,
            width * 2 <= usize::MAX,
            height * 4 <= usize::MAX,
        ensures
            r.wf(),
            r.width == width,
            r.height == height,
            forall|i: int| 0 <= i < r.dots@.len() ==> r.dots@[i] == 0,
            forall|i: int| 0 <= i < r.colors@.len() ==> r.colors@[i] == Colour::Reset,
    {
        let cells: usize = width * height;
        let mut dots: Vec<u8> = Vec::new();
        let mut colors: Vec<Colour> = Vec::new();
        let mut i: usize = 0;
        while i < cells
            invariant
                i <= cells,
                dots@.len() == i,
                colors@.len() == i,
                forall|k: int| 0 <= k < i ==> dots@[k] == 0,
                forall|k: int| 0 <= k < i ==> colors@[k] == Colour::Reset,
            decreases cells - i,
        {
            dots.push(0);
            colors.push(Colour::Reset);
            i = i + 1;
        }
        BrailleGrid { width, height, dots, colors }
    }

    /// Dots across.
    pub fn px_width(&self) -> (r: usize)
        requires
            self.wf(),
        ensures
            r == self.width * 2,
    {
        self.width * 2
    }

    /// Dots down.
    pub fn px_height(&self) -> (r: usize)
        requires
            self.wf(),
        ensures
            r == self.height * 4,
    {
        self.height * 4
    }

    proof fn cells_are_inside(self, px: int, py: int)
        requires
            self.wf(),
            self.on_grid(px, py),
        ensures
            0 <= self.cell_of(px, py) < self.width * self.height,
            self.cell_of(px, py) / (self.width as int) == py / 4,
            self.cell_of(px, py) % (self.width as int) == px / 2,
    {
        let w = self.width as int;
        let h = self.height as int;
        let row = py / 4;
        let col = px / 2;
        assert(0 <= row < h);
        assert(0 <= col < w);
        assert(row * w + col < w * h) by (nonlinear_arith)
            requires
                0 <= row < h,
                0 <= col < w,
        ;
        assert(0 <= row * w) by (nonlinear_arith)
            requires
                0 <= row,
                0 <= w,
        ;
        vstd::arithmetic::div_mod::lemma_fundamental_div_mod_converse(row * w + col, w, row, col);
    }

    /// Sets a dot and colours its cell. Returns false for a dot off the grid, which
    /// changes nothing.
    pub fn set_dot(&mut self, px: usize, py: usize, color: Colour) -> (r: bool)
        requires
            old(self).wf(),
        ensures
            final(self).wf(),
            final(self).width == old(self).width,
            final(self).height == old(self).height,
            r == old(self).on_grid(px as int, py as int),
            !r ==> *final(self) == *old(self),
            r ==> forall|x: int, y: int|
                old(self).on_grid(x, y) ==> #[trigger] final(self).is_lit(x, y) == (old(
                    self,
                ).is_lit(x, y) || (x == px && y == py)),
            r ==> final(self).colors@ == old(self).colors@.update(
                old(self).cell_of(px as int, py as int),
                color,
            ),
    {
        if px >= self.px_width() || py >= self.px_height() {
            return false;
        }
        let bit = braille_bit(px % 2, py % 4);
        let ghost before = *self;
        proof {
            before.cells_are_inside(px as int, py as int);
            assert((py as int / 4) * (before.width as int) <= before.width * before.height)
                by (nonlinear_arith)
                requires
                    0 <= py as int / 4 <= before.height,
                    before.width >= 0,
            ;
        }
        assert(self.dots.len() == self.width * self.height);
        let idx: usize = (py / 4) * self.width + px / 2;
        let pattern: u8 = self.dots[idx] | bit;
        self.dots.set(idx, pattern);
        self.colors.set(idx, color);
        proof {
            let after = *self;
            assert forall|x: int, y: int| before.on_grid(x, y) implies #[trigger] after.is_lit(
                x,
                y,
            ) == (before.is_lit(x, y) || (x == px && y == py)) by {
                before.cells_are_inside(x, y);
                if before.cell_of(x, y) == idx {
                    assert(x / 2 == px as int / 2 && y / 4 == py as int / 4);
                    bits_are_separate(before.dots@[idx as int], bit, dot_bit(x % 2, y % 4));
                    assert(bit == dot_bit(x % 2, y % 4) <==> x == px && y == py);
                }
            }
        }
        true
    }

    /// The cell at a place of an area, if it has dots.
    pub open spec fn cell_at(self, area: Rect, cx: int, cy: int) -> Seq<BrailleCell> {
        let i = cy * self.width + cx;
        if self.dots@[i] == 0 {
            Seq::empty()
        } else {
            seq![
                BrailleCell {
                    x: (area.x + cx) as u16,
                    y: (area.y + cy) as u16,
                    symbol: braille_char(self.dots@[i]),
                    color: self.colors@[i],
                },
            ]
        }
    }

    /// The cells with dots among the first `n` places of an area, row by row.
    pub open spec fn cells_in(self, area: Rect, across: nat, n: nat) -> Seq<BrailleCell>
        decreases n,
    {
        if n == 0 || across == 0 {
            Seq::empty()
        } else {
            let k = n - 1;
            self.cells_in(area, across, k as nat) + self.cell_at(
                area,
                k % across as int,
                k / across as int,
            )
        }
    }

    /// How many of the grid's cells are shown across and down an area.
    pub open spec fn shown_in(self, area: Rect) -> (int, int) {
        (
            min_int(self.width as int, area.width as int),
            min_int(self.height as int, area.height as int),
        )
    }

    /// The cells with dots, as far as an area shows them.
    pub fn render_to(&self, area: Rect) -> (r: Vec<BrailleCell>)
        requires
            self.wf(),
            fits(area),
        ensures
            r@ == self.cells_in(
                area,
                self.shown_in(area).0 as nat,
                (self.shown_in(area).0 * self.shown_in(area).1) as nat,
            ),
    {
        let across: usize = if self.width <= area.width as usize {
            self.width
        } else {
            area.width as usize
        };
        let down: usize = if self.height <= area.height as usize {
            self.height
        } else {
            area.height as usize
        };
        let mut out: Vec<BrailleCell> = Vec::new();
        let mut cy: usize = 0;
        while cy < down
            invariant
                self.wf(),
                fits(area),
                across <= self.width,
                across <= area.width,
                cy <= down <= self.height,
                down <= area.height,
                out@ == self.cells_in(area, across as nat, (across * cy) as nat),
            decreases down - cy,
        {
            let mut cx: usize = 0;
            while cx < across
                invariant
                    self.wf(),
                    fits(area),
                    cx <= across <= self.width,
                    across <= area.width,
                    cy < down <= self.height,
                    down <= area.height,
                    out@ == self.cells_in(area, across as nat, (across * cy + cx) as nat),
                decreases across - cx,
            {
                proof {
                    let w = self.width as int;
                    let h = self.height as int;
                    assert(cy * w + cx < w * h) by (nonlinear_arith)
                        requires
                            0 <= cy < h,
                            0 <= cx < w,
                    ;
                    assert(0 <= cy * w <= w * h) by (nonlinear_arith)
                        requires
                            0 <= cy < h,
                            0 <= w,
                    ;
                    assert(across * cy == cy * across) by (nonlinear_arith);
                    vstd::arithmetic::div_mod::lemma_fundamental_div_mod_converse(
                        across * cy + cx,
                        across as int,
                        cy as int,
                        cx as int,
                    );
                    assert(across * cy >= 0) by (nonlinear_arith)
                        requires
                            across >= 0,
                            cy >= 0,
                    ;
                }
                assert(self.dots.len() == self.width * self.height);
                let idx: usize = cy * self.width + cx;
                let pattern: u8 = self.dots[idx];
                if pattern != 0 {
                    out.push(
                        BrailleCell {
                            x: area.x + cx as u16,
                            y: area.y + cy as u16,
                            symbol: braille_symbol(pattern),
                            color: self.colors[idx],
                        },
                    );
                }
                assert(out@ =~= self.cells_in(area, across as nat, (across * cy + cx + 1) as nat));
                cx = cx + 1;
            }
            assert(across * cy + across == across * (cy + 1)) by (nonlinear_arith);
            cy = cy + 1;
        }
        out
    }
}

/// `char::from_u32`: the character of a code point that is one.
#[verifier::external_body]
fn char_of(code: u32) -> (c: Option<char>)
    ensures
        (code < 0xd800 || 0xe000 <= code <= 0x10ffff) ==> c == Some(code as char),
        !(code < 0xd800 || 0xe000 <= code <= 0x10ffff) ==> c is None,
{
    char::from_u32(code)
}

fn braille_symbol(pattern: u8) -> (c: char)
    ensures
        c == braille_char(pattern),
{
    match char_of(0x2800 + pattern as u32) {
        Some(c) => c,
        None => ' ',
    }
}

// ---------------------------------------------------------------------------
// Rings of past frames
// ---------------------------------------------------------------------------

/// The points of the last four frames, for the afterglow.
#[derive(Debug)]
pub struct LissajousTrail {
    pub frames: Vec<Vec<(usize, usize)>>,
    pub write_idx: usize,
}

impl LissajousTrail {
    /// Four frames, and a place among them for the next.
    pub open spec fn wf(self) -> bool {
        self.frames@.len() == 4 && self.write_idx < 4
    }

    /// The frames, oldest first.
    pub open spec fn oldest_first(self) -> Seq<Seq<(usize, usize)>> {
        Seq::new(4, |age: int| self.frames@[(self.write_idx + age) % 4]@)
    }

    /// Four empty frames.
    pub fn new() -> (r: Self)
        ensures
            r.wf(),
            r.oldest_first() == Seq::new(4, |age: int| Seq::<(usize, usize)>::empty()),
    {
        let mut frames: Vec<Vec<(usize, usize)>> = Vec::new();
        frames.push(Vec::new());
        frames.push(Vec::new());
        frames.push(Vec::new());
        frames.push(Vec::new());
        let r = LissajousTrail { frames, write_idx: 0 };
        assert(r.oldest_first() =~= Seq::new(4, |age: int| Seq::<(usize, usize)>::empty()));
        r
    }

    /// Takes in a new frame; the oldest goes.
    pub fn push(&mut self, points: Vec<(usize, usize)>)
        requires
            old(self).wf(),
        ensures
            final(self).wf(),
            final(self).oldest_first() == old(self).oldest_first().skip(1).push(points@),
    {
        let ghost before = *self;
        self.frames.set(self.write_idx, points);
        self.write_idx = (self.write_idx + 1) % 4;
        assert(self.oldest_first() =~= before.oldest_first().skip(1).push(points@));
    }

    /// The frame of some age, 0 the oldest and 3 the newest.
    pub fn frame(&self, age: usize) -> (r: &Vec<(usize, usize)>)
        requires
            self.wf(),
            age < 4,
        ensures
            r@ == self.oldest_first()[age as int],
    {
        &self.frames[(self.write_idx + age) % 4]
    }
}

/// After four frames the trail holds exactly those, in order.
pub proof fn trail_holds_the_last_four(
    before: Seq<Seq<(usize, usize)>>,
    a: Seq<(usize, usize)>,
    b: Seq<(usize, usize)>,
    c: Seq<(usize, usize)>,
    d: Seq<(usize, usize)>,
)
    requires
        before.len() == 4,
    ensures
        before.skip(1).push(a).skip(1).push(b).skip(1).push(c).skip(1).push(d) == seq![a, b, c, d],
{
    assert(before.skip(1).push(a).skip(1).push(b).skip(1).push(c).skip(1).push(d) =~= seq![
        a,
        b,
        c,
        d,
    ]);
}

/// How many past spectrums are kept.
pub const SPECTRUM_HISTORY_CAP: usize = 512;

/// Places in the ring of past spectrums.
#[derive(Clone, Copy, Debug, PartialEq, Eq, Structural)]
pub struct SpectrumHistory {
    pub write_idx: usize,
    pub len: usize,
}

impl SpectrumHistory {
    /// A place in the ring for the next frame, and no more frames than places.
    pub open spec fn wf(self) -> bool {
        self.write_idx < SPECTRUM_HISTORY_CAP && self.len <= SPECTRUM_HISTORY_CAP
    }

    /// The places of the frames kept, newest first.
    pub open spec fn newest_first(self) -> Seq<int> {
        Seq::new(
            self.len as nat,
            |age: int| (self.write_idx + SPECTRUM_HISTORY_CAP - 1 - age) % 512,
        )
    }

    /// An empty ring.
    pub fn new() -> (r: Self)
        ensures
            r.wf(),
            r.write_idx == 0,
            r.len == 0,
    {
        SpectrumHistory { write_idx: 0, len: 0 }
    }

    /// Takes the place for a new frame: it is the newest now, and once the ring is
    /// full the oldest frame is gone.
    pub fn push(&mut self) -> (place: usize)
        requires
            old(self).wf(),
        ensures
            final(self).wf(),
            place == old(self).write_idx,
            final(self).newest_first() == seq![place as int] + old(self).newest_first().take(
                min_int(old(self).len as int, SPECTRUM_HISTORY_CAP - 1),
            ),
    {
        let ghost before = *self;
        let place: usize = self.write_idx;
        self.write_idx = (self.write_idx + 1) % SPECTRUM_HISTORY_CAP;
        if self.len < SPECTRUM_HISTORY_CAP {
            self.len = self.len + 1;
        }
        assert(self.newest_first() =~= seq![place as int] + before.newest_first().take(
            min_int(before.len as int, SPECTRUM_HISTORY_CAP - 1),
        ));
        place
    }

    /// The places of the newest frames, newest first, up to `count`.
    pub fn iter_newest_first(&self, count: usize) -> (r: Vec<usize>)
        requires
            self.wf(),
        ensures
            r@.len() == min_int(count as int, self.len as int),
            forall|age: int| 0 <= age < r@.len() ==> r@[age] == self.newest_first()[age],
    {
        let shown: usize = if count <= self.len {
            count
        } else {
            self.len
        };
        let mut out: Vec<usize> = Vec::new();
        let mut age: usize = 0;
        while age < shown
            invariant
                age <= shown <= self.len,
                self.wf(),
                out@.len() == age,
                forall|k: int| 0 <= k < age ==> out@[k] == self.newest_first()[k],
            decreases shown - age,
        {
            out.push((self.write_idx + SPECTRUM_HISTORY_CAP - 1 - age) % SPECTRUM_HISTORY_CAP);
            age = age + 1;
        }
        out
    }
}

/// No two frames that are kept share a place.
pub proof fn places_are_distinct(h: SpectrumHistory, i: int, j: int)
    requires
        h.wf(),
        0 <= i < j < h.len,
    ensures
        h.newest_first()[i] != h.newest_first()[j],
{
}

// ---------------------------------------------------------------------------
// Digital rain
// ---------------------------------------------------------------------------

/// The characters of the digital rain.
pub open spec fn matrix_chars() -> Seq<char> {
    seq![
        '\u{FF8A}',
        '\u{FF90}',
        '\u{FF8B}',
        '\u{FF70}',
        '\u{FF73}',
        '\u{FF7C}',
        '\u{FF85}',
        '\u{FF93}',
        '\u{FF86}',
        '\u{FF7B}',
        '\u{FF9C}',
        '\u{FF82}',
        '\u{FF75}',
        '\u{FF98}',
        '\u{FF71}',
        '\u{FF8E}',
        '\u{FF83}',
        '\u{FF8F}',
        '\u{FF79}',
        '\u{FF92}',
        '\u{FF74}',
        '\u{FF76}',
        '\u{FF77}',
        '\u{FF91}',
        '\u{FF95}',
        '\u{FF97}',
        '\u{FF7E}',
        '\u{FF88}',
        '\u{FF7D}',
        '\u{FF80}',
        '\u{FF87}',
        '\u{FF8D}',
        '0',
        '1',
        '2',
        '3',
        '4',
        '5',
        '7',
        '8',
        '9',
        'Z',
        ':',
        '.',
        '=',
        '*',
        '+',
        '-',
        '<',
        '>',
        '\u{A6}',
        '|',
    ]
}

/// The character of the rain that a hash picks.
pub fn matrix_char(hash: u32) -> (c: char)
    ensures
        c == matrix_chars()[hash as int % 52],
{
    let chars: Vec<char> = vec![
        '\u{FF8A}',
        '\u{FF90}',
        '\u{FF8B}',
        '\u{FF70}',
        '\u{FF73}',
        '\u{FF7C}',
        '\u{FF85}',
        '\u{FF93}',
        '\u{FF86}',
        '\u{FF7B}',
        '\u{FF9C}',
        '\u{FF82}',
        '\u{FF75}',
        '\u{FF98}',
        '\u{FF71}',
        '\u{FF8E}',
        '\u{FF83}',
        '\u{FF8F}',
        '\u{FF79}',
        '\u{FF92}',
        '\u{FF74}',
        '\u{FF76}',
        '\u{FF77}',
        '\u{FF91}',
        '\u{FF95}',
        '\u{FF97}',
        '\u{FF7E}',
        '\u{FF88}',
        '\u{FF7D}',
        '\u{FF80}',
        '\u{FF87}',
        '\u{FF8D}',
        '0',
        '1',
        '2',
        '3',
        '4',
        '5',
        '7',
        '8',
        '9',
        'Z',
        ':',
        '.',
        '=',
        '*',
        '+',
        '-',
        '<',
        '>',
        '\u{A6}',
        '|',
    ];
    assert(chars@ =~= matrix_chars());
    chars[(hash % 52) as usize]
}

/// Sixteen scrambled bits of a seed.
pub fn hash_bits(seed: u32) -> (r: u16)
    ensures
        r == scrambled(seed),
{
    let a: u32 = seed.wrapping_mul(0x85ebca6b);
    let b: u32 = a ^ (a >> 13);
    let c: u32 = b.wrapping_mul(0xc2b2ae35);
    let d: u32 = c ^ (c >> 16);
    let low: u32 = d & 0xffff;
    assert(low <= 0xffff) by (bit_vector)
        requires
            low == d & 0xffff,
    ;
    low as u16
}

/// Sixteen scrambled bits of a seed: two rounds of multiplying and folding.
pub open spec fn scrambled(seed: u32) -> int {
    let a = (seed * 0x85ebca6b) as int % 0x1_0000_0000;
    let b = (a as u32) ^ ((a as u32) >> 13u32);
    let c = (b * 0xc2b2ae35) as int % 0x1_0000_0000;
    let d = (c as u32) ^ ((c as u32) >> 16u32);
    (d & 0xffff) as int
}

/// A number that fits 32 bits after wrapping round.
pub open spec fn wrap32(n: int) -> int {
    n % 0x1_0000_0000
}

/// The hash behind the overlay's character at a cell, at a tick.
pub fn overlay_hash(col: u16, row: u16, tick: u32) -> (r: u32)
    ensures
        r == wrap32(col * 31 + row * 137 + tick),
{
    (col as u32).wrapping_mul(31).wrapping_add(row as u32 * 137).wrapping_add(tick)
}

/// The hash behind the rain's character in a column and row, at a tick.
pub fn rain_hash(char_seed: u32, row: u16, tick: u32) -> (r: u32)
    ensures
        r == wrap32(wrap32(char_seed + row * 137) * 32 + tick),
{
    let phase: u32 = char_seed.wrapping_add(row as u32 * 137);
    let flicker: u32 = tick.wrapping_add(phase);
    let r = phase.wrapping_mul(31).wrapping_add(flicker);
    r
}

// ---------------------------------------------------------------------------
// Spectrum bars
// ---------------------------------------------------------------------------

/// How many bands the spectrum has.
pub const NUM_BARS: usize = 48;

/// How many bars an area has room for, a gap behind each.
pub fn display_bars(width: u16) -> (r: usize)
    ensures
        r == (width + 1) / 2,
{
    (width as usize + 1) / 2
}

/// The bands that a bar gathers where there are no more bars than bands.
pub open spec fn bucket(bar: int, bars: int) -> (int, int) {
    let start = bar * 48 / bars;
    (start, max_int((bar + 1) * 48 / bars, start + 1))
}

/// The bands that a bar gathers, from the first to before the last.
pub fn band_bucket(bar: usize, bars: usize) -> (r: (usize, usize))
    requires
        bar < bars <= NUM_BARS,
    ensures
        (r.0 as int, r.1 as int) == bucket(bar as int, bars as int),
        r.0 < r.1 <= NUM_BARS,
{
    let start: usize = bar * NUM_BARS / bars;
    let end: usize = (bar + 1) * NUM_BARS / bars;
    proof {
        buckets_cover_the_bands(bar as int, bars as int);
    }
    if end >= start + 1 {
        (start, end)
    } else {
        (start, start + 1)
    }
}

/// With no more bars than bands, every band is gathered by exactly one bar: the
/// first bar starts at the first band, each starts where the one before ends, and
/// the last ends with the last band.
pub proof fn buckets_cover_the_bands(bar: int, bars: int)
    requires
        0 <= bar < bars <= 48,
    ensures
        bucket(0, bars).0 == 0,
        bucket(bars - 1, bars).1 == 48,
        bar + 1 < bars ==> bucket(bar, bars).1 == bucket(bar + 1, bars).0,
        0 <= bucket(bar, bars).0 < bucket(bar, bars).1 <= 48,
{
    assert((bar + 1) * 48 / bars >= bar * 48 / bars + 1) by (nonlinear_arith)
        requires
            0 <= bar < bars <= 48,
    ;
    assert(0 <= bar * 48 / bars && (bar + 1) * 48 / bars <= 48) by (nonlinear_arith)
        requires
            0 <= bar < bars <= 48,
    ;
    let last = bars - 1;
    assert((last + 1) * 48 / bars == 48 && last * 48 / bars <= 47) by (nonlinear_arith)
        requires
            last == bars - 1,
            1 <= bars <= 48,
    ;
    assert(0int * 48 / bars == 0) by (nonlinear_arith)
        requires
            bars >= 1,
    ;
}

/// What a cell of a bar shows.
#[derive(Clone, Copy, Debug, PartialEq, Eq, Structural)]
pub enum MeterCell {
    Empty,
    /// The mark of the peak.
    Peak,
    /// Filled from below by some eighths, one to eight.
    Fill(u8),
}

/// A cell of a bar: the peak's mark if the peak is in it and above the bar, else
/// as much of the bar as reaches into it.
pub open spec fn meter_cell(eighths: int, peak_eighths: int, from_bottom: int) -> MeterCell {
    let fill = min_int(sub0(eighths, from_bottom * 8), 8);
    if peak_eighths / 8 == from_bottom && peak_eighths >= eighths && peak_eighths > 0 {
        MeterCell::Peak
    } else if fill > 0 {
        MeterCell::Fill(fill as u8)
    } else {
        MeterCell::Empty
    }
}

/// What the cell of a bar shows, counted from the bottom.
pub fn bar_cell(eighths: usize, peak_eighths: usize, from_bottom: u16) -> (r: MeterCell)
    ensures
        r == meter_cell(eighths as int, peak_eighths as int, from_bottom as int),
{
    let cell_base: usize = from_bottom as usize * 8;
    let above: usize = eighths.saturating_sub(cell_base);
    let fill: usize = if above <= 8 {
        above
    } else {
        8
    };
    if peak_eighths / 8 == from_bottom as usize && peak_eighths >= eighths && peak_eighths > 0 {
        MeterCell::Peak
    } else if fill > 0 {
        MeterCell::Fill(fill as u8)
    } else {
        MeterCell::Empty
    }
}

// ---------------------------------------------------------------------------
// Layouts
// ---------------------------------------------------------------------------

/// The upper and the lower half of an area; an odd row goes to the lower.
pub fn stacked_halves(area: Rect) -> (r: (Rect, Rect))
    requires
        fits(area),
    ensures
        r.0 == (Rect { height: area.height / 2, ..area }),
        r.1 == (Rect {
            y: (area.y + area.height / 2) as u16,
            height: (area.height - area.height / 2) as u16,
            ..area
        }),
        within(r.0, area),
        within(r.1, area),
{
    let half: u16 = area.height / 2;
    (
        Rect { x: area.x, y: area.y, width: area.width, height: half },
        Rect { x: area.x, y: area.y + half, width: area.width, height: area.height - half },
    )
}

/// The left and the right half of an area; an odd column goes to the right.
pub fn side_by_side(area: Rect) -> (r: (Rect, Rect))
    requires
        fits(area),
    ensures
        r.0 == (Rect { width: area.width / 2, ..area }),
        r.1 == (Rect {
            x: (area.x + area.width / 2) as u16,
            width: (area.width - area.width / 2) as u16,
            ..area
        }),
        within(r.0, area),
        within(r.1, area),
{
    let half: u16 = area.width / 2;
    (
        Rect { x: area.x, y: area.y, width: half, height: area.height },
        Rect { x: area.x + half, y: area.y, width: area.width - half, height: area.height },
    )
}

/// The sample that is drawn in a column, where the samples are spread over all columns.
pub fn sample_place(column: usize, columns: usize, samples: usize) -> (r: usize)
    requires
        column < columns,
        0 < samples,
        columns * samples <= usize::MAX,
    ensures
        r == column * samples / (columns as int),
        r < samples,
{
    assert(column * samples <= columns * samples) by (nonlinear_arith)
        requires
            column < columns,
    ;
    assert(column * samples < columns * samples) by (nonlinear_arith)
        requires
            column < columns,
            0 < samples,
    ;
    let r: usize = column * samples / columns;
    proof {
        vstd::arithmetic::div_mod::lemma_multiply_divide_lt(
            column as int * samples as int,
            columns as int,
            samples as int,
        );
    }
    r
}

/// Where the ridge lines and the two labels of the terrain go.
#[derive(Clone, Copy, Debug)]
pub struct TerrainLayout {
    pub artist_y: u16,
    pub album_y: u16,
    /// Twice as wide as high, which looks square; `None` if there is no room.
    pub ridges: Option<Rect>,
}

/// The frame of the ridge lines: below the artist and above the album, with a row free
/// on either side, in the middle of the area.
pub open spec fn ridge_frame(area: Rect) -> Rect {
    let height = area.height - 6;
    let width = min_int(height * 2, area.width as int);
    Rect {
        x: (area.x + (area.width - width) / 2) as u16,
        y: (area.y + 3) as u16,
        width: width as u16,
        height: height as u16,
    }
}

/// Where the ridge lines and the two labels of the terrain go, if there is room for
/// the labels.
pub fn terrain_layout(area: Rect) -> (r: Option<TerrainLayout>)
    requires
        fits(area),
    ensures
        r is Some <==> area.width >= 10 && area.height >= 6,
        match r {
            Some(t) => {
                &&& t.artist_y == area.y + 1
                &&& t.album_y == area.y + area.height - 2
                &&& t.ridges == if area.height > 6 {
                    Some(ridge_frame(area))
                } else {
                    None
                }
                &&& t.ridges is Some ==> within(t.ridges->0, area)
            },
            None => true,
        },
{
    if area.width < 10 || area.height < 6 {
        return None;
    }
    let ridges = if area.height > 6 {
        let height: u16 = area.height - 6;
        let width: u16 = if height as u32 * 2 <= area.width as u32 {
            height * 2
        } else {
            area.width
        };
        Some(Rect { x: area.x + (area.width - width) / 2, y: area.y + 3, width, height })
    } else {
        None
    };
    Some(TerrainLayout { artist_y: area.y + 1, album_y: area.y + (area.height - 2), ridges })
}

/// Where a label of some length starts to stand in the middle of an area. As much of it
/// as is shown lies within.
pub fn label_start(area: Rect, length: usize) -> (r: u16)
    requires
        fits(area),
    ensures
        r == area.x + (area.width - min_int(length as int, area.width as int)) / 2,
        r + min_int(length as int, area.width as int) <= area.x + area.width,
{
    let shown: u16 = if length < area.width as usize {
        length as u16
    } else {
        area.width
    };
    area.x + (area.width - shown) / 2
}

// ---------------------------------------------------------------------------
// What names and cells mean
// ---------------------------------------------------------------------------

/// Each mode is known by its own words, and every other word means the bars.
pub proof fn words_name_one_mode(s: Seq<char>)
    ensures
        mode_named(s) is Oscilloscope <==> s == "oscilloscope"@ || s == "scope"@,
        mode_named(s) is Radial <==> s == "radial"@,
        mode_named(s) is Particles <==> s == "particles"@ || s == "particle"@,
        mode_named(s) is Lissajous <==> s == "lissajous"@ || s == "phase"@,
        mode_named(s) is Spectrogram <==> s == "spectrogram"@ || s == "waterfall"@,
        mode_named(s) is StereoWaveform <==> s == "stereo"@ || s == "stereo_waveform"@ || s == "stereo-waveform"@,
        mode_named(s) is VuMeter <==> s == "vu"@ || s == "vu_meter"@ || s == "vu-meter"@ || s == "meter"@,
        mode_named(s) is Flame <==> s == "flame"@ || s == "mountain"@,
        mode_named(s) is Plasma <==> s == "plasma"@,
        mode_named(s) is Tunnel <==> s == "tunnel"@,
        mode_named(s) is Wireframe <==> s == "wireframe"@ || s == "wire"@ || s == "3d"@,
        mode_named(s) is Metaballs <==> s == "metaballs"@ || s == "blobs"@,
        mode_named(s) is Starfield <==> s == "starfield"@ || s == "stars"@,
        mode_named(s) is Terrain <==> s == "terrain"@ || s == "landscape"@ || s == "pleasures"@,
        mode_named(s) is Moire <==> s == "moire"@ || s == "moir\u{e9}"@,
        mode_named(s) is Kaleidoscope <==> s == "kaleidoscope"@ || s == "kaleid"@ || s == "kaleido"@,
        mode_named(s) is Julia <==> s == "julia"@ || s == "fractal"@,
        mode_named(s) is Spiral <==> s == "spiral"@ || s == "hypno"@,
        mode_named(s) is Interference <==> s == "interference"@ || s == "ripple"@ || s == "ripples"@,
        mode_named(s) is Wormhole <==> s == "wormhole"@ || s == "wormholes"@,
        mode_named(s) is Matrix <==> s == "matrix"@ || s == "rain"@ || s == "cmatrix"@,
        s == "bars"@ || s == "spectrum"@ ==> mode_named(s) is Bars,
{
    spellings();
}

/// The modes follow each other in their order, and the first comes after the last.
pub proof fn modes_follow_each_other()
    ensures
        next_mode(VisualizerMode::Bars) is Oscilloscope,
        next_mode(VisualizerMode::Oscilloscope) is Radial,
        next_mode(VisualizerMode::Radial) is Particles,
        next_mode(VisualizerMode::Particles) is Lissajous,
        next_mode(VisualizerMode::Lissajous) is Spectrogram,
        next_mode(VisualizerMode::Spectrogram) is StereoWaveform,
        next_mode(VisualizerMode::StereoWaveform) is VuMeter,
        next_mode(VisualizerMode::VuMeter) is Flame,
        next_mode(VisualizerMode::Flame) is Plasma,
        next_mode(VisualizerMode::Plasma) is Tunnel,
        next_mode(VisualizerMode::Tunnel) is Wireframe,
        next_mode(VisualizerMode::Wireframe) is Metaballs,
        next_mode(VisualizerMode::Metaballs) is Starfield,
        next_mode(VisualizerMode::Starfield) is Terrain,
        next_mode(VisualizerMode::Terrain) is Moire,
        next_mode(VisualizerMode::Moire) is Kaleidoscope,
        next_mode(VisualizerMode::Kaleidoscope) is Julia,
        next_mode(VisualizerMode::Julia) is Spiral,
        next_mode(VisualizerMode::Spiral) is Interference,
        next_mode(VisualizerMode::Interference) is Wormhole,
        next_mode(VisualizerMode::Wormhole) is Matrix,
        next_mode(VisualizerMode::Matrix) is Bars,
{
    let all = rotation();
    assert(all.len() == 22);
    assert(all[0] == VisualizerMode::Bars);
    assert(all[1] == VisualizerMode::Oscilloscope);
    assert(all[2] == VisualizerMode::Radial);
    assert(all[3] == VisualizerMode::Particles);
    assert(all[4] == VisualizerMode::Lissajous);
    assert(all[5] == VisualizerMode::Spectrogram);
    assert(all[6] == VisualizerMode::StereoWaveform);
    assert(all[7] == VisualizerMode::VuMeter);
    assert(all[8] == VisualizerMode::Flame);
    assert(all[9] == VisualizerMode::Plasma);
    assert(all[10] == VisualizerMode::Tunnel);
    assert(all[11] == VisualizerMode::Wireframe);
    assert(all[12] == VisualizerMode::Metaballs);
    assert(all[13] == VisualizerMode::Starfield);
    assert(all[14] == VisualizerMode::Terrain);
    assert(all[15] == VisualizerMode::Moire);
    assert(all[16] == VisualizerMode::Kaleidoscope);
    assert(all[17] == VisualizerMode::Julia);
    assert(all[18] == VisualizerMode::Spiral);
    assert(all[19] == VisualizerMode::Interference);
    assert(all[20] == VisualizerMode::Wormhole);
    assert(all[21] == VisualizerMode::Matrix);
}

/// A mode is labelled by its name, with spaces, but for those that are known by another.
pub proof fn labels_are_names(m: VisualizerMode)
    ensures
        !(m is StereoWaveform || m is VuMeter || m is Terrain || m is Moire || m is Julia)
            ==> mode_label(m) == mode_name(m),
        m is StereoWaveform ==> mode_label(m) == "stereo waveform"@,
        m is VuMeter ==> mode_label(m) == "vu meter"@,
        m is Terrain ==> mode_label(m) == "pleasures"@,
        m is Moire ==> mode_label(m) == "moir\u{e9}"@,
        m is Julia ==> mode_label(m) == "julia fractal"@,
{
}

/// Each palette is known by its own word, and every other word means that of the spectrum.
pub proof fn words_name_one_palette(s: Seq<char>)
    ensures
        palette_named(s) is Mono <==> s == "mono"@,
        palette_named(s) is Fire <==> s == "fire"@,
        palette_named(s) is Neon <==> s == "neon"@,
{
    reveal_strlit("mono");
    reveal_strlit("spectrum");
    reveal_strlit("fire");
    reveal_strlit("neon");
    assert("mono"@[0] == 'm' && "fire"@[0] == 'f' && "neon"@[0] == 'n' && "spectrum"@[0] == 's');
}

/// The dots of a cell have the bits of the braille block: down the left column, down the right
/// one, and then the lowest row.
pub proof fn dots_have_their_bits()
    ensures
        dot_bit(0, 0) == 1,
        dot_bit(0, 1) == 2,
        dot_bit(0, 2) == 4,
        dot_bit(1, 0) == 8,
        dot_bit(1, 1) == 16,
        dot_bit(1, 2) == 32,
        dot_bit(0, 3) == 64,
        dot_bit(1, 3) == 128,
{
}

/// Every cell of the shown part that has a dot is drawn, where it is and in its colour, and
/// no other.
pub proof fn lit_cells_are_drawn(
    grid: BrailleGrid,
    area: Rect,
    across: nat,
    n: nat,
    k: int,
)
    requires
        0 <= k < n,
        across > 0,
    ensures
        ({
            let cx = k % across as int;
            let cy = k / across as int;
            let i = cy * grid.width + cx;
            grid.dots@[i] != 0 ==> grid.cells_in(area, across, n).contains(
                BrailleCell {
                    x: (area.x + cx) as u16,
                    y: (area.y + cy) as u16,
                    symbol: (0x2800 + grid.dots@[i]) as char,
                    color: grid.colors@[i],
                },
            )
        }),
    decreases n,
{
    let before = grid.cells_in(area, across, (n - 1) as nat);
    let all = grid.cells_in(area, across, n);
    let cx = k % across as int;
    let cy = k / across as int;
    let i = cy * grid.width + cx;
    let cell = BrailleCell {
        x: (area.x + cx) as u16,
        y: (area.y + cy) as u16,
        symbol: (0x2800 + grid.dots@[i]) as char,
        color: grid.colors@[i],
    };
    if grid.dots@[i] != 0 {
        if k == n - 1 {
            assert(all[before.len() as int] == cell);
        } else {
            lit_cells_are_drawn(grid, area, across, (n - 1) as nat, k);
            let j = choose|j: int| 0 <= j < before.len() && before[j] == cell;
            assert(all[j] == cell);
        }
    }
}

/// A cell that has no dot is left alone: there are no more cells drawn than have dots.
pub proof fn dark_cells_are_left_alone(grid: BrailleGrid, area: Rect, across: nat, n: nat)
    requires
        forall|i: int| 0 <= i < grid.dots@.len() ==> #[trigger] grid.dots@[i] == 0,
        grid.dots@.len() == grid.width * grid.height,
        across <= grid.width,
        n <= across * grid.height,
    ensures
        grid.cells_in(area, across, n).len() == 0,
    decreases n,
{
    if n > 0 && across > 0 {
        dark_cells_are_left_alone(grid, area, across, (n - 1) as nat);
        let k = n - 1;
        let cx = k % across as int;
        let cy = k / across as int;
        let i = cy * grid.width + cx;
        assert(0 <= cy < grid.height && 0 <= cx < across) by (nonlinear_arith)
            requires
                0 <= k < across * grid.height,
                cx == k % across as int,
                cy == k / across as int,
                across > 0,
        ;
        assert(0 <= i < grid.width * grid.height) by (nonlinear_arith)
            requires
                i == cy * grid.width + cx,
                0 <= cy < grid.height,
                0 <= cx < grid.width,
        ;
        assert(grid.dots@[i] == 0);
    }
}

/// A bar fills the cells below its height whole, the one at its height in part, and none
/// above; its peak is marked in the cell where it is, where it is not below the bar.
pub proof fn bars_fill_from_below(eighths: int, peak_eighths: int, row: int)
    requires
        0 <= eighths,
        0 <= peak_eighths,
        0 <= row,
    ensures
        ({
            let cell = meter_cell(eighths, peak_eighths, row);
            let marked = peak_eighths > 0 && peak_eighths >= eighths && row * 8 <= peak_eighths
                < row * 8 + 8;
            &&& cell is Peak <==> marked
            &&& !marked && eighths >= row * 8 + 8 ==> cell == MeterCell::Fill(8)
            &&& !marked && row * 8 < eighths < row * 8 + 8 ==> cell == MeterCell::Fill(
                (eighths - row * 8) as u8,
            )
            &&& !marked && eighths <= row * 8 ==> cell is Empty
        }),
{
}

/// The ridges are drawn twice as wide as high where there is room, in the middle, between the
/// two labels.
pub proof fn ridges_look_square(area: Rect)
    requires
        fits(area),
        area.height > 6,
        area.width >= 10,
    ensures
        ({
            let r = ridge_frame(area);
            let left = r.x - area.x;
            let right = area.x + area.width - (r.x + r.width);
            &&& r.height == area.height - 6
            &&& r.y == area.y + 3
            &&& 2 * r.height <= area.width ==> r.width == 2 * r.height
            &&& 2 * r.height > area.width ==> r.width == area.width
            &&& 0 <= left <= right <= left + 1
        }),
{
}

/// A dot lies in the cell of its column and row, two dots to a column and four to a row, and
/// is lit if its bit is set there.
pub proof fn dots_lie_in_their_cell(grid: BrailleGrid, px: int, py: int)
    requires
        grid.on_grid(px, py),
    ensures
        0 <= px < 2 * grid.width,
        0 <= py < 4 * grid.height,
        grid.cell_of(px, py) == (py / 4) * grid.width + px / 2,
        grid.is_lit(px, py) <==> grid.dots@[(py / 4) * grid.width + px / 2] & dot_bit(
            px % 2,
            py % 4,
        ) != 0,
{
}

} // verus!
