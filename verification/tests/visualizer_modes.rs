use koan::tui::visualizer::{VisualizerMode, VisualizerPalette};

#[test]
fn palette_parse_variants() {
    assert_eq!(VisualizerPalette::parse("mono"), VisualizerPalette::Mono);
    assert_eq!(
        VisualizerPalette::parse("spectrum"),
        VisualizerPalette::Spectrum
    );
    assert_eq!(VisualizerPalette::parse("fire"), VisualizerPalette::Fire);
    assert_eq!(VisualizerPalette::parse("neon"), VisualizerPalette::Neon);
    assert_eq!(VisualizerPalette::parse("FIRE"), VisualizerPalette::Fire);
    // Unknown falls back to spectrum.
    assert_eq!(
        VisualizerPalette::parse("garbage"),
        VisualizerPalette::Spectrum
    );
}

#[test]
fn mode_parse_variants() {
    assert_eq!(VisualizerMode::parse("bars"), VisualizerMode::Bars);
    assert_eq!(VisualizerMode::parse("spectrum"), VisualizerMode::Bars);
    assert_eq!(
        VisualizerMode::parse("oscilloscope"),
        VisualizerMode::Oscilloscope
    );
    assert_eq!(VisualizerMode::parse("scope"), VisualizerMode::Oscilloscope);
    assert_eq!(VisualizerMode::parse("radial"), VisualizerMode::Radial);
    assert_eq!(
        VisualizerMode::parse("particles"),
        VisualizerMode::Particles
    );
    assert_eq!(
        VisualizerMode::parse("lissajous"),
        VisualizerMode::Lissajous
    );
    assert_eq!(VisualizerMode::parse("phase"), VisualizerMode::Lissajous);
    assert_eq!(
        VisualizerMode::parse("spectrogram"),
        VisualizerMode::Spectrogram
    );
    assert_eq!(
        VisualizerMode::parse("waterfall"),
        VisualizerMode::Spectrogram
    );
    assert_eq!(
        VisualizerMode::parse("stereo"),
        VisualizerMode::StereoWaveform
    );
    assert_eq!(VisualizerMode::parse("vu"), VisualizerMode::VuMeter);
    assert_eq!(VisualizerMode::parse("meter"), VisualizerMode::VuMeter);
    assert_eq!(VisualizerMode::parse("flame"), VisualizerMode::Flame);
    assert_eq!(VisualizerMode::parse("mountain"), VisualizerMode::Flame);
    assert_eq!(VisualizerMode::parse("plasma"), VisualizerMode::Plasma);
    assert_eq!(VisualizerMode::parse("tunnel"), VisualizerMode::Tunnel);
    assert_eq!(
        VisualizerMode::parse("wireframe"),
        VisualizerMode::Wireframe
    );
    assert_eq!(VisualizerMode::parse("wire"), VisualizerMode::Wireframe);
    assert_eq!(VisualizerMode::parse("3d"), VisualizerMode::Wireframe);
    assert_eq!(
        VisualizerMode::parse("metaballs"),
        VisualizerMode::Metaballs
    );
    assert_eq!(VisualizerMode::parse("blobs"), VisualizerMode::Metaballs);
    assert_eq!(
        VisualizerMode::parse("starfield"),
        VisualizerMode::Starfield
    );
    assert_eq!(VisualizerMode::parse("stars"), VisualizerMode::Starfield);
    assert_eq!(VisualizerMode::parse("terrain"), VisualizerMode::Terrain);
    assert_eq!(VisualizerMode::parse("landscape"), VisualizerMode::Terrain);
    assert_eq!(VisualizerMode::parse("moire"), VisualizerMode::Moire);
    assert_eq!(
        VisualizerMode::parse("kaleidoscope"),
        VisualizerMode::Kaleidoscope
    );
    assert_eq!(VisualizerMode::parse("julia"), VisualizerMode::Julia);
    assert_eq!(VisualizerMode::parse("fractal"), VisualizerMode::Julia);
    assert_eq!(VisualizerMode::parse("spiral"), VisualizerMode::Spiral);
    assert_eq!(
        VisualizerMode::parse("interference"),
        VisualizerMode::Interference
    );
    assert_eq!(
        VisualizerMode::parse("ripples"),
        VisualizerMode::Interference
    );
    assert_eq!(VisualizerMode::parse("wormhole"), VisualizerMode::Wormhole);
    assert_eq!(VisualizerMode::parse("matrix"), VisualizerMode::Matrix);
    assert_eq!(VisualizerMode::parse("cmatrix"), VisualizerMode::Matrix);
    assert_eq!(VisualizerMode::parse("pleasures"), VisualizerMode::Terrain);
    assert_eq!(VisualizerMode::parse("garbage"), VisualizerMode::Bars);
}

#[test]
fn mode_cycles_through_all() {
    let mut mode = VisualizerMode::Bars;
    let expected = [
        VisualizerMode::Oscilloscope,
        VisualizerMode::Radial,
        VisualizerMode::Particles,
        VisualizerMode::Lissajous,
        VisualizerMode::Spectrogram,
        VisualizerMode::StereoWaveform,
        VisualizerMode::VuMeter,
        VisualizerMode::Flame,
        VisualizerMode::Plasma,
        VisualizerMode::Tunnel,
        VisualizerMode::Wireframe,
        VisualizerMode::Metaballs,
        VisualizerMode::Starfield,
        VisualizerMode::Terrain,
        VisualizerMode::Moire,
        VisualizerMode::Kaleidoscope,
        VisualizerMode::Julia,
        VisualizerMode::Spiral,
        VisualizerMode::Interference,
        VisualizerMode::Wormhole,
        VisualizerMode::Matrix,
        VisualizerMode::Bars,
    ];
    for exp in expected {
        mode = mode.next();
        assert_eq!(mode, exp);
    }
}

