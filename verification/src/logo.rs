//! The logo: a face in block letters, and the circle in the tray.
use crate::model::Phase;
use vstd::prelude::*;

verus! {

/// The face, line by line.
pub const ANSI_FACE: [&'static str; 9] = [
    "       ▄▄▄▄▄▄▄▄▄▄▄       ",
    "    ▄███████████████▄    ",
    "  ▄███████████████████▄  ",
    "  █████  ███████  █████  ",
    "  ██████████ ██████████  ",
    "  ████████ █ █ ████████  ",
    "   █████████ ███████▀    ",
    "  ▄████▀▀▀▀▀▀▀▀▀▀▀▀      ",
    "  ▀▀                     ",
];

/// The color of a phase: red, green and blue.
pub open spec fn phase_color(phase: Phase) -> Seq<u8> {
    match phase {
        Phase::Recording => seq![255u8, 100, 115],
        Phase::Error => seq![255u8, 100, 115],
        Phase::Transcribing => seq![243u8, 199, 125],
        Phase::Ready => seq![158u8, 228, 182],
        Phase::Idle => seq![146u8, 158, 174],
    }
}

/// Pixels in one color, each with its own opacity.
pub open spec fn painted(color: Seq<u8>, coverage: Seq<u8>) -> Seq<u8>
    decreases coverage.len(),
{
    if coverage.len() == 0 {
        Seq::empty()
    } else {
        painted(color, coverage.drop_last()) + color + seq![coverage.last()]
    }
}

/// The circle in the color of a phase, pixel by pixel, row by row: red, green, blue and opacity.
/// `coverage` says how much of each pixel the circle covers.
pub fn rgba(phase: Phase, coverage: &Vec<u8>) -> (pixels: Vec<u8>)
    ensures
        pixels@ == painted(phase_color(phase), coverage@),
        pixels.len() == 4 * coverage.len(),
{
    let color: (u8, u8, u8) = match phase {
        Phase::Recording | Phase::Error => (255, 100, 115),
        Phase::Transcribing => (243, 199, 125),
        Phase::Ready => (158, 228, 182),
        Phase::Idle => (146, 158, 174),
    };
    let ghost all = coverage@;
    let mut pixels: Vec<u8> = Vec::new();
    let mut i: usize = 0;
    while i < coverage.len()
        invariant
            i <= coverage.len(),
            all == coverage@,
            seq![color.0, color.1, color.2] == phase_color(phase),
            pixels@ == painted(phase_color(phase), all.take(i as int)),
            pixels@.len() == 4 * i,
        decreases coverage.len() - i,
    {
        let ghost before = pixels@;
        pixels.push(color.0);
        pixels.push(color.1);
        pixels.push(color.2);
        pixels.push(coverage[i]);
        proof {
            assert(all.take(i + 1).drop_last() =~= all.take(i as int));
            assert(pixels@ =~= before + phase_color(phase) + seq![coverage[i as int]]);
        }
        i += 1;
    }
    proof {
        assert(all.take(i as int) =~= all);
    }
    pixels
}

} // verus!
