//! The colors of the interface, as red, green and blue.
use crate::model::{ChunkStatus, Phase};
use vstd::prelude::*;

verus! {

/// A color: red, green and blue.
pub type Rgb = (u8, u8, u8);

/// The color behind everything.
pub const BG: (u8, u8, u8) = (18, 23, 30);

/// The color of what is of less weight.
pub const MUTED: (u8, u8, u8) = (134, 150, 165);

/// The color of what matters.
pub const MINT: (u8, u8, u8) = (185, 239, 214);

/// The color behind a chip.
pub const CHIP: (u8, u8, u8) = (32, 41, 51);

/// The bits of an `f32` that is nothing.
pub const NOTHING: u32 = 0;

/// The bits of an `f32` that is one.
pub const WHOLE: u32 = 0x3F80_0000;

/// A color of some opacity: the background where nothing of it is left, itself where all of it is,
/// and otherwise what lies between.
pub open spec fn faded(color: Rgb, opacity: u32, between: Rgb) -> Rgb {
    if opacity == NOTHING {
        BG
    } else if opacity == WHOLE {
        color
    } else {
        between
    }
}

/// A color of some opacity, as the bits of an `f32`. The color that lies `between` this and the
/// background comes of floating point, and is given.
pub fn fade(color: Rgb, opacity: u32, between: Rgb) -> (shade: Rgb)
    ensures
        shade == faded(color, opacity, between),
{
    if opacity == NOTHING {
        BG
    } else if opacity == WHOLE {
        color
    } else {
        between
    }
}

/// What is there in full keeps its color, and what is gone is the background.
pub proof fn law_fading_ends_in_the_background(color: Rgb, between: Rgb)
    ensures
        faded(color, WHOLE, between) == color,
        faded(color, NOTHING, between) == BG,
{
}

/// The color of a phase.
pub open spec fn tint_of_phase(phase: Phase) -> Rgb {
    match phase {
        Phase::Recording => (255u8, 124u8, 139u8),
        Phase::Error => (255u8, 124u8, 139u8),
        Phase::Transcribing => (243u8, 199u8, 125u8),
        Phase::Ready => MINT,
        Phase::Idle => MINT,
    }
}

/// The color of how far a chunk has come.
pub open spec fn tint_of_status(status: ChunkStatus) -> Rgb {
    match status {
        ChunkStatus::Recording => (255u8, 124u8, 139u8),
        ChunkStatus::Failed => (255u8, 124u8, 139u8),
        ChunkStatus::Transcribing => (243u8, 199u8, 125u8),
        ChunkStatus::Queued => (132u8, 179u8, 230u8),
        ChunkStatus::Ready => MINT,
        ChunkStatus::Canceled => MUTED,
    }
}

/// The color of a phase.
pub fn phase_tint(phase: Phase) -> (color: Rgb)
    ensures
        color == tint_of_phase(phase),
{
    match phase {
        Phase::Recording | Phase::Error => (255, 124, 139),
        Phase::Transcribing => (243, 199, 125),
        Phase::Ready | Phase::Idle => MINT,
    }
}

/// The color of how far a chunk has come.
pub fn status_tint(status: ChunkStatus) -> (color: Rgb)
    ensures
        color == tint_of_status(status),
{
    match status {
        ChunkStatus::Recording | ChunkStatus::Failed => (255, 124, 139),
        ChunkStatus::Transcribing => (243, 199, 125),
        ChunkStatus::Queued => (132, 179, 230),
        ChunkStatus::Ready => MINT,
        ChunkStatus::Canceled => MUTED,
    }
}

/// A phase and the chunks it is about have one color: red for what is recorded and what failed,
/// amber for what is transcribed, and mint for what is done.
pub proof fn law_colors_agree()
    ensures
        tint_of_phase(Phase::Recording) == tint_of_status(ChunkStatus::Recording),
        tint_of_phase(Phase::Error) == tint_of_status(ChunkStatus::Failed),
        tint_of_phase(Phase::Transcribing) == tint_of_status(ChunkStatus::Transcribing),
        tint_of_phase(Phase::Ready) == tint_of_status(ChunkStatus::Ready),
        tint_of_phase(Phase::Recording) == (255u8, 124u8, 139u8),
        tint_of_phase(Phase::Error) == (255u8, 124u8, 139u8),
        tint_of_phase(Phase::Transcribing) == (243u8, 199u8, 125u8),
        tint_of_phase(Phase::Idle) == (185u8, 239u8, 214u8),
        tint_of_phase(Phase::Ready) == (185u8, 239u8, 214u8),
        tint_of_status(ChunkStatus::Queued) == (132u8, 179u8, 230u8),
        tint_of_status(ChunkStatus::Canceled) == (134u8, 150u8, 165u8),
{
}

} // verus!
