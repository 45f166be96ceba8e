//! The preferences dialog's quality selector.

use vstd::prelude::*;

use crate::types::Quality;

verus! {

/// The position of each quality in the dialog's quality list.
pub open spec fn dialog_index(q: Quality) -> u32 {
    match q {
        Quality::Mp3_320 => 0,
        Quality::Flac16_44 => 1,
        Quality::Flac24_96 => 2,
        Quality::Flac24_192 => 3,
    }
}

/// The quality at each position of the dialog's quality list; other
/// positions mean FLAC 16-bit / 44.1kHz.
pub open spec fn dialog_quality(index: u32) -> Quality {
    if index == 0 {
        Quality::Mp3_320
    } else if index == 2 {
        Quality::Flac24_96
    } else if index == 3 {
        Quality::Flac24_192
    } else {
        Quality::Flac16_44
    }
}

/// Maps a `Quality` value to the `ComboRow` selected index.
pub fn quality_to_index(quality: Quality) -> (i: u32)
    ensures
        i == dialog_index(quality),
{
    match quality {
        Quality::Mp3_320 => 0,
        Quality::Flac16_44 => 1,
        Quality::Flac24_96 => 2,
        Quality::Flac24_192 => 3,
    }
}

/// Maps a `ComboRow` selected index to a `Quality` value.
pub fn index_to_quality(index: u32) -> (q: Quality)
    ensures
        q == dialog_quality(index),
{
    match index {
        0 => Quality::Mp3_320,
        2 => Quality::Flac24_96,
        3 => Quality::Flac24_192,
        _ => Quality::Flac16_44,
    }
}

/// Opening the dialog shows the saved quality, and saving what it shows
/// keeps that quality.
pub proof fn lemma_dialog_round_trip(q: Quality, index: u32)
    ensures
        dialog_quality(dialog_index(q)) == q,
        index < 4 ==> dialog_index(dialog_quality(index)) == index,
{
}

} // verus!
