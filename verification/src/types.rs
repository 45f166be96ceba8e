//! Shared application types: the audio quality levels offered for download.

use vstd::prelude::*;

use crate::text::{i64_decimal, int_decimal};

verus! {

/// Audio quality selection, one variant per Qobuz `format_id`.
#[derive(Clone, Copy, Debug, PartialEq, Eq, Structural)]
pub enum Quality {
    /// MP3 320kbps (`format_id` = 5).
    Mp3_320,
    /// FLAC 16-bit / 44.1kHz (`format_id` = 6).
    Flac16_44,
    /// FLAC 24-bit / 96kHz (`format_id` = 7).
    Flac24_96,
    /// FLAC 24-bit / 192kHz (`format_id` = 27).
    Flac24_192,
}

/// The Qobuz `format_id` of each quality.
pub open spec fn quality_format_id(q: Quality) -> i32 {
    match q {
        Quality::Mp3_320 => 5,
        Quality::Flac16_44 => 6,
        Quality::Flac24_96 => 7,
        Quality::Flac24_192 => 27,
    }
}

/// The quality whose `format_id` is `v`, if any.
pub open spec fn quality_of_format_id(v: i32) -> Option<Quality> {
    if v == 5 {
        Some(Quality::Mp3_320)
    } else if v == 6 {
        Some(Quality::Flac16_44)
    } else if v == 7 {
        Some(Quality::Flac24_96)
    } else if v == 27 {
        Some(Quality::Flac24_192)
    } else {
        None
    }
}

/// The display text of each quality.
pub open spec fn quality_text(q: Quality) -> Seq<char> {
    match q {
        Quality::Mp3_320 => "MP3 320kbps"@,
        Quality::Flac16_44 => "FLAC 16-bit / 44.1kHz"@,
        Quality::Flac24_96 => "FLAC 24-bit / 96kHz"@,
        Quality::Flac24_192 => "FLAC 24-bit / 192kHz"@,
    }
}

impl Quality {
    /// Returns the file extension for this quality level.
    pub fn extension(self) -> (r: &'static str)
        ensures
            r@ == (if self == Quality::Mp3_320 {
                "mp3"@
            } else {
                "flac"@
            }),
    {
        match self {
            Quality::Mp3_320 => "mp3",
            Quality::Flac16_44 | Quality::Flac24_96 | Quality::Flac24_192 => "flac",
        }
    }

    /// The human-readable name of this quality level.
    pub fn to_string(&self) -> (r: String)
        ensures
            r@ == quality_text(*self),
    {
        match self {
            Quality::Mp3_320 => String::from_str("MP3 320kbps"),
            Quality::Flac16_44 => String::from_str("FLAC 16-bit / 44.1kHz"),
            Quality::Flac24_96 => String::from_str("FLAC 24-bit / 96kHz"),
            Quality::Flac24_192 => String::from_str("FLAC 24-bit / 192kHz"),
        }
    }

    /// The quality level with the given `format_id`; any other value is
    /// refused with the message `Unknown quality format_id: {value}`.
    pub fn try_from_format_id(value: i32) -> (r: Result<Quality, String>)
        ensures
            quality_of_format_id(value) matches Some(q) ==> r == Ok::<Quality, String>(q),
            quality_of_format_id(value) is None ==> (r matches Err(msg) && msg@
                == "Unknown quality format_id: "@ + int_decimal(value as int)),
    {
        if value == 5 {
            Ok(Quality::Mp3_320)
        } else if value == 6 {
            Ok(Quality::Flac16_44)
        } else if value == 7 {
            Ok(Quality::Flac24_96)
        } else if value == 27 {
            Ok(Quality::Flac24_192)
        } else {
            let mut msg = String::from_str("Unknown quality format_id: ");
            let digits = i64_decimal(value as i64);
            let d = crate::text::string_of(&digits);
            msg.append(d.as_str());
            Err(msg)
        }
    }
}

impl From<Quality> for i32 {
    /// The Qobuz `format_id` of a quality level.
    fn from(quality: Quality) -> (r: i32) {
        match quality {
            Quality::Mp3_320 => 5,
            Quality::Flac16_44 => 6,
            Quality::Flac24_96 => 7,
            Quality::Flac24_192 => 27,
        }
    }
}

impl vstd::std_specs::convert::FromSpecImpl<Quality> for i32 {
    open spec fn obeys_from_spec() -> bool {
        true
    }

    open spec fn from_spec(quality: Quality) -> i32 {
        quality_format_id(quality)
    }
}

impl Default for Quality {
    /// FLAC 16-bit / 44.1kHz.
    fn default() -> (r: Quality)
        ensures
            r == Quality::Flac16_44,
    {
        Quality::Flac16_44
    }
}

/// Every quality level survives the round trip through its `format_id`.
pub proof fn lemma_format_id_round_trip(q: Quality)
    ensures
        quality_of_format_id(quality_format_id(q)) == Some(q),
{
}

} // verus!
