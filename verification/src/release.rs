//! What the title of a release tells of it.

use vstd::prelude::*;

use crate::text::case::{ascii, to_uppercase, upper, uppercase};
use crate::text::chars::{opt, to_chars};
use crate::text::find::{has_text, occurs};

verus! {

/// The codec that a title in capitals names.
pub open spec fn codec_of(t: Seq<char>) -> Option<Seq<char>> {
    if occurs(t, "X265"@) || occurs(t, "H.265"@) || occurs(t, "HEVC"@) {
        Some("h265"@)
    } else if occurs(t, "AV1"@) {
        Some("av1"@)
    } else if occurs(t, "X264"@) || occurs(t, "H.264"@) || occurs(t, "AVC"@) {
        Some("h264"@)
    } else {
        None
    }
}

/// The source that a title in capitals names.
pub open spec fn source_of(t: Seq<char>) -> Option<Seq<char>> {
    if occurs(t, "BLURAY"@) {
        Some("BluRay"@)
    } else if occurs(t, "BDREMUX"@) {
        Some("BDRemux"@)
    } else if occurs(t, "WEB-DL"@) || occurs(t, "WEBDL"@) {
        Some("WEB-DL"@)
    } else if occurs(t, "WEBRIP"@) {
        Some("WEBRip"@)
    } else if occurs(t, "HDTV"@) {
        Some("HDTV"@)
    } else if occurs(t, "DVDRIP"@) {
        Some("DVDRip"@)
    } else if occurs(t, "CAM"@) || occurs(t, "HDCAM"@) {
        Some("CAM"@)
    } else if occurs(t, "TS"@) {
        Some("TS"@)
    } else {
        None
    }
}

/// A title in capitals names a format with a high dynamic range.
pub open spec fn hdr_of(t: Seq<char>) -> bool {
    ||| occurs(t, "HDR10+"@)
    ||| occurs(t, "HDR10"@)
    ||| occurs(t, "HDR"@)
    ||| occurs(t, "DOLBY VISION"@)
    ||| occurs(t, "DV "@)
    ||| occurs(t, " DV."@)
}

/// The quality that a title in capitals names.
pub open spec fn quality_of(t: Seq<char>) -> Option<Seq<char>> {
    if occurs(t, "2160P"@) {
        Some("2160p"@)
    } else if occurs(t, "4K"@) {
        Some("4k"@)
    } else if occurs(t, "UHD"@) {
        Some("uhd"@)
    } else if occurs(t, "1080P"@) {
        Some("1080p"@)
    } else if occurs(t, "720P"@) {
        Some("720p"@)
    } else if occurs(t, "480P"@) {
        Some("480p"@)
    } else if occurs(t, "BDREMUX"@) {
        Some("BD Remux"@)
    } else if occurs(t, "BLURAY"@) {
        Some("Blu-ray"@)
    } else if occurs(t, "WEB-DL"@) {
        Some("WEB-DL"@)
    } else {
        None
    }
}

/// The codec that a title in capitals names.
pub fn codec_in(upper_title: &str) -> (r: Option<String>)
    ensures
        opt(r) == codec_of(upper_title@),
{
    let t = to_chars(upper_title);
    let t = t.as_slice();
    if has_text(t, "X265") || has_text(t, "H.265") || has_text(t, "HEVC") {
        Some("h265".to_owned())
    } else if has_text(t, "AV1") {
        Some("av1".to_owned())
    } else if has_text(t, "X264") || has_text(t, "H.264") || has_text(t, "AVC") {
        Some("h264".to_owned())
    } else {
        None
    }
}

/// The source that a title in capitals names.
pub fn source_in(upper_title: &str) -> (r: Option<String>)
    ensures
        opt(r) == source_of(upper_title@),
{
    let t = to_chars(upper_title);
    let t = t.as_slice();
    if has_text(t, "BLURAY") {
        Some("BluRay".to_owned())
    } else if has_text(t, "BDREMUX") {
        Some("BDRemux".to_owned())
    } else if has_text(t, "WEB-DL") || has_text(t, "WEBDL") {
        Some("WEB-DL".to_owned())
    } else if has_text(t, "WEBRIP") {
        Some("WEBRip".to_owned())
    } else if has_text(t, "HDTV") {
        Some("HDTV".to_owned())
    } else if has_text(t, "DVDRIP") {
        Some("DVDRip".to_owned())
    } else if has_text(t, "CAM") || has_text(t, "HDCAM") {
        Some("CAM".to_owned())
    } else if has_text(t, "TS") {
        Some("TS".to_owned())
    } else {
        None
    }
}

/// Whether a title in capitals names a format with a high dynamic range.
pub fn hdr_in(upper_title: &str) -> (r: bool)
    ensures
        r == hdr_of(upper_title@),
{
    let t = to_chars(upper_title);
    let t = t.as_slice();
    has_text(t, "HDR10+") || has_text(t, "HDR10") || has_text(t, "HDR") || has_text(
        t,
        "DOLBY VISION",
    ) || has_text(t, "DV ") || has_text(t, " DV.")
}

/// The quality that a title in capitals names.
pub fn quality_in(upper_title: &str) -> (r: Option<String>)
    ensures
        opt(r) == quality_of(upper_title@),
{
    let t = to_chars(upper_title);
    let t = t.as_slice();
    if has_text(t, "2160P") {
        Some("2160p".to_owned())
    } else if has_text(t, "4K") {
        Some("4k".to_owned())
    } else if has_text(t, "UHD") {
        Some("uhd".to_owned())
    } else if has_text(t, "1080P") {
        Some("1080p".to_owned())
    } else if has_text(t, "720P") {
        Some("720p".to_owned())
    } else if has_text(t, "480P") {
        Some("480p".to_owned())
    } else if has_text(t, "BDREMUX") {
        Some("BD Remux".to_owned())
    } else if has_text(t, "BLURAY") {
        Some("Blu-ray".to_owned())
    } else if has_text(t, "WEB-DL") {
        Some("WEB-DL".to_owned())
    } else {
        None
    }
}

/// The codec that a title names, in whatever case.
pub fn extract_codec(title: &str) -> (r: Option<String>)
    ensures
        opt(r) == codec_of(uppercase(title@)),
        ascii(title@) ==> opt(r) == codec_of(upper(title@)),
{
    codec_in(to_uppercase(title).as_str())
}

/// The source that a title names, in whatever case.
pub fn extract_source(title: &str) -> (r: Option<String>)
    ensures
        opt(r) == source_of(uppercase(title@)),
        ascii(title@) ==> opt(r) == source_of(upper(title@)),
{
    source_in(to_uppercase(title).as_str())
}

/// Whether a title names a format with a high dynamic range, in whatever case.
pub fn extract_hdr(title: &str) -> (r: bool)
    ensures
        r == hdr_of(uppercase(title@)),
        ascii(title@) ==> r == hdr_of(upper(title@)),
{
    hdr_in(to_uppercase(title).as_str())
}

/// The quality that a title names, in whatever case.
pub fn extract_quality(title: &str) -> (r: Option<String>)
    ensures
        opt(r) == quality_of(uppercase(title@)),
        ascii(title@) ==> opt(r) == quality_of(upper(title@)),
{
    quality_in(to_uppercase(title).as_str())
}

/// Each name of a codec stands for it, and without any of them none is told.
/// Of several, H.265 counts before AV1, and both before H.264.
pub proof fn codecs_are_told(t: Seq<char>)
    ensures
        occurs(t, "X265"@) || occurs(t, "H.265"@) || occurs(t, "HEVC"@) ==> codec_of(t) == Some(
            "h265"@,
        ),
        codec_of(t) == Some("h265"@) ==> occurs(t, "X265"@) || occurs(t, "H.265"@) || occurs(
            t,
            "HEVC"@,
        ),
        occurs(t, "AV1"@) ==> codec_of(t) == Some("h265"@) || codec_of(t) == Some("av1"@),
        codec_of(t) == Some("av1"@) ==> occurs(t, "AV1"@),
        occurs(t, "X264"@) || occurs(t, "H.264"@) || occurs(t, "AVC"@) ==> codec_of(t) is Some,
        codec_of(t) == Some("h264"@) ==> (occurs(t, "X264"@) || occurs(t, "H.264"@) || occurs(
            t,
            "AVC"@,
        )) && !occurs(t, "AV1"@),
        codec_of(t) matches Some(c) ==> c == "h265"@ || c == "av1"@ || c == "h264"@,
{
    reveal_strlit("h265");
    reveal_strlit("av1");
    reveal_strlit("h264");
    assert("h265"@[3] != "h264"@[3]);
    assert("av1"@.len() == 3);
}

/// The first of these names that a title holds tells its source; without any
/// of them none is told.
pub proof fn sources_are_told(t: Seq<char>)
    ensures
        occurs(t, "BLURAY"@) ==> source_of(t) == Some("BluRay"@),
        !occurs(t, "BLURAY"@) ==> {
            &&& occurs(t, "BDREMUX"@) ==> source_of(t) == Some("BDRemux"@)
            &&& !occurs(t, "BDREMUX"@) ==> {
                &&& occurs(t, "WEB-DL"@) || occurs(t, "WEBDL"@) ==> source_of(t) == Some("WEB-DL"@)
                &&& !occurs(t, "WEB-DL"@) && !occurs(t, "WEBDL"@) ==> {
                    &&& occurs(t, "WEBRIP"@) ==> source_of(t) == Some("WEBRip"@)
                    &&& !occurs(t, "WEBRIP"@) && occurs(t, "HDTV"@) ==> source_of(t) == Some(
                        "HDTV"@,
                    )
                    &&& !occurs(t, "WEBRIP"@) && !occurs(t, "HDTV"@) ==> {
                        &&& occurs(t, "DVDRIP"@) ==> source_of(t) == Some("DVDRip"@)
                        &&& !occurs(t, "DVDRIP"@) && (occurs(t, "CAM"@) || occurs(t, "HDCAM"@))
                            ==> source_of(t) == Some("CAM"@)
                        &&& !occurs(t, "DVDRIP"@) && !occurs(t, "CAM"@) && !occurs(t, "HDCAM"@)
                            ==> source_of(t) == if occurs(t, "TS"@) {
                            Some("TS"@)
                        } else {
                            None
                        }
                    }
                }
            }
        },
{
}

/// The higher of two qualities that a title names counts, by these ranks, and
/// without any of the names none is told.
pub proof fn qualities_are_told(t: Seq<char>)
    ensures
        occurs(t, "2160P"@) ==> quality_of(t) == Some("2160p"@),
        !occurs(t, "2160P"@) && occurs(t, "4K"@) ==> quality_of(t) == Some("4k"@),
        !occurs(t, "2160P"@) && !occurs(t, "4K"@) && occurs(t, "UHD"@) ==> quality_of(t) == Some(
            "uhd"@,
        ),
        !occurs(t, "2160P"@) && !occurs(t, "4K"@) && !occurs(t, "UHD"@) ==> {
            &&& occurs(t, "1080P"@) ==> quality_of(t) == Some("1080p"@)
            &&& !occurs(t, "1080P"@) && occurs(t, "720P"@) ==> quality_of(t) == Some("720p"@)
            &&& !occurs(t, "1080P"@) && !occurs(t, "720P"@) && occurs(t, "480P"@) ==> quality_of(t)
                == Some("480p"@)
            &&& !occurs(t, "1080P"@) && !occurs(t, "720P"@) && !occurs(t, "480P"@) ==> {
                &&& occurs(t, "BDREMUX"@) ==> quality_of(t) == Some("BD Remux"@)
                &&& !occurs(t, "BDREMUX"@) && occurs(t, "BLURAY"@) ==> quality_of(t) == Some(
                    "Blu-ray"@,
                )
                &&& !occurs(t, "BDREMUX"@) && !occurs(t, "BLURAY"@) ==> quality_of(t)
                    == if occurs(t, "WEB-DL"@) {
                    Some("WEB-DL"@)
                } else {
                    None
                }
            }
        },
{
}

/// Each name of a format with a high dynamic range tells of it, and without
/// any of them nothing does.
pub proof fn high_range_is_told(t: Seq<char>)
    ensures
        occurs(t, "HDR"@) ==> hdr_of(t),
        occurs(t, "HDR10"@) ==> hdr_of(t),
        occurs(t, "HDR10+"@) ==> hdr_of(t),
        occurs(t, "DOLBY VISION"@) ==> hdr_of(t),
        occurs(t, "DV "@) ==> hdr_of(t),
        occurs(t, " DV."@) ==> hdr_of(t),
        hdr_of(t) ==> occurs(t, "HDR10+"@) || occurs(t, "HDR10"@) || occurs(t, "HDR"@) || occurs(
            t,
            "DOLBY VISION"@,
        ) || occurs(t, "DV "@) || occurs(t, " DV."@),
{
}

} // verus!
