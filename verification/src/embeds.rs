//! Media links turned into embedded players: YouTube, Vimeo, Spotify, CodePen,
//! CodeSandbox and audio files.
use vstd::prelude::*;

use crate::text::{
    append_chars, chars_of, contains_seq, find, replace, replace_str, slice_contains,
    slice_find_from, string_of, sub_chars,
};

verus! {

/// The opening of a video or music player.
pub open spec fn media_frame() -> Seq<char> {
    "<iframe title=\"Video player\" frameborder=\"0\" allow=\"accelerometer; autoplay; clipboard-write; encrypted-media; gyroscope; picture-in-picture\" allowfullscreen"@
}

/// The opening of a CodeSandbox frame.
pub open spec fn sandbox_frame() -> Seq<char> {
    "<iframe frameborder=\"0\" title=\"Code Sandbox\" allow=\"accelerometer; ambient-light-sensor;\n    camera; encrypted-media; geolocation; gyroscope; hid; microphone; midi; payment; usb; vr;\n    xr-spatial-tracking\" sandbox=\"allow-forms allow-modals allow-popups allow-presentation\n    allow-same-origin allow-scripts\""@
}

/// The opening of a CodePen frame.
pub open spec fn pen_frame() -> Seq<char> {
    "<iframe frameborder=\"0\" title=\"CodePen\" scrolling=\"no\" allowtransparency=\"true\" allowfullscreen=\"true\" loading=\"lazy\""@
}

/// A frame opening with its source.
pub open spec fn framed(frame: Seq<char>, src: Seq<char>) -> Seq<char> {
    frame + " src=\""@ + src + "\"></iframe>"@
}

/// `s` with its first occurrence of `from` replaced by `to`.
pub open spec fn replace_first(s: Seq<char>, from: Seq<char>, to: Seq<char>) -> Seq<char> {
    match find(s, from) {
        Some(i) => s.take(i) + to + s.skip(i + from.len()),
        None => s,
    }
}

/// Replaces the first occurrence of `from`.
fn replace_first_str(s: &str, from: &str, to: &str) -> (r: String)
    ensures
        r@ == replace_first(s@, from@, to@),
{
    let v = chars_of(s);
    let f = chars_of(from);
    match slice_find_from(v.as_slice(), f.as_slice(), 0) {
        Some(i) => {
            proof {
                crate::text::lemma_find_from_contains(v@, f@, 0);
            }
            assert(i + f@.len() <= v@.len());
            assert(i + f.len() <= v.len());
            let mut out = sub_chars(v.as_slice(), 0, i);
            let t = chars_of(to);
            append_chars(&mut out, t.as_slice());
            let rest = sub_chars(v.as_slice(), i + f.len(), v.len());
            append_chars(&mut out, rest.as_slice());
            assert(out@ =~= replace_first(s@, from@, to@));
            string_of(out.as_slice())
        },
        None => s.to_string(),
    }
}

/// Whether `s` holds `p`.
fn str_contains(s: &str, p: &str) -> (r: bool)
    ensures
        r == contains_seq(s@, p@),
{
    let v = chars_of(s);
    let q = chars_of(p);
    slice_contains(v.as_slice(), q.as_slice())
}

/// A YouTube player for a source.
pub fn format_yt_url(src: &str) -> (r: String)
    ensures
        r@ == framed(media_frame(), src@),
{
    let mut s = String::from_str(
        "<iframe title=\"Video player\" frameborder=\"0\" allow=\"accelerometer; autoplay; clipboard-write; encrypted-media; gyroscope; picture-in-picture\" allowfullscreen",
    );
    s.append(" src=\"");
    s.append(src);
    s.append("\"></iframe>");
    s
}

/// The embeddable source of a YouTube link: a watch link becomes an embed link
/// (its first `&` becoming `?`), a short link with no `embed` becomes an embed
/// link, and anything else stays.
pub open spec fn youtube_src(link: Seq<char>) -> Seq<char> {
    if contains_seq(link, "watch?v="@) {
        let f = replace(link, "watch?v="@, "embed/"@);
        if contains_seq(f, "&"@) {
            replace_first(f, "&"@, "?"@)
        } else {
            f
        }
    } else if !contains_seq(link, "embed"@) && contains_seq(link, ".be"@) {
        replace(link, ".be/"@, "be.com/embed/"@)
    } else {
        link
    }
}

/// A YouTube player for a link.
pub fn transform_youtube_url(link: &str) -> (r: String)
    ensures
        r@ == framed(media_frame(), youtube_src(link@)),
{
    proof {
        reveal_strlit("watch?v=");
        reveal_strlit(".be/");
    }
    if str_contains(link, "watch?v=") {
        let mut formatted_link = replace_str(link, "watch?v=", "embed/");
        if str_contains(formatted_link.as_str(), "&") {
            formatted_link = replace_first_str(formatted_link.as_str(), "&", "?");
        }
        return format_yt_url(formatted_link.as_str());
    }
    if !str_contains(link, "embed") && str_contains(link, ".be") {
        let formatted_link = replace_str(link, ".be/", "be.com/embed/");
        return format_yt_url(formatted_link.as_str());
    }
    format_yt_url(link)
}

/// The embeddable source of a Vimeo link.
pub open spec fn vimeo_src(text: Seq<char>) -> Seq<char> {
    if !contains_seq(text, "player.vimeo.com"@) {
        replace(text, "vimeo.com"@, "player.vimeo.com/video"@)
    } else {
        text
    }
}

/// A Vimeo player for a link.
pub fn transform_vimeo_url(text: &str) -> (r: String)
    ensures
        r@ == framed(media_frame(), vimeo_src(text@)),
{
    proof {
        reveal_strlit("vimeo.com");
    }
    if !str_contains(text, "player.vimeo.com") {
        let link = replace_str(text, "vimeo.com", "player.vimeo.com/video");
        return format_yt_url(link.as_str());
    }
    format_yt_url(text)
}

/// The embeddable source of a Spotify link.
pub open spec fn spotify_src(text: Seq<char>) -> Seq<char> {
    if !contains_seq(text, ".com/embed"@) {
        replace(text, ".com/track"@, ".com/embed/track"@)
    } else {
        text
    }
}

/// A Spotify player for a link.
pub fn transform_spotify_url(text: &str) -> (r: String)
    ensures
        r@ == framed(media_frame(), spotify_src(text@)),
{
    proof {
        reveal_strlit(".com/track");
    }
    if !str_contains(text, ".com/embed") {
        let link = replace_str(text, ".com/track", ".com/embed/track");
        return format_yt_url(link.as_str());
    }
    format_yt_url(text)
}

/// The embeddable source of a CodePen link.
pub open spec fn pen_src(text: Seq<char>) -> Seq<char> {
    if !contains_seq(text, "/embed/"@) {
        replace(text, "/pen/"@, "/embed/"@)
    } else {
        text
    }
}

/// A CodePen frame for a link.
pub fn transform_cp_url(text: &str) -> (r: String)
    ensures
        r@ == framed(pen_frame(), pen_src(text@)),
{
    proof {
        reveal_strlit("/pen/");
    }
    let src = if !str_contains(text, "/embed/") {
        replace_str(text, "/pen/", "/embed/")
    } else {
        text.to_string()
    };
    let mut s = String::from_str(
        "<iframe frameborder=\"0\" title=\"CodePen\" scrolling=\"no\" allowtransparency=\"true\" allowfullscreen=\"true\" loading=\"lazy\"",
    );
    s.append(" src=\"");
    s.append(src.as_str());
    s.append("\"></iframe>");
    s
}

/// A CodeSandbox frame for a link (its share path made an embed path).
pub fn transform_cs_url(link: &str) -> (r: String)
    ensures
        r@ == framed(sandbox_frame(), replace(link@, ".io/s"@, ".io/embed"@)),
{
    proof {
        reveal_strlit(".io/s");
    }
    let src = replace_str(link, ".io/s", ".io/embed");
    let mut s = String::from_str(
        "<iframe frameborder=\"0\" title=\"Code Sandbox\" allow=\"accelerometer; ambient-light-sensor;\n    camera; encrypted-media; geolocation; gyroscope; hid; microphone; midi; payment; usb; vr;\n    xr-spatial-tracking\" sandbox=\"allow-forms allow-modals allow-popups allow-presentation\n    allow-same-origin allow-scripts\"",
    );
    s.append(" src=\"");
    s.append(src.as_str());
    s.append("\"></iframe>");
    s
}

/// An audio player for a link.
pub fn transform_audio_url(text: &str) -> (r: String)
    ensures
        r@ == "<audio src=\""@ + text@ + "\" controls></audio>"@,
{
    let mut s = String::from_str("<audio src=\"");
    s.append(text);
    s.append("\" controls></audio>");
    s
}

} // verus!
