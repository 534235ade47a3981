//! The core's view of a chat message: an ordered sequence of typed segments,
//! and the scans over it — first media attachment, first quote marker, and
//! flattening to plain text.

use vstd::prelude::*;
use crate::num::{parse_i32, spec_parse_i32};

verus! {

/// Classification of a resolved media attachment.
#[derive(Clone, Copy, PartialEq, Eq, Structural, Debug)]
pub enum MediaKind {
    Image,
    Video,
}

/// A resolved media attachment: its direct URL and its kind.
#[derive(Clone, Debug)]
pub struct MediaReference {
    pub url: String,
    pub kind: MediaKind,
}

/// One typed segment of a chat message, as the core reads it. The external
/// representation carries free-form payloads; only the fields the core reads
/// are modeled, and an absent or non-string field is `None`.
#[derive(Clone, Debug)]
pub enum Segment {
    /// Plain text with its payload.
    Text { text: String },
    /// An inline image; its direct URL may be absent.
    Image { url: Option<String> },
    /// An inline video; its URL sometimes stands in `url`, sometimes in `file`.
    Video { url: Option<String>, file: Option<String> },
    /// A quote marker referencing an earlier message by an opaque identifier.
    Quote { id: String },
    /// Any other segment kind: carries nothing the core reads.
    Other,
}

/// The media that one segment directly carries: an image's `url`, or a
/// video's `url` falling back to its `file` field.
pub open spec fn seg_media(seg: Segment) -> Option<(Seq<char>, MediaKind)> {
    match seg {
        Segment::Image { url: Some(u) } => Some((u@, MediaKind::Image)),
        Segment::Video { url: Some(u), file: _ } => Some((u@, MediaKind::Video)),
        Segment::Video { url: None, file: Some(f) } => Some((f@, MediaKind::Video)),
        _ => None,
    }
}

/// The first media-carrying segment of `segs` at or after position `i`.
pub open spec fn first_media_from(segs: Seq<Segment>, i: int) -> Option<(Seq<char>, MediaKind)>
    decreases segs.len() - i,
{
    if i < 0 || i >= segs.len() {
        None
    } else {
        match seg_media(segs[i]) {
            Some(m) => Some(m),
            None => first_media_from(segs, i + 1),
        }
    }
}

/// The URL and kind of the first image or video segment of `segs`.
pub open spec fn spec_first_media(segs: Seq<Segment>) -> Option<(Seq<char>, MediaKind)> {
    first_media_from(segs, 0)
}

/// Returns the first image or video of `segments` with its URL, exactly as
/// `spec_first_media` states it.
pub fn first_media(segments: &Vec<Segment>) -> (r: Option<MediaReference>)
    ensures
        match r {
            Some(m) => spec_first_media(segments@) == Some((m.url@, m.kind)),
            None => spec_first_media(segments@) is None,
        },
{
    let mut i: usize = 0;
    while i < segments.len()
        invariant
            i <= segments@.len(),
            first_media_from(segments@, 0) == first_media_from(segments@, i as int),
        decreases segments@.len() - i,
    {
        match &segments[i] {
            Segment::Image { url: Some(u) } => {
                return Some(MediaReference { url: u.clone(), kind: MediaKind::Image });
            },
            Segment::Video { url: Some(u), file: _ } => {
                return Some(MediaReference { url: u.clone(), kind: MediaKind::Video });
            },
            Segment::Video { url: None, file: Some(f) } => {
                return Some(MediaReference { url: f.clone(), kind: MediaKind::Video });
            },
            _ => {},
        }
        proof {
            assert(seg_media(segments@[i as int]) is None);
        }
        i = i + 1;
    }
    None
}

/// When a media segment stands at `i` and none stands before it, the scan
/// returns exactly that segment's media: a picture attached to the message
/// itself wins over anything a quote might hold.
pub proof fn lemma_first_media_at(segs: Seq<Segment>, i: int)
    requires
        0 <= i < segs.len(),
        seg_media(segs[i]) is Some,
        forall|k: int| 0 <= k < i ==> seg_media(segs[k]) is None,
    ensures
        spec_first_media(segs) == seg_media(segs[i]),
{
    lemma_first_media_skip(segs, 0, i);
}

/// The scan over `segs` skips media-free positions.
proof fn lemma_first_media_skip(segs: Seq<Segment>, j: int, i: int)
    requires
        0 <= j <= i < segs.len(),
        seg_media(segs[i]) is Some,
        forall|k: int| j <= k < i ==> seg_media(segs[k]) is None,
    ensures
        first_media_from(segs, j) == seg_media(segs[i]),
    decreases i - j,
{
    if j < i {
        lemma_first_media_skip(segs, j + 1, i);
    }
}

/// The identifier of the first quote marker of `segs` at or after `i`.
pub open spec fn quote_id_from(segs: Seq<Segment>, i: int) -> Option<Seq<char>>
    decreases segs.len() - i,
{
    if i < 0 || i >= segs.len() {
        None
    } else {
        match segs[i] {
            Segment::Quote { id } => Some(id@),
            _ => quote_id_from(segs, i + 1),
        }
    }
}

/// The identifier carried by the first quote marker of `segs`, if any.
pub open spec fn spec_quote_id(segs: Seq<Segment>) -> Option<Seq<char>> {
    quote_id_from(segs, 0)
}

/// The first quote marker's identifier parsed as an integer: nothing when no
/// quote marker is present or its identifier is not numeric.
pub open spec fn spec_quote_target(segs: Seq<Segment>) -> Option<i32> {
    match spec_quote_id(segs) {
        Some(id) => spec_parse_i32(id),
        None => None,
    }
}

/// Returns the message identifier the first quote marker of `segments` refers
/// to, exactly as `spec_quote_target` states it.
pub fn quote_target(segments: &Vec<Segment>) -> (r: Option<i32>)
    ensures
        r == spec_quote_target(segments@),
{
    let mut i: usize = 0;
    while i < segments.len()
        invariant
            i <= segments@.len(),
            quote_id_from(segments@, 0) == quote_id_from(segments@, i as int),
        decreases segments@.len() - i,
    {
        match &segments[i] {
            Segment::Quote { id } => {
                return parse_i32(id.as_str());
            },
            _ => {},
        }
        i = i + 1;
    }
    None
}

/// The text payload of one segment; empty for non-text segments.
pub open spec fn seg_text(seg: Segment) -> Seq<char> {
    match seg {
        Segment::Text { text } => text@,
        _ => Seq::<char>::empty(),
    }
}

/// The concatenation of the text payloads of `segs`, in order.
pub open spec fn concat_texts(segs: Seq<Segment>) -> Seq<char>
    decreases segs.len(),
{
    if segs.len() == 0 {
        Seq::<char>::empty()
    } else {
        concat_texts(segs.drop_last()) + seg_text(segs.last())
    }
}

/// The quoted message flattened to plain text: the concatenation of its text
/// segments, or nothing when that concatenation is empty.
pub open spec fn spec_flatten_text(segs: Seq<Segment>) -> Option<Seq<char>> {
    if concat_texts(segs).len() == 0 {
        None
    } else {
        Some(concat_texts(segs))
    }
}

/// Concatenates the text segments of `segments`, exactly as
/// `spec_flatten_text` states it.
pub fn flatten_text(segments: &Vec<Segment>) -> (r: Option<String>)
    ensures
        match r {
            Some(t) => spec_flatten_text(segments@) == Some(t@),
            None => spec_flatten_text(segments@) is None,
        },
{
    let mut acc = String::new();
    let mut i: usize = 0;
    while i < segments.len()
        invariant
            i <= segments@.len(),
            acc@ == concat_texts(segments@.subrange(0, i as int)),
        decreases segments@.len() - i,
    {
        proof {
            assert(segments@.subrange(0, i + 1).drop_last() =~= segments@.subrange(0, i as int));
            assert(segments@.subrange(0, i + 1).last() == segments@[i as int]);
        }
        match &segments[i] {
            Segment::Text { text } => {
                acc.append(text.as_str());
            },
            _ => {
                proof {
                    assert(acc@ + seg_text(segments@[i as int]) =~= acc@);
                }
            },
        }
        i = i + 1;
    }
    proof {
        assert(segments@.subrange(0, segments@.len() as int) =~= segments@);
    }
    if acc.as_str().unicode_len() == 0 {
        None
    } else {
        Some(acc)
    }
}

} // verus!
