//! The per-message dispatcher: runs the command matcher against the two
//! configured vocabularies, locates media or a URL, and decides the single
//! outbound reply — or the single quoted-message fetch whose outcome then
//! settles the reply.

use vstd::prelude::*;
use crate::link::{extract_url, spec_extract_url};
use crate::matcher::{parse_command, spec_parse_command};
use crate::message::{
    first_media, flatten_text, quote_target, spec_first_media, spec_flatten_text,
    spec_quote_target, MediaKind, Segment,
};

verus! {

/// A read-only snapshot of the configuration: the global switch, the optional
/// prefixes, and the two command vocabularies.
#[derive(Clone, Debug)]
pub struct Config {
    /// When false, the dispatcher takes no action at all.
    pub enabled: bool,
    /// Literals one of which must start the text, when the list is non-empty.
    pub prefixes: Vec<String>,
    /// The "extract-link" vocabulary: commands that ask for a media URL.
    pub cmd_to_url: Vec<String>,
    /// The "extract-media" vocabulary: commands that expand a URL into media.
    pub cmd_to_media: Vec<String>,
}

/// The Chinese word for "video" occurs in `s`.
pub open spec fn contains_video_word(s: Seq<char>) -> bool {
    exists|i: int| 0 <= i && i + 2 <= s.len() && (#[trigger] s[i]) == '\u{89C6}' && s[i + 1]
        == '\u{9891}'
}

/// Decides `contains_video_word` executably.
pub fn has_video_word(s: &str) -> (b: bool)
    ensures
        b == contains_video_word(s@),
{
    let n = s.unicode_len();
    let mut i: usize = 0;
    while n - i >= 2
        invariant
            n == s@.len(),
            i <= n,
            forall|k: int| 0 <= k < i ==> !((#[trigger] s@[k]) == '\u{89C6}' && s@[k + 1]
                == '\u{9891}'),
        decreases n - i,
    {
        if s.get_char(i) == '\u{89C6}' && s.get_char(i + 1) == '\u{9891}' {
            proof {
                assert(0 <= i as int && i + 2 <= s@.len() && s@[i as int] == '\u{89C6}' && s@[
                    i as int + 1
                ] == '\u{9891}');
            }
            return true;
        }
        i = i + 1;
    }
    proof {
        assert forall|k: int| 0 <= k && k + 2 <= s@.len() implies !((#[trigger] s@[k])
            == '\u{89C6}' && s@[k + 1] == '\u{9891}') by {
            assert(k < i);
        }
    }
    false
}

/// `s` ends with the four characters `.mp4`.
pub open spec fn ends_with_mp4(s: Seq<char>) -> bool {
    s.len() >= 4 && s[s.len() - 4] == '.' && s[s.len() - 3] == 'm' && s[s.len() - 2] == 'p' && s[
        s.len() - 1
    ] == '4'
}

/// `s` ends with the four characters `.mov`.
pub open spec fn ends_with_mov(s: Seq<char>) -> bool {
    s.len() >= 4 && s[s.len() - 4] == '.' && s[s.len() - 3] == 'm' && s[s.len() - 2] == 'o' && s[
        s.len() - 1
    ] == 'v'
}

/// Decides whether `url` carries one of the known video file suffixes.
pub fn has_video_suffix(url: &str) -> (b: bool)
    ensures
        b == (ends_with_mp4(url@) || ends_with_mov(url@)),
{
    let n = url.unicode_len();
    if n < 4 {
        return false;
    }
    let dot = url.get_char(n - 4);
    let c1 = url.get_char(n - 3);
    let c2 = url.get_char(n - 2);
    let c3 = url.get_char(n - 1);
    dot == '.' && c1 == 'm' && ((c2 == 'p' && c3 == '4') || (c2 == 'o' && c3 == 'v'))
}

/// The kind a resolved URL is sent back as: video when the matched command
/// names video or the URL carries a video suffix, image otherwise. A video
/// URL with any other suffix reached through an image-labeled command counts
/// as an image: the tie-break is exactly these two checks.
pub open spec fn spec_media_kind(cmd: Seq<char>, url: Seq<char>) -> MediaKind {
    if contains_video_word(cmd) || ends_with_mp4(url) || ends_with_mov(url) {
        MediaKind::Video
    } else {
        MediaKind::Image
    }
}

/// What remains to decide once the quoted message has been fetched.
#[derive(Clone, Copy, PartialEq, Eq, Structural, Debug)]
pub enum Pending {
    /// A link-extraction command matched: look for media in the fetched
    /// segments.
    Media,
    /// An extract-media command matched without a URL in its arguments: look
    /// for a URL in the fetched text. `video_cmd` records whether the matched
    /// command names video.
    Link { video_cmd: bool },
}

/// One outbound reply the dispatcher decides to emit.
#[derive(Clone, Debug)]
pub enum Reply {
    /// The located media's kind and direct URL, reported as text.
    Extracted { kind: MediaKind, url: String },
    /// The fixed apology when a link-extraction command found no media.
    MediaApology,
    /// The fixed apology when an extract-media command found no URL.
    LinkApology,
    /// A media attachment to build from the URL.
    Attachment { kind: MediaKind, url: String },
}

/// Mathematical model of a `Reply`, over character sequences.
pub enum ReplyModel {
    Extracted { kind: MediaKind, url: Seq<char> },
    MediaApology,
    LinkApology,
    Attachment { kind: MediaKind, url: Seq<char> },
}

impl View for Reply {
    type V = ReplyModel;

    open spec fn view(&self) -> ReplyModel {
        match self {
            Reply::Extracted { kind, url } => ReplyModel::Extracted { kind: *kind, url: url@ },
            Reply::MediaApology => ReplyModel::MediaApology,
            Reply::LinkApology => ReplyModel::LinkApology,
            Reply::Attachment { kind, url } => ReplyModel::Attachment { kind: *kind, url: url@ },
        }
    }
}

/// What the dispatcher decides for one incoming message.
#[derive(Clone, Debug)]
pub enum Action {
    /// The message is not for this system: emit nothing.
    Nothing,
    /// Emit exactly this reply.
    Emit(Reply),
    /// Fetch the quoted message `id` from the message source, then settle the
    /// reply with `dispatch_fetched` under `pending`.
    Fetch { id: i32, pending: Pending },
}

/// Mathematical model of an `Action`.
pub enum ActionModel {
    Nothing,
    Emit(ReplyModel),
    Fetch { id: i32, pending: Pending },
}

impl View for Action {
    type V = ActionModel;

    open spec fn view(&self) -> ActionModel {
        match self {
            Action::Nothing => ActionModel::Nothing,
            Action::Emit(reply) => ActionModel::Emit(reply@),
            Action::Fetch { id, pending } => ActionModel::Fetch {
                id: *id,
                pending: *pending,
            },
        }
    }
}

/// The dispatcher's whole decision for one incoming message, before any
/// fetch: the extract-link vocabulary is tried first and, when it matches,
/// suppresses the extract-media check; media on the message itself wins over
/// the quote; a quote is fetched only when needed and resolvable.
pub open spec fn spec_dispatch(cfg: Config, text: Seq<char>, segs: Seq<Segment>) -> ActionModel {
    if !cfg.enabled {
        ActionModel::Nothing
    } else {
        let m1 = spec_parse_command(text, cfg.prefixes.deep_view(), cfg.cmd_to_url.deep_view());
        if m1.0 {
            match spec_first_media(segs) {
                Some(m) => ActionModel::Emit(ReplyModel::Extracted { kind: m.1, url: m.0 }),
                None => match spec_quote_target(segs) {
                    Some(id) => ActionModel::Fetch { id: id, pending: Pending::Media },
                    None => ActionModel::Emit(ReplyModel::MediaApology),
                },
            }
        } else {
            let m2 = spec_parse_command(
                text,
                cfg.prefixes.deep_view(),
                cfg.cmd_to_media.deep_view(),
            );
            if m2.0 {
                match spec_extract_url(m2.1) {
                    Some(u) => ActionModel::Emit(
                        ReplyModel::Attachment { kind: spec_media_kind(m2.2, u), url: u },
                    ),
                    None => match spec_quote_target(segs) {
                        Some(id) => ActionModel::Fetch {
                            id: id,
                            pending: Pending::Link { video_cmd: contains_video_word(m2.2) },
                        },
                        None => ActionModel::Emit(ReplyModel::LinkApology),
                    },
                }
            } else {
                ActionModel::Nothing
            }
        }
    }
}

/// Decides what to do with one incoming message, exactly as `spec_dispatch`
/// states it. Pure and synchronous: the one external fetch it may call for is
/// returned as an `Action::Fetch` for the caller to perform.
pub fn dispatch(cfg: &Config, text: &str, segments: &Vec<Segment>) -> (r: Action)
    ensures
        r@ == spec_dispatch(*cfg, text@, segments@),
{
    if !cfg.enabled {
        return Action::Nothing;
    }
    let m1 = parse_command(text, &cfg.prefixes, &cfg.cmd_to_url);
    if m1.0 {
        match first_media(segments) {
            Some(m) => Action::Emit(Reply::Extracted { kind: m.kind, url: m.url }),
            None => match quote_target(segments) {
                Some(id) => Action::Fetch { id: id, pending: Pending::Media },
                None => Action::Emit(Reply::MediaApology),
            },
        }
    } else {
        let m2 = parse_command(text, &cfg.prefixes, &cfg.cmd_to_media);
        if m2.0 {
            match extract_url(m2.1.as_str()) {
                Some(u) => {
                    let kind = if has_video_word(m2.2.as_str()) || has_video_suffix(u.as_str()) {
                        MediaKind::Video
                    } else {
                        MediaKind::Image
                    };
                    Action::Emit(Reply::Attachment { kind: kind, url: u })
                },
                None => match quote_target(segments) {
                    Some(id) => Action::Fetch {
                        id: id,
                        pending: Pending::Link { video_cmd: has_video_word(m2.2.as_str()) },
                    },
                    None => Action::Emit(Reply::LinkApology),
                },
            }
        } else {
            Action::Nothing
        }
    }
}

/// The fetched quoted message's segments, or nothing when the fetch failed.
pub open spec fn fetched_view(fetched: Option<&Vec<Segment>>) -> Option<Seq<Segment>> {
    match fetched {
        Some(v) => Some(v@),
        None => None,
    }
}

/// The reply owed once the quoted message arrived — or the fetch failed,
/// which degrades to the same apology as an unusable payload.
pub open spec fn spec_dispatch_fetched(
    pending: Pending,
    fetched: Option<Seq<Segment>>,
) -> ReplyModel {
    match pending {
        Pending::Media => match fetched {
            Some(segs) => match spec_first_media(segs) {
                Some(m) => ReplyModel::Extracted { kind: m.1, url: m.0 },
                None => ReplyModel::MediaApology,
            },
            None => ReplyModel::MediaApology,
        },
        Pending::Link { video_cmd } => {
            let txt = match fetched {
                Some(segs) => spec_flatten_text(segs),
                None => None,
            };
            match txt {
                Some(t) => match spec_extract_url(t) {
                    Some(u) => ReplyModel::Attachment {
                        kind: if video_cmd || ends_with_mp4(u) || ends_with_mov(u) {
                            MediaKind::Video
                        } else {
                            MediaKind::Image
                        },
                        url: u,
                    },
                    None => ReplyModel::LinkApology,
                },
                None => ReplyModel::LinkApology,
            }
        },
    }
}

/// Settles the reply after the quoted-message fetch, exactly as
/// `spec_dispatch_fetched` states it; `None` stands for a failed fetch.
pub fn dispatch_fetched(pending: Pending, fetched: Option<&Vec<Segment>>) -> (r: Reply)
    ensures
        r@ == spec_dispatch_fetched(pending, fetched_view(fetched)),
{
    match pending {
        Pending::Media => match fetched {
            Some(segs) => match first_media(segs) {
                Some(m) => Reply::Extracted { kind: m.kind, url: m.url },
                None => Reply::MediaApology,
            },
            None => Reply::MediaApology,
        },
        Pending::Link { video_cmd } => {
            let txt = match fetched {
                Some(segs) => flatten_text(segs),
                None => None,
            };
            match txt {
                Some(t) => match extract_url(t.as_str()) {
                    Some(u) => {
                        let kind = if video_cmd || has_video_suffix(u.as_str()) {
                            MediaKind::Video
                        } else {
                            MediaKind::Image
                        };
                        Reply::Attachment { kind: kind, url: u }
                    },
                    None => Reply::LinkApology,
                },
                None => Reply::LinkApology,
            }
        },
    }
}

/// With the global switch off, the dispatcher emits nothing, whatever the
/// text and segments hold.
pub proof fn lemma_disabled_emits_nothing(cfg: Config, text: Seq<char>, segs: Seq<Segment>)
    requires
        !cfg.enabled,
    ensures
        spec_dispatch(cfg, text, segs) == ActionModel::Nothing,
{
}

/// When a link-extraction command matches and the message itself carries
/// media, the dispatcher answers from that media and never fetches the quote.
pub proof fn lemma_own_media_wins(
    cfg: Config,
    text: Seq<char>,
    segs: Seq<Segment>,
    url: Seq<char>,
    kind: MediaKind,
)
    requires
        cfg.enabled,
        spec_parse_command(text, cfg.prefixes.deep_view(), cfg.cmd_to_url.deep_view()).0,
        spec_first_media(segs) == Some((url, kind)),
    ensures
        spec_dispatch(cfg, text, segs) == ActionModel::Emit(
            ReplyModel::Extracted { kind: kind, url: url },
        ),
        !(spec_dispatch(cfg, text, segs) is Fetch),
{
}

} // verus!
