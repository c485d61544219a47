//! Data model of the nginx-rtmp statistics document, the mapping from a
//! parsed XML tree onto it, and the record-selection logic: among all
//! applications named as configured, the last stream named as configured
//! wins.

use vstd::prelude::*;
use vstd::string::StrSliceExecFns;

use crate::xml::{
    self, find_child, is_xml_ws, sp_document, sp_first_named, sp_skip_ws, str_eq, XmlElem, XmlView,
};

verus! {

/// Configuration of one nginx-rtmp backend: where the statistics page is
/// and which application/stream-key pair to watch. Immutable for the
/// lifetime of the backend instance.
#[derive(Debug)]
pub struct Nginx {
    /// Url to the NGINX stats page
    pub stats_url: String,
    /// Stream application
    pub application: String,
    /// Stream key
    pub key: String,
}

/// The whole statistics document: one server element.
#[derive(Debug)]
pub struct NginxRtmpStats {
    pub server: NginxRtmpServer,
}

/// The server element: every application it carries, in document order.
#[derive(Debug)]
pub struct NginxRtmpServer {
    pub application: Vec<NginxRtmpApp>,
}

/// One application element: its name and its live block.
#[derive(Debug)]
pub struct NginxRtmpApp {
    pub name: String,
    pub live: NginxRtmpLive,
}

/// The live block of an application: its streams in document order, or
/// `None` when the block holds no stream element at all.
#[derive(Debug)]
pub struct NginxRtmpLive {
    pub stream: Option<Vec<NginxRtmpStream>>,
}

/// One published stream: its name, its video bitrate in bits per second as
/// the server reports it, and optional media metadata.
#[derive(Debug)]
pub struct NginxRtmpStream {
    pub name: String,
    pub bw_video: u32,
    pub meta: Option<Meta>,
}

/// Media metadata of a stream.
#[derive(Debug)]
pub struct Meta {
    pub video: Video,
    pub audio: Audio,
}

/// Video metadata. The codec level is kept in the textual form the
/// document carries (for example "3.1").
#[derive(Debug)]
pub struct Video {
    pub width: u32,
    pub height: u32,
    pub frame_rate: u32,
    pub codec: String,
    pub profile: Option<String>,
    pub compat: Option<u32>,
    pub level: Option<String>,
}

/// Audio metadata.
#[derive(Debug)]
pub struct Audio {
    pub codec: String,
    pub profile: Option<String>,
    pub channels: Option<u32>,
    pub sample_rate: Option<u32>,
}

/// Mathematical model of `NginxRtmpStats`.
pub struct StatsView {
    pub server: ServerView,
}

/// Mathematical model of `NginxRtmpServer`.
pub struct ServerView {
    pub application: Seq<AppView>,
}

/// Mathematical model of `NginxRtmpApp`.
pub struct AppView {
    pub name: Seq<char>,
    pub live: LiveView,
}

/// Mathematical model of `NginxRtmpLive`.
pub struct LiveView {
    pub stream: Option<Seq<StreamView>>,
}

/// Mathematical model of `NginxRtmpStream`.
pub struct StreamView {
    pub name: Seq<char>,
    pub bw_video: u32,
    pub meta: Option<MetaView>,
}

/// Mathematical model of `Meta`.
pub struct MetaView {
    pub video: VideoView,
    pub audio: AudioView,
}

/// Mathematical model of `Video`.
pub struct VideoView {
    pub width: u32,
    pub height: u32,
    pub frame_rate: u32,
    pub codec: Seq<char>,
    pub profile: Option<Seq<char>>,
    pub compat: Option<u32>,
    pub level: Option<Seq<char>>,
}

/// Mathematical model of `Audio`.
pub struct AudioView {
    pub codec: Seq<char>,
    pub profile: Option<Seq<char>>,
    pub channels: Option<u32>,
    pub sample_rate: Option<u32>,
}

/// Model of an optional string as an optional character sequence.
pub open spec fn opt_string_view(s: Option<String>) -> Option<Seq<char>> {
    match s {
        Some(x) => Some(x@),
        None => None,
    }
}

/// Model of a sequence of stream records.
pub open spec fn streams_view(ss: Seq<NginxRtmpStream>) -> Seq<StreamView> {
    ss.map_values(|x: NginxRtmpStream| x@)
}

/// Model of a sequence of application records.
pub open spec fn apps_view(aps: Seq<NginxRtmpApp>) -> Seq<AppView> {
    aps.map_values(|x: NginxRtmpApp| x@)
}

/// Model of an optional stream record.
pub open spec fn opt_stream_view(stats: Option<NginxRtmpStream>) -> Option<StreamView> {
    match stats {
        Some(rec) => Some(rec@),
        None => None,
    }
}

impl View for Audio {
    type V = AudioView;

    open spec fn view(&self) -> AudioView {
        AudioView {
            codec: self.codec@,
            profile: opt_string_view(self.profile),
            channels: self.channels,
            sample_rate: self.sample_rate,
        }
    }
}

impl View for Video {
    type V = VideoView;

    open spec fn view(&self) -> VideoView {
        VideoView {
            width: self.width,
            height: self.height,
            frame_rate: self.frame_rate,
            codec: self.codec@,
            profile: opt_string_view(self.profile),
            compat: self.compat,
            level: opt_string_view(self.level),
        }
    }
}

impl View for Meta {
    type V = MetaView;

    open spec fn view(&self) -> MetaView {
        MetaView { video: self.video@, audio: self.audio@ }
    }
}

impl View for NginxRtmpStream {
    type V = StreamView;

    open spec fn view(&self) -> StreamView {
        StreamView {
            name: self.name@,
            bw_video: self.bw_video,
            meta: match self.meta {
                Some(m) => Some(m@),
                None => None,
            },
        }
    }
}

impl View for NginxRtmpLive {
    type V = LiveView;

    open spec fn view(&self) -> LiveView {
        LiveView {
            stream: match self.stream {
                Some(v) => Some(streams_view(v@)),
                None => None,
            },
        }
    }
}

impl View for NginxRtmpApp {
    type V = AppView;

    open spec fn view(&self) -> AppView {
        AppView { name: self.name@, live: self.live@ }
    }
}

impl View for NginxRtmpServer {
    type V = ServerView;

    open spec fn view(&self) -> ServerView {
        ServerView { application: apps_view(self.application@) }
    }
}

impl View for NginxRtmpStats {
    type V = StatsView;

    open spec fn view(&self) -> StatsView {
        StatsView { server: self.server@ }
    }
}

/// A decimal digit.
pub open spec fn is_digit(c: char) -> bool {
    48 <= c as u32 <= 57
}

/// The value of a decimal digit.
pub open spec fn digit_val(c: char) -> int {
    c as u32 - 48
}

/// Whether positions `a` (inclusive) to `b` (exclusive) of `t` all hold
/// decimal digits.
pub open spec fn sp_digits_in(t: Seq<char>, a: int, b: int) -> bool {
    forall|k: int| a <= k < b ==> is_digit(#[trigger] t[k])
}

/// The value of the decimal digit run from `a` (inclusive) to `b`
/// (exclusive) of `t`.
pub open spec fn sp_dec_val(t: Seq<char>, a: int, b: int) -> int
    decreases b - a,
{
    if b <= a {
        0
    } else {
        sp_dec_val(t, a, b - 1) * 10 + digit_val(t[b - 1])
    }
}

/// The position at or before `j` with no whitespace directly before it.
pub open spec fn sp_trim_end(t: Seq<char>, j: int) -> int
    decreases j,
{
    if j <= 0 {
        0
    } else if j - 1 < t.len() && is_xml_ws(t[j - 1]) {
        sp_trim_end(t, j - 1)
    } else {
        j
    }
}

/// The number a text holds, read strictly: surrounding whitespace
/// stripped, a nonempty run of decimal digits whose value fits an unsigned
/// 32-bit integer, anything else a failure.
pub open spec fn sp_parse_u32(t: Seq<char>) -> Option<u32> {
    let a = sp_skip_ws(t, 0);
    let b = sp_trim_end(t, t.len() as int);
    if a < b && sp_digits_in(t, a, b) && sp_dec_val(t, a, b) <= u32::MAX {
        Some(sp_dec_val(t, a, b) as u32)
    } else {
        None
    }
}

proof fn lemma_trim_le(t: Seq<char>, j: int)
    requires
        j >= 0,
    ensures
        0 <= sp_trim_end(t, j) <= j,
    decreases j,
{
    if j > 0 && j - 1 < t.len() && is_xml_ws(t[j - 1]) {
        lemma_trim_le(t, j - 1);
    }
}

proof fn lemma_dec_val_nonneg(t: Seq<char>, a: int, b: int)
    requires
        sp_digits_in(t, a, b),
    ensures
        sp_dec_val(t, a, b) >= 0,
    decreases b - a,
{
    if b > a {
        lemma_dec_val_nonneg(t, a, b - 1);
    }
}

proof fn lemma_dec_val_mono(t: Seq<char>, a: int, i: int, b: int)
    requires
        a <= i <= b,
        sp_digits_in(t, a, b),
    ensures
        sp_dec_val(t, a, i) <= sp_dec_val(t, a, b),
    decreases b - i,
{
    if i < b {
        lemma_dec_val_mono(t, a, i, b - 1);
        lemma_dec_val_nonneg(t, a, b - 1);
    }
}

/// The number a text holds, or `None` when it is not a clean decimal
/// reading that fits an unsigned 32-bit value.
pub fn parse_u32_text(t: &str) -> (res: Option<u32>)
    ensures
        match res {
            Some(v) => sp_parse_u32(t@) == Some(v),
            None => sp_parse_u32(t@) is None,
        },
{
    let len = t.unicode_len();
    let a = xml::skip_ws(t, 0);
    let mut b = len;
    while b > a && xml::xml_ws(t.get_char(b - 1))
        invariant
            a <= b <= len,
            len == t@.len(),
            a == sp_skip_ws(t@, 0),
            sp_trim_end(t@, len as int) == sp_trim_end(t@, b as int),
        decreases b,
    {
        b = b - 1;
    }
    proof {
        lemma_trim_le(t@, b as int);
    }
    if b == a {
        return None;
    }
    let ghost bb = b as int;
    assert(sp_trim_end(t@, len as int) == bb);
    let mut v: u32 = 0;
    let mut i = a;
    while i < b
        invariant
            a <= i <= b <= len,
            len == t@.len(),
            a == sp_skip_ws(t@, 0),
            bb == b as int,
            sp_trim_end(t@, len as int) == bb,
            sp_digits_in(t@, a as int, i as int),
            v == sp_dec_val(t@, a as int, i as int),
        decreases b - i,
    {
        let u = t.get_char(i) as u32;
        if u < 48 || u > 57 {
            assert(!is_digit(t@[i as int]));
            return None;
        }
        let d = u - 48;
        assert(is_digit(t@[i as int]));
        assert(sp_digits_in(t@, a as int, i + 1 as int));
        if v > 429496729 || (v == 429496729 && d > 5) {
            proof {
                assert(sp_dec_val(t@, a as int, i + 1) == v * 10 + d);
                assert(sp_dec_val(t@, a as int, i + 1) > u32::MAX);
                if sp_digits_in(t@, a as int, bb) {
                    lemma_dec_val_mono(t@, a as int, i + 1, bb);
                }
            }
            return None;
        }
        v = v * 10 + d;
        i = i + 1;
    }
    assert(sp_digits_in(t@, a as int, bb));
    Some(v)
}

/// The text of the first child named `name`, required: `None` is a parse
/// failure.
pub open spec fn sp_req_text(e: XmlView, name: Seq<char>) -> Option<Seq<char>> {
    match sp_first_named(e.children, name) {
        None => None,
        Some(c) => Some(c.text),
    }
}

/// The number held by the first child named `name`, required.
pub open spec fn sp_req_u32(e: XmlView, name: Seq<char>) -> Option<u32> {
    match sp_first_named(e.children, name) {
        None => None,
        Some(c) => sp_parse_u32(c.text),
    }
}

/// The number held by the first child named `name`, optional: an absent
/// child is `Some(None)`, a present child with an unreadable number is a
/// failure.
pub open spec fn sp_opt_u32(e: XmlView, name: Seq<char>) -> Option<Option<u32>> {
    match sp_first_named(e.children, name) {
        None => Some(None),
        Some(c) => match sp_parse_u32(c.text) {
            None => None,
            Some(v) => Some(Some(v)),
        },
    }
}

/// The text of the first child named `name`, optional.
pub open spec fn sp_opt_text(e: XmlView, name: Seq<char>) -> Option<Seq<char>> {
    match sp_first_named(e.children, name) {
        None => None,
        Some(c) => Some(c.text),
    }
}

fn req_text(e: &XmlElem, name: &str) -> (res: Option<String>)
    ensures
        match res {
            Some(s) => sp_req_text(e@, name@) == Some(s@),
            None => sp_req_text(e@, name@) is None,
        },
{
    match find_child(e, name) {
        None => None,
        Some(c) => Some(c.text.clone()),
    }
}

fn req_u32(e: &XmlElem, name: &str) -> (res: Option<u32>)
    ensures
        match res {
            Some(v) => sp_req_u32(e@, name@) == Some(v),
            None => sp_req_u32(e@, name@) is None,
        },
{
    match find_child(e, name) {
        None => None,
        Some(c) => parse_u32_text(c.text.as_str()),
    }
}

fn opt_u32(e: &XmlElem, name: &str) -> (res: Option<Option<u32>>)
    ensures
        match res {
            Some(v) => sp_opt_u32(e@, name@) == Some(v),
            None => sp_opt_u32(e@, name@) is None,
        },
{
    match find_child(e, name) {
        None => Some(None),
        Some(c) => match parse_u32_text(c.text.as_str()) {
            None => None,
            Some(v) => Some(Some(v)),
        },
    }
}

fn opt_text(e: &XmlElem, name: &str) -> (res: Option<String>)
    ensures
        opt_string_view(res) == sp_opt_text(e@, name@),
{
    match find_child(e, name) {
        None => None,
        Some(c) => Some(c.text.clone()),
    }
}

/// The video metadata an element holds: width, height, frame rate and
/// codec are required, the rest optional.
pub open spec fn sp_video_of(e: XmlView) -> Option<VideoView> {
    match (
        sp_req_u32(e, "width"@),
        sp_req_u32(e, "height"@),
        sp_req_u32(e, "frame_rate"@),
        sp_req_text(e, "codec"@),
        sp_opt_u32(e, "compat"@),
    ) {
        (Some(w), Some(h), Some(fr), Some(c), Some(compat)) => Some(
            VideoView {
                width: w,
                height: h,
                frame_rate: fr,
                codec: c,
                profile: sp_opt_text(e, "profile"@),
                compat,
                level: sp_opt_text(e, "level"@),
            },
        ),
        _ => None,
    }
}

/// The audio metadata an element holds: the codec is required, the rest
/// optional.
pub open spec fn sp_audio_of(e: XmlView) -> Option<AudioView> {
    match (sp_req_text(e, "codec"@), sp_opt_u32(e, "channels"@), sp_opt_u32(e, "sample_rate"@)) {
        (Some(c), Some(ch), Some(sr)) => Some(
            AudioView {
                codec: c,
                profile: sp_opt_text(e, "profile"@),
                channels: ch,
                sample_rate: sr,
            },
        ),
        _ => None,
    }
}

/// The metadata a meta element holds: a video and an audio block, both
/// required.
pub open spec fn sp_meta_of(e: XmlView) -> Option<MetaView> {
    match (sp_first_named(e.children, "video"@), sp_first_named(e.children, "audio"@)) {
        (Some(v), Some(a)) => match (sp_video_of(v), sp_audio_of(a)) {
            (Some(vv), Some(av)) => Some(MetaView { video: vv, audio: av }),
            _ => None,
        },
        _ => None,
    }
}

/// The optional metadata of a stream element: an absent meta child is
/// `Some(None)`, a present but malformed one is a failure.
pub open spec fn sp_opt_meta_of(e: XmlView) -> Option<Option<MetaView>> {
    match sp_first_named(e.children, "meta"@) {
        None => Some(None),
        Some(m) => match sp_meta_of(m) {
            None => None,
            Some(mv) => Some(Some(mv)),
        },
    }
}

/// The stream record a stream element holds: its name and bitrate are
/// required, its metadata optional.
pub open spec fn sp_stream_of(e: XmlView) -> Option<StreamView> {
    match (sp_req_text(e, "name"@), sp_req_u32(e, "bw_video"@), sp_opt_meta_of(e)) {
        (Some(n), Some(bw), Some(m)) => Some(StreamView { name: n, bw_video: bw, meta: m }),
        _ => None,
    }
}

fn video_of(e: &XmlElem) -> (res: Option<Video>)
    ensures
        match res {
            Some(v) => sp_video_of(e@) == Some(v@),
            None => sp_video_of(e@) is None,
        },
{
    let w = match req_u32(e, "width") {
        Some(x) => x,
        None => {
            return None;
        },
    };
    let h = match req_u32(e, "height") {
        Some(x) => x,
        None => {
            return None;
        },
    };
    let fr = match req_u32(e, "frame_rate") {
        Some(x) => x,
        None => {
            return None;
        },
    };
    let c = match req_text(e, "codec") {
        Some(x) => x,
        None => {
            return None;
        },
    };
    let compat = match opt_u32(e, "compat") {
        Some(x) => x,
        None => {
            return None;
        },
    };
    Some(
        Video {
            width: w,
            height: h,
            frame_rate: fr,
            codec: c,
            profile: opt_text(e, "profile"),
            compat,
            level: opt_text(e, "level"),
        },
    )
}

fn audio_of(e: &XmlElem) -> (res: Option<Audio>)
    ensures
        match res {
            Some(a) => sp_audio_of(e@) == Some(a@),
            None => sp_audio_of(e@) is None,
        },
{
    let c = match req_text(e, "codec") {
        Some(x) => x,
        None => {
            return None;
        },
    };
    let ch = match opt_u32(e, "channels") {
        Some(x) => x,
        None => {
            return None;
        },
    };
    let sr = match opt_u32(e, "sample_rate") {
        Some(x) => x,
        None => {
            return None;
        },
    };
    Some(Audio { codec: c, profile: opt_text(e, "profile"), channels: ch, sample_rate: sr })
}

fn meta_of(e: &XmlElem) -> (res: Option<Meta>)
    ensures
        match res {
            Some(m) => sp_meta_of(e@) == Some(m@),
            None => sp_meta_of(e@) is None,
        },
{
    let v = match find_child(e, "video") {
        Some(x) => x,
        None => {
            return None;
        },
    };
    let a = match find_child(e, "audio") {
        Some(x) => x,
        None => {
            return None;
        },
    };
    match (video_of(v), audio_of(a)) {
        (Some(vv), Some(av)) => Some(Meta { video: vv, audio: av }),
        _ => None,
    }
}

fn stream_of(e: &XmlElem) -> (res: Option<NginxRtmpStream>)
    ensures
        match res {
            Some(s) => sp_stream_of(e@) == Some(s@),
            None => sp_stream_of(e@) is None,
        },
{
    let n = match req_text(e, "name") {
        Some(x) => x,
        None => {
            return None;
        },
    };
    let bw = match req_u32(e, "bw_video") {
        Some(x) => x,
        None => {
            return None;
        },
    };
    let m = match find_child(e, "meta") {
        None => None,
        Some(me) => match meta_of(me) {
            None => {
                return None;
            },
            Some(mv) => Some(mv),
        },
    };
    Some(NginxRtmpStream { name: n, bw_video: bw, meta: m })
}

/// The stream records among `cs`, in order: every child named `stream`
/// must parse, any other child is passed over.
pub open spec fn sp_streams_of(cs: Seq<XmlView>) -> Option<Seq<StreamView>>
    decreases cs.len(),
{
    if cs.len() == 0 {
        Some(Seq::empty())
    } else {
        let rest = sp_streams_of(cs.drop_first());
        if cs[0].name == "stream"@ {
            match (sp_stream_of(cs[0]), rest) {
                (Some(s), Some(r)) => Some(seq![s] + r),
                _ => None,
            }
        } else {
            rest
        }
    }
}

/// The live block an element holds: no stream child at all is an absent
/// list, a nonempty run of streams a present one.
pub open spec fn sp_live_of(e: XmlView) -> Option<LiveView> {
    match sp_streams_of(e.children) {
        None => None,
        Some(ss) => Some(
            LiveView {
                stream: if ss.len() == 0 {
                    None
                } else {
                    Some(ss)
                },
            },
        ),
    }
}

fn streams_from(e: &XmlElem, i: usize) -> (res: Option<Vec<NginxRtmpStream>>)
    requires
        i <= e.children@.len(),
    ensures
        match res {
            Some(v) => sp_streams_of(e@.children.skip(i as int)) == Some(streams_view(v@)),
            None => sp_streams_of(e@.children.skip(i as int)) is None,
        },
    decreases e.children@.len() - i,
{
    if i == e.children.len() {
        let v: Vec<NginxRtmpStream> = Vec::new();
        proof {
            assert(e@.children.skip(i as int) =~= Seq::<XmlView>::empty());
            assert(streams_view(v@) =~= Seq::<StreamView>::empty());
        }
        return Some(v);
    }
    proof {
        assert(e@.children.skip(i as int)[0] == e@.children[i as int]);
        assert(e@.children.skip(i as int).drop_first() =~= e@.children.skip(i as int + 1));
    }
    let c = &e.children[i];
    let rest = streams_from(e, i + 1);
    if str_eq(c.name.as_str(), "stream") {
        match (stream_of(c), rest) {
            (Some(s), Some(mut v)) => {
                let ghost old_v = v@;
                v.insert(0, s);
                proof {
                    assert(streams_view(v@) =~= seq![s@] + streams_view(old_v));
                }
                Some(v)
            },
            _ => None,
        }
    } else {
        rest
    }
}

fn live_of(e: &XmlElem) -> (res: Option<NginxRtmpLive>)
    ensures
        match res {
            Some(l) => sp_live_of(e@) == Some(l@),
            None => sp_live_of(e@) is None,
        },
{
    proof {
        assert(e@.children.skip(0) =~= e@.children);
    }
    match streams_from(e, 0) {
        None => None,
        Some(v) => {
            if v.len() == 0 {
                proof {
                    assert(streams_view(v@) =~= Seq::<StreamView>::empty());
                }
                Some(NginxRtmpLive { stream: None })
            } else {
                Some(NginxRtmpLive { stream: Some(v) })
            }
        },
    }
}

/// The application record an element holds: its name and its live block,
/// both required.
pub open spec fn sp_app_of(e: XmlView) -> Option<AppView> {
    match (sp_req_text(e, "name"@), sp_first_named(e.children, "live"@)) {
        (Some(n), Some(l)) => match sp_live_of(l) {
            None => None,
            Some(lv) => Some(AppView { name: n, live: lv }),
        },
        _ => None,
    }
}

fn app_of(e: &XmlElem) -> (res: Option<NginxRtmpApp>)
    ensures
        match res {
            Some(a) => sp_app_of(e@) == Some(a@),
            None => sp_app_of(e@) is None,
        },
{
    let n = match req_text(e, "name") {
        Some(x) => x,
        None => {
            return None;
        },
    };
    let l = match find_child(e, "live") {
        Some(x) => x,
        None => {
            return None;
        },
    };
    match live_of(l) {
        None => None,
        Some(lv) => Some(NginxRtmpApp { name: n, live: lv }),
    }
}

/// The application records among `cs`, in order: every child named
/// `application` must parse, any other child is passed over.
pub open spec fn sp_apps_of(cs: Seq<XmlView>) -> Option<Seq<AppView>>
    decreases cs.len(),
{
    if cs.len() == 0 {
        Some(Seq::empty())
    } else {
        let rest = sp_apps_of(cs.drop_first());
        if cs[0].name == "application"@ {
            match (sp_app_of(cs[0]), rest) {
                (Some(a), Some(r)) => Some(seq![a] + r),
                _ => None,
            }
        } else {
            rest
        }
    }
}

fn apps_from(e: &XmlElem, i: usize) -> (res: Option<Vec<NginxRtmpApp>>)
    requires
        i <= e.children@.len(),
    ensures
        match res {
            Some(v) => sp_apps_of(e@.children.skip(i as int)) == Some(apps_view(v@)),
            None => sp_apps_of(e@.children.skip(i as int)) is None,
        },
    decreases e.children@.len() - i,
{
    if i == e.children.len() {
        let v: Vec<NginxRtmpApp> = Vec::new();
        proof {
            assert(e@.children.skip(i as int) =~= Seq::<XmlView>::empty());
            assert(apps_view(v@) =~= Seq::<AppView>::empty());
        }
        return Some(v);
    }
    proof {
        assert(e@.children.skip(i as int)[0] == e@.children[i as int]);
        assert(e@.children.skip(i as int).drop_first() =~= e@.children.skip(i as int + 1));
    }
    let c = &e.children[i];
    let rest = apps_from(e, i + 1);
    if str_eq(c.name.as_str(), "application") {
        match (app_of(c), rest) {
            (Some(a), Some(mut v)) => {
                let ghost old_v = v@;
                v.insert(0, a);
                proof {
                    assert(apps_view(v@) =~= seq![a@] + apps_view(old_v));
                }
                Some(v)
            },
            _ => None,
        }
    } else {
        rest
    }
}

/// The server record an element holds.
pub open spec fn sp_server_of(e: XmlView) -> Option<ServerView> {
    match sp_apps_of(e.children) {
        None => None,
        Some(aps) => Some(ServerView { application: aps }),
    }
}

/// The statistics document a root element holds: a server child is
/// required.
pub open spec fn sp_stats_of(root: XmlView) -> Option<StatsView> {
    match sp_first_named(root.children, "server"@) {
        None => None,
        Some(sv) => match sp_server_of(sv) {
            None => None,
            Some(s) => Some(StatsView { server: s }),
        },
    }
}

/// The statistics document a response body holds: the parsed XML tree,
/// mapped onto the document shape. Any malformation yields `None`.
pub open spec fn sp_stats_of_text(s: Seq<char>) -> Option<StatsView> {
    match sp_document(s) {
        None => None,
        Some(root) => sp_stats_of(root),
    }
}

/// The statistics document a response body holds, or `None` when the body
/// is not a well-formed document of the expected shape.
pub fn parse_stats(body: &str) -> (res: Option<NginxRtmpStats>)
    ensures
        match res {
            Some(st) => sp_stats_of_text(body@) == Some(st@),
            None => sp_stats_of_text(body@) is None,
        },
{
    let root = match crate::xml::parse_document(body) {
        Some(r) => r,
        None => {
            return None;
        },
    };
    let sv = match find_child(&root, "server") {
        Some(x) => x,
        None => {
            return None;
        },
    };
    proof {
        assert(sv@.children.skip(0) =~= sv@.children);
    }
    match apps_from(sv, 0) {
        None => None,
        Some(v) => Some(NginxRtmpStats { server: NginxRtmpServer { application: v } }),
    }
}

/// One pass over a stream list: a stream whose name equals `key` replaces
/// the record held so far, so the last match wins.
pub open spec fn sp_pick_stream(
    ss: Seq<StreamView>,
    key: Seq<char>,
    acc: Option<StreamView>,
) -> Option<StreamView>
    decreases ss.len(),
{
    if ss.len() == 0 {
        acc
    } else {
        sp_pick_stream(
            ss.drop_first(),
            key,
            if ss[0].name == key {
                Some(ss[0])
            } else {
                acc
            },
        )
    }
}

/// One pass over the applications: the streams of every application whose
/// name equals `application` are scanned in order, and the last stream
/// named `key` wins.
pub open spec fn sp_select_apps(
    apps: Seq<AppView>,
    application: Seq<char>,
    key: Seq<char>,
    acc: Option<StreamView>,
) -> Option<StreamView>
    decreases apps.len(),
{
    if apps.len() == 0 {
        acc
    } else {
        let acc2 = if apps[0].name == application {
            match apps[0].live.stream {
                None => acc,
                Some(ss) => sp_pick_stream(ss, key, acc),
            }
        } else {
            acc
        };
        sp_select_apps(apps.drop_first(), application, key, acc2)
    }
}

/// The record selection rule: among the applications named `application`,
/// the last stream named `key` in document order; `None` when no stream
/// matches.
pub open spec fn sp_select(st: StatsView, application: Seq<char>, key: Seq<char>) -> Option<
    StreamView,
> {
    sp_select_apps(st.server.application, application, key, None)
}

/// The streams the selection rule walks: every stream of every application
/// named `application`, flattened in document order.
pub open spec fn sp_matching_streams(apps: Seq<AppView>, application: Seq<char>) -> Seq<StreamView>
    decreases apps.len(),
{
    if apps.len() == 0 {
        Seq::empty()
    } else {
        (if apps[0].name == application {
            match apps[0].live.stream {
                None => Seq::<StreamView>::empty(),
                Some(ss) => ss,
            }
        } else {
            Seq::<StreamView>::empty()
        }) + sp_matching_streams(apps.drop_first(), application)
    }
}

/// The last stream of `ss` named `key`, or `None` when none is.
pub open spec fn sp_last_named(ss: Seq<StreamView>, key: Seq<char>) -> Option<StreamView>
    decreases ss.len(),
{
    if ss.len() == 0 {
        None
    } else if ss.last().name == key {
        Some(ss.last())
    } else {
        sp_last_named(ss.drop_last(), key)
    }
}

proof fn lemma_pick_push(
    ss: Seq<StreamView>,
    x: StreamView,
    key: Seq<char>,
    acc: Option<StreamView>,
)
    ensures
        sp_pick_stream(ss.push(x), key, acc) == (if x.name == key {
            Some(x)
        } else {
            sp_pick_stream(ss, key, acc)
        }),
    decreases ss.len(),
{
    let t = ss.push(x);
    assert(t.len() == ss.len() + 1);
    if ss.len() == 0 {
        assert(t[0] == x);
        assert(t.drop_first() =~= Seq::<StreamView>::empty());
        let acc1 = if x.name == key {
            Some(x)
        } else {
            acc
        };
        assert(sp_pick_stream(t, key, acc) == sp_pick_stream(t.drop_first(), key, acc1));
        assert(sp_pick_stream(t.drop_first(), key, acc1) == acc1);
        assert(sp_pick_stream(ss, key, acc) == acc);
    } else {
        assert(t[0] == ss[0]);
        assert(t.drop_first() =~= ss.drop_first().push(x));
        let acc1 = if ss[0].name == key {
            Some(ss[0])
        } else {
            acc
        };
        assert(sp_pick_stream(t, key, acc) == sp_pick_stream(t.drop_first(), key, acc1));
        assert(sp_pick_stream(ss, key, acc) == sp_pick_stream(ss.drop_first(), key, acc1));
        lemma_pick_push(ss.drop_first(), x, key, acc1);
    }
}

proof fn lemma_pick_is_last(ss: Seq<StreamView>, key: Seq<char>, acc: Option<StreamView>)
    ensures
        sp_pick_stream(ss, key, acc) == (match sp_last_named(ss, key) {
            Some(s) => Some(s),
            None => acc,
        }),
    decreases ss.len(),
{
    if ss.len() > 0 {
        let ss0 = ss.drop_last();
        let x = ss.last();
        assert(ss0.push(x) =~= ss);
        lemma_pick_push(ss0, x, key, acc);
        if x.name != key {
            lemma_pick_is_last(ss0, key, acc);
        }
    }
}

proof fn lemma_pick_concat(
    a: Seq<StreamView>,
    b: Seq<StreamView>,
    key: Seq<char>,
    acc: Option<StreamView>,
)
    ensures
        sp_pick_stream(a + b, key, acc) == sp_pick_stream(b, key, sp_pick_stream(a, key, acc)),
    decreases a.len(),
{
    if a.len() == 0 {
        assert(a + b =~= b);
    } else {
        assert((a + b)[0] == a[0]);
        assert((a + b).drop_first() =~= a.drop_first() + b);
        lemma_pick_concat(
            a.drop_first(),
            b,
            key,
            if a[0].name == key {
                Some(a[0])
            } else {
                acc
            },
        );
    }
}

proof fn lemma_select_apps_is_pick(
    apps: Seq<AppView>,
    application: Seq<char>,
    key: Seq<char>,
    acc: Option<StreamView>,
)
    ensures
        sp_select_apps(apps, application, key, acc) == sp_pick_stream(
            sp_matching_streams(apps, application),
            key,
            acc,
        ),
    decreases apps.len(),
{
    if apps.len() > 0 {
        let head = if apps[0].name == application {
            match apps[0].live.stream {
                None => Seq::<StreamView>::empty(),
                Some(ss) => ss,
            }
        } else {
            Seq::<StreamView>::empty()
        };
        let acc2 = if apps[0].name == application {
            match apps[0].live.stream {
                None => acc,
                Some(ss) => sp_pick_stream(ss, key, acc),
            }
        } else {
            acc
        };
        assert(sp_pick_stream(head, key, acc) == acc2);
        lemma_pick_concat(head, sp_matching_streams(apps.drop_first(), application), key, acc);
        lemma_select_apps_is_pick(apps.drop_first(), application, key, acc2);
    }
}

/// The law of record selection: the rule walks every stream of every
/// application named `application`, flattened in document order, and keeps
/// exactly the last one named `key`; streams under differently named
/// applications never take part.
pub proof fn lemma_selection_correctness(st: StatsView, application: Seq<char>, key: Seq<char>)
    ensures
        sp_select(st, application, key) == sp_last_named(
            sp_matching_streams(st.server.application, application),
            key,
        ),
{
    lemma_select_apps_is_pick(st.server.application, application, key, None);
    lemma_pick_is_last(sp_matching_streams(st.server.application, application), key, None);
}

fn pick_stream(ss: Vec<NginxRtmpStream>, key: &str, acc: Option<NginxRtmpStream>) -> (res: Option<
    NginxRtmpStream,
>)
    ensures
        opt_stream_view(res) == sp_pick_stream(streams_view(ss@), key@, opt_stream_view(acc)),
    decreases ss@.len(),
{
    let mut ss = ss;
    if ss.len() == 0 {
        return acc;
    }
    let ghost old_ss = ss@;
    let first = ss.remove(0);
    proof {
        assert(ss@ =~= old_ss.drop_first());
        assert(streams_view(ss@) =~= streams_view(old_ss).drop_first());
        assert(streams_view(old_ss)[0] == first@);
    }
    let acc2 = if str_eq(first.name.as_str(), key) {
        Some(first)
    } else {
        acc
    };
    pick_stream(ss, key, acc2)
}

fn select_apps(
    apps: Vec<NginxRtmpApp>,
    application: &str,
    key: &str,
    acc: Option<NginxRtmpStream>,
) -> (res: Option<NginxRtmpStream>)
    ensures
        opt_stream_view(res) == sp_select_apps(
            apps_view(apps@),
            application@,
            key@,
            opt_stream_view(acc),
        ),
    decreases apps@.len(),
{
    let mut apps = apps;
    if apps.len() == 0 {
        return acc;
    }
    let ghost old_apps = apps@;
    let first = apps.remove(0);
    proof {
        assert(apps@ =~= old_apps.drop_first());
        assert(apps_view(apps@) =~= apps_view(old_apps).drop_first());
        assert(apps_view(old_apps)[0] == first@);
    }
    let acc2 = if str_eq(first.name.as_str(), application) {
        match first.live.stream {
            None => acc,
            Some(ss) => pick_stream(ss, key, acc),
        }
    } else {
        acc
    };
    select_apps(apps, application, key, acc2)
}

/// The record of the stream named `key` within the application named
/// `application`: the last match in document order wins, and `None` means
/// no stream matched.
pub fn select_stream(stats: NginxRtmpStats, application: &str, key: &str) -> (res: Option<
    NginxRtmpStream,
>)
    ensures
        opt_stream_view(res) == sp_select(stats@, application@, key@),
{
    select_apps(stats.server.application, application, key, None)
}

/// The outcome of one probe on a given response body: the parsed document
/// if the body is well formed, with the configured stream's record
/// selected from it. Any malformation and any selection miss collapse to
/// `None`.
pub open spec fn sp_fetch(body: Seq<char>, application: Seq<char>, key: Seq<char>) -> Option<
    StreamView,
> {
    match sp_stats_of_text(body) {
        None => None,
        Some(st) => sp_select(st, application, key),
    }
}

impl Nginx {
    /// The record of the configured stream in a statistics response body.
    /// A body that is not a well-formed document of the expected shape,
    /// and a document that carries no matching stream, both yield `None`.
    /// A bitrate of zero means the stream just started and its statistics
    /// have not accumulated yet; the server refreshes them every ten
    /// seconds.
    pub fn stats_from_body(&self, body: &str) -> (res: Option<NginxRtmpStream>)
        ensures
            opt_stream_view(res) == sp_fetch(body@, self.application@, self.key@),
    {
        let stats = match parse_stats(body) {
            Some(st) => st,
            None => {
                return None;
            },
        };
        select_stream(stats, self.application.as_str(), self.key.as_str())
    }
}

} // verus!
