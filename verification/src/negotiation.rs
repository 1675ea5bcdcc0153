//! Media negotiation: codec and quality selection between two offers.
//!
//! The offerer sends a `MediaOffer` with local capabilities, and the answerer
//! selects the best matching codecs and quality, responding with a
//! `MediaAnswer`. The exchange itself (length-prefixed messages on a QUIC
//! stream) is done by the caller; see [`crate::control`] for the framing.

use vstd::prelude::*;

use crate::protocol::{CodecInfo, CodecView, MediaAnswer, MediaOffer};

verus! {

/// Why two offers have nothing in common.
#[derive(Debug, Clone, Copy, PartialEq, Eq)]
pub enum NegotiationError {
    /// No audio codec is offered by both sides.
    NoCommonAudioCodec,
    /// No video codec is offered by both sides.
    NoCommonVideoCodec,
}

/// Whether the local side also offers a codec of this name.
pub open spec fn eligible(local: Seq<CodecView>, c: CodecView) -> bool {
    exists|j: int| 0 <= j < local.len() && (#[trigger] local[j]).name == c.name
}

/// Preference rank of a codec name: its position in `priority`, or
/// `usize::MAX` when it is not listed.
pub open spec fn rank(priority: Seq<Seq<char>>, name: Seq<char>) -> nat {
    if exists|i: int| 0 <= i < priority.len() && priority[i] == name {
        (choose|i: int|
            #![trigger priority[i]]
            0 <= i < priority.len() && priority[i] == name && forall|k: int|
                0 <= k < i ==> priority[k] != name) as nat
    } else {
        usize::MAX as nat
    }
}

/// `i` is the codec chosen from `remote`: offered by both sides, of the best
/// rank, and the first in `remote` with that rank.
pub open spec fn chosen(
    remote: Seq<CodecView>,
    local: Seq<CodecView>,
    priority: Seq<Seq<char>>,
    i: int,
) -> bool {
    &&& 0 <= i < remote.len()
    &&& eligible(local, remote[i])
    &&& forall|j: int|
        0 <= j < remote.len() && eligible(local, #[trigger] remote[j]) ==> rank(
            priority,
            remote[i].name,
        ) <= rank(priority, remote[j].name)
    &&& forall|j: int|
        0 <= j < i && eligible(local, #[trigger] remote[j]) ==> rank(priority, remote[j].name)
            > rank(priority, remote[i].name)
}

/// The codec negotiation selects, if any.
pub open spec fn select_codec_spec(
    remote: Seq<CodecView>,
    local: Seq<CodecView>,
    priority: Seq<Seq<char>>,
) -> Option<CodecView> {
    if exists|i: int| 0 <= i < remote.len() && eligible(local, #[trigger] remote[i]) {
        Some(remote[choose|i: int| chosen(remote, local, priority, i)])
    } else {
        None
    }
}

pub open spec fn codec_views(v: Seq<CodecInfo>) -> Seq<CodecView> {
    v.map_values(|c: CodecInfo| c@)
}

pub open spec fn audio_priority() -> Seq<Seq<char>> {
    seq!["opus"@]
}

pub open spec fn video_priority() -> Seq<Seq<char>> {
    seq!["h264"@, "vp8"@]
}

pub open spec fn min_u32(a: u32, b: u32) -> u32 {
    if a <= b {
        a
    } else {
        b
    }
}

/// The answer's resolution (each dimension) and frame rate are what both
/// offers can take: at most each offer's maximum, and equal to one of them.
pub open spec fn within_both_offers(a: MediaAnswer, remote: MediaOffer, local: MediaOffer) -> bool {
    &&& a.negotiated_resolution.0 <= remote.max_resolution.0
    &&& a.negotiated_resolution.0 <= local.max_resolution.0
    &&& (a.negotiated_resolution.0 == remote.max_resolution.0 || a.negotiated_resolution.0 == local.max_resolution.0)
    &&& a.negotiated_resolution.1 <= remote.max_resolution.1
    &&& a.negotiated_resolution.1 <= local.max_resolution.1
    &&& (a.negotiated_resolution.1 == remote.max_resolution.1 || a.negotiated_resolution.1 == local.max_resolution.1)
    &&& a.negotiated_framerate <= remote.max_framerate
    &&& a.negotiated_framerate <= local.max_framerate
    &&& (a.negotiated_framerate == remote.max_framerate || a.negotiated_framerate == local.max_framerate)
}

/// A negotiated value never exceeds what either side offers, and is what
/// one of them offers: the smaller of the two.
pub proof fn law_negotiated_value_within_both(remote: u32, local: u32)
    ensures
        min_u32(remote, local) <= remote,
        min_u32(remote, local) <= local,
        min_u32(remote, local) == remote || min_u32(remote, local) == local,
{
}

fn copy_codec(c: &CodecInfo) -> (r: CodecInfo)
    ensures
        r@ == c@,
{
    CodecInfo { name: c.name.clone(), sample_rate: c.sample_rate, channels: c.channels }
}

fn rank_of(priority: &Vec<String>, name: &String) -> (r: usize)
    ensures
        r as nat == rank(priority@.map_values(|p: String| p@), name@),
{
    let ghost pv = priority@.map_values(|p: String| p@);
    let mut i: usize = 0;
    while i < priority.len()
        invariant
            0 <= i <= priority.len(),
            pv == priority@.map_values(|p: String| p@),
            forall|k: int| 0 <= k < i ==> pv[k] != name@,
        decreases priority.len() - i,
    {
        if priority[i] == *name {
            proof {
                let c = choose|c: int|
                    #![trigger pv[c]]
                    0 <= c < pv.len() && pv[c] == name@ && forall|k: int| 0 <= k < c ==> pv[k] != name@;
                assert(pv[i as int] == name@);
                if c < i {
                    assert(pv[c] != name@);
                } else if c > i {
                    assert(pv[i as int] != name@);
                }
            }
            return i;
        }
        i = i + 1;
    }
    usize::MAX
}

fn offered_by(local: &Vec<CodecInfo>, name: &String) -> (r: bool)
    ensures
        r == exists|j: int| 0 <= j < local.len() && (#[trigger] codec_views(local@)[j]).name == name@,
{
    let mut j: usize = 0;
    while j < local.len()
        invariant
            0 <= j <= local.len(),
            forall|k: int| 0 <= k < j ==> (#[trigger] codec_views(local@)[k]).name != name@,
        decreases local.len() - j,
    {
        if local[j].name == *name {
            assert(codec_views(local@)[j as int].name == name@);
            return true;
        }
        j = j + 1;
    }
    false
}

/// Select the best matching codec from two lists, with priority preference.
fn select_codec(remote: &Vec<CodecInfo>, local: &Vec<CodecInfo>, priority: &Vec<String>) -> (r: Option<CodecInfo>)
    ensures
        match r {
            Some(c) => select_codec_spec(codec_views(remote@), codec_views(local@), priority@.map_values(|p: String| p@)) == Some(c@),
            None => select_codec_spec(codec_views(remote@), codec_views(local@), priority@.map_values(|p: String| p@)) is None,
        },
{
    let ghost rv = codec_views(remote@);
    let ghost lv = codec_views(local@);
    let ghost pv = priority@.map_values(|p: String| p@);
    let mut best: Option<usize> = None;
    let mut best_rank: usize = 0;
    let mut i: usize = 0;
    while i < remote.len()
        invariant
            0 <= i <= remote.len(),
            rv == codec_views(remote@),
            lv == codec_views(local@),
            pv == priority@.map_values(|p: String| p@),
            best is None ==> forall|j: int| 0 <= j < i ==> !eligible(lv, #[trigger] rv[j]),
            best matches Some(b) ==> {
                &&& b < i
                &&& eligible(lv, rv[b as int])
                &&& best_rank as nat == rank(pv, rv[b as int].name)
                &&& forall|j: int| 0 <= j < i && eligible(lv, #[trigger] rv[j]) ==> rank(pv, rv[b as int].name) <= rank(pv, rv[j].name)
                &&& forall|j: int| 0 <= j < b && eligible(lv, #[trigger] rv[j]) ==> rank(pv, rv[j].name) > rank(pv, rv[b as int].name)
            },
        decreases remote.len() - i,
    {
        assert(rv[i as int] == remote@[i as int]@);
        if offered_by(local, &remote[i].name) {
            let r = rank_of(priority, &remote[i].name);
            let better = match best {
                None => true,
                Some(_) => r < best_rank,
            };
            if better {
                best = Some(i);
                best_rank = r;
            }
        }
        i = i + 1;
    }
    match best {
        None => {
            None
        },
        Some(b) => {
            proof {
                let c = choose|c: int| chosen(rv, lv, pv, c);
                assert(chosen(rv, lv, pv, b as int));
                assert(chosen(rv, lv, pv, c));
                if c < b {
                    assert(rank(pv, rv[c].name) > rank(pv, rv[b as int].name));
                } else if c > b {
                    assert(rank(pv, rv[b as int].name) > rank(pv, rv[c].name));
                }
            }
            Some(copy_codec(&remote[b]))
        },
    }
}

/// Select the best matching codecs and quality from two offers.
///
/// Audio prefers "opus"; video prefers "h264", then "vp8"; among codecs of
/// the same preference the remote side's order decides. Resolution and frame
/// rate are the smaller of the two offers'.
pub fn select_answer(remote: &MediaOffer, local: &MediaOffer) -> (r: Result<MediaAnswer, NegotiationError>)
    ensures
        ({
            let audio = select_codec_spec(codec_views(remote.audio_codecs@), codec_views(local.audio_codecs@), audio_priority());
            let video = select_codec_spec(codec_views(remote.video_codecs@), codec_views(local.video_codecs@), video_priority());
            match r {
                Err(NegotiationError::NoCommonAudioCodec) => audio is None,
                Err(NegotiationError::NoCommonVideoCodec) => audio is Some && video is None,
                Ok(a) => {
                    &&& audio == Some(a.selected_audio_codec@)
                    &&& video == Some(a.selected_video_codec@)
                    &&& a.negotiated_resolution == (
                        min_u32(remote.max_resolution.0, local.max_resolution.0),
                        min_u32(remote.max_resolution.1, local.max_resolution.1),
                    )
                    &&& a.negotiated_framerate == min_u32(remote.max_framerate, local.max_framerate)
                    &&& within_both_offers(a, *remote, *local)
                },
            }
        }),
{
    let mut audio_priority_names: Vec<String> = Vec::new();
    audio_priority_names.push(String::from_str("opus"));
    let mut video_priority_names: Vec<String> = Vec::new();
    video_priority_names.push(String::from_str("h264"));
    video_priority_names.push(String::from_str("vp8"));
    assert(audio_priority_names@.map_values(|p: String| p@) =~= audio_priority());
    assert(video_priority_names@.map_values(|p: String| p@) =~= video_priority());
    let audio_codec = match select_codec(&remote.audio_codecs, &local.audio_codecs, &audio_priority_names) {
        Some(c) => c,
        None => {
            return Err(NegotiationError::NoCommonAudioCodec);
        },
    };
    let video_codec = match select_codec(&remote.video_codecs, &local.video_codecs, &video_priority_names) {
        Some(c) => c,
        None => {
            return Err(NegotiationError::NoCommonVideoCodec);
        },
    };
    let w = if remote.max_resolution.0 <= local.max_resolution.0 {
        remote.max_resolution.0
    } else {
        local.max_resolution.0
    };
    let h = if remote.max_resolution.1 <= local.max_resolution.1 {
        remote.max_resolution.1
    } else {
        local.max_resolution.1
    };
    let f = if remote.max_framerate <= local.max_framerate {
        remote.max_framerate
    } else {
        local.max_framerate
    };
    Ok(
        MediaAnswer {
            selected_audio_codec: audio_codec,
            selected_video_codec: video_codec,
            negotiated_resolution: (w, h),
            negotiated_framerate: f,
        },
    )
}

/// Default local capabilities for offer generation.
pub fn default_offer() -> (o: MediaOffer)
    ensures
        codec_views(o.audio_codecs@) == seq![CodecView { name: "opus"@, sample_rate: 48_000, channels: 1 }],
        codec_views(o.video_codecs@) == seq![
            CodecView { name: "h264"@, sample_rate: 90_000, channels: 0 },
            CodecView { name: "vp8"@, sample_rate: 90_000, channels: 0 },
        ],
        o.max_resolution == (1920u32, 1080u32),
        o.max_framerate == 30,
{
    let mut audio_codecs: Vec<CodecInfo> = Vec::new();
    audio_codecs.push(CodecInfo { name: String::from_str("opus"), sample_rate: 48_000, channels: 1 });
    let mut video_codecs: Vec<CodecInfo> = Vec::new();
    video_codecs.push(CodecInfo { name: String::from_str("h264"), sample_rate: 90_000, channels: 0 });
    video_codecs.push(CodecInfo { name: String::from_str("vp8"), sample_rate: 90_000, channels: 0 });
    let o = MediaOffer { audio_codecs, video_codecs, max_resolution: (1920, 1080), max_framerate: 30 };
    assert(codec_views(o.audio_codecs@) =~= seq![CodecView { name: "opus"@, sample_rate: 48_000, channels: 1 }]);
    assert(codec_views(o.video_codecs@) =~= seq![
        CodecView { name: "h264"@, sample_rate: 90_000, channels: 0 },
        CodecView { name: "vp8"@, sample_rate: 90_000, channels: 0 },
    ]);
    o
}

proof fn lemma_chosen_exists(remote: Seq<CodecView>, local: Seq<CodecView>, priority: Seq<Seq<char>>)
    requires
        exists|i: int| 0 <= i < remote.len() && eligible(local, #[trigger] remote[i]),
    ensures
        exists|i: int| chosen(remote, local, priority, i),
    decreases remote.len(),
{
    let init = remote.drop_last();
    let last = remote.len() - 1;
    if exists|i: int| 0 <= i < init.len() && eligible(local, #[trigger] init[i]) {
        lemma_chosen_exists(init, local, priority);
        let c = choose|i: int| chosen(init, local, priority, i);
        assert(remote[c] == init[c]);
        if eligible(local, remote[last]) && rank(priority, remote[last].name) < rank(priority, remote[c].name) {
            assert forall|j: int|
                0 <= j < remote.len() && eligible(local, #[trigger] remote[j]) implies rank(
                    priority,
                    remote[last].name,
                ) <= rank(priority, remote[j].name) by {
                if j < last {
                    assert(init[j] == remote[j]);
                }
            }
            assert forall|j: int|
                0 <= j < last && eligible(local, #[trigger] remote[j]) implies rank(priority, remote[j].name)
                > rank(priority, remote[last].name) by {
                assert(init[j] == remote[j]);
            }
            assert(chosen(remote, local, priority, last));
        } else {
            assert forall|j: int|
                0 <= j < remote.len() && eligible(local, #[trigger] remote[j]) implies rank(
                    priority,
                    remote[c].name,
                ) <= rank(priority, remote[j].name) by {
                if j < last {
                    assert(init[j] == remote[j]);
                }
            }
            assert forall|j: int|
                0 <= j < c && eligible(local, #[trigger] remote[j]) implies rank(priority, remote[j].name)
                > rank(priority, remote[c].name) by {
                assert(init[j] == remote[j]);
            }
            assert(chosen(remote, local, priority, c));
        }
    } else {
        let w = choose|i: int| 0 <= i < remote.len() && eligible(local, #[trigger] remote[i]);
        if w < last {
            assert(init[w] == remote[w]);
        }
        assert forall|j: int| 0 <= j < last && eligible(local, #[trigger] remote[j]) implies false by {
            assert(init[j] == remote[j]);
        }
        assert(chosen(remote, local, priority, last));
    }
}

/// Codec selection fails exactly when no codec of the remote side is also
/// offered locally; otherwise it picks a codec of the remote offer that the
/// local side offers too, and no common codec is preferred to it.
pub proof fn law_codec_choice_common_and_preferred(
    remote: Seq<CodecView>,
    local: Seq<CodecView>,
    priority: Seq<Seq<char>>,
)
    ensures
        select_codec_spec(remote, local, priority) is None <==> forall|i: int|
            0 <= i < remote.len() ==> !eligible(local, #[trigger] remote[i]),
        select_codec_spec(remote, local, priority) matches Some(c) ==> {
            &&& remote.contains(c)
            &&& exists|j: int| 0 <= j < local.len() && (#[trigger] local[j]).name == c.name
            &&& forall|k: int|
                0 <= k < remote.len() && eligible(local, #[trigger] remote[k]) ==> rank(priority, c.name) <= rank(
                    priority,
                    remote[k].name,
                )
        },
{
    if exists|i: int| 0 <= i < remote.len() && eligible(local, #[trigger] remote[i]) {
        lemma_chosen_exists(remote, local, priority);
        let c = choose|i: int| chosen(remote, local, priority, i);
        assert(chosen(remote, local, priority, c));
        assert(remote.contains(remote[c]));
    }
}

} // verus!
