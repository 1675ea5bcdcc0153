//! Pixel conversions of captured screen frames, and the grouping of audio
//! samples from a device callback into fixed-size frames.
//!
//! Device and screen access run in the caller; what it captured is handed
//! here as plain values.

use vstd::prelude::*;

use crate::media::{DisplayInfo, PixelFormat, RawFrame, WindowInfo, FRAME_DURATION_MS};

verus! {

/// RGBA bytes from BGRA bytes: in every complete 4-byte pixel the first and
/// third bytes trade places; trailing bytes of an incomplete pixel stay.
pub open spec fn rgba_from_bgra(d: Seq<u8>) -> Seq<u8> {
    Seq::new(
        d.len(),
        |i: int|
            if (i / 4) * 4 + 4 <= d.len() && i % 4 == 0 {
                d[i + 2]
            } else if (i / 4) * 4 + 4 <= d.len() && i % 4 == 2 {
                d[i - 2]
            } else {
                d[i]
            },
    )
}

/// RGBA bytes from RGB bytes: every complete 3-byte pixel gains an opaque
/// alpha byte; trailing bytes of an incomplete pixel are dropped.
pub open spec fn rgba_from_rgb(d: Seq<u8>) -> Seq<u8> {
    Seq::new((d.len() / 3) * 4, |i: int| if i % 4 == 3 { 255u8 } else { d[(i / 4) * 3 + i % 4] })
}

/// Swap the blue and red bytes of every complete BGRA pixel, in place.
pub fn bgra_to_rgba(data: &mut Vec<u8>)
    ensures
        final(data)@ == rgba_from_bgra(old(data)@),
{
    let ghost orig = data@;
    let n = data.len();
    let mut k: usize = 0;
    while k < n / 4
        invariant
            n == orig.len(),
            data@.len() == n,
            k <= n / 4,
            forall|i: int| 0 <= i < 4 * k ==> data@[i] == #[trigger] rgba_from_bgra(orig)[i],
            forall|i: int| 4 * k <= i < n ==> data@[i] == orig[i],
        decreases n / 4 - k,
    {
        let b = data[4 * k];
        let r = data[4 * k + 2];
        data.set(4 * k, r);
        data.set(4 * k + 2, b);
        assert forall|i: int| 4 * k <= i < 4 * k + 4 implies data@[i] == #[trigger] rgba_from_bgra(orig)[i] by {
            assert(i / 4 == k);
        }
        k = k + 1;
    }
    assert forall|i: int| 0 <= i < n implies data@[i] == #[trigger] rgba_from_bgra(orig)[i] by {
        if i >= 4 * k {
            assert((i / 4) * 4 + 4 > n);
        }
    }
    assert(data@ =~= rgba_from_bgra(orig));
}

/// Expand RGB pixels to RGBA with an opaque alpha.
pub fn rgb_to_rgba(data: &[u8]) -> (out: Vec<u8>)
    requires
        data@.len() / 3 * 4 <= usize::MAX,
    ensures
        out@ == rgba_from_rgb(data@),
{
    let n = data.len() / 3;
    let mut out: Vec<u8> = Vec::new();
    let mut k: usize = 0;
    while k < n
        invariant
            n == data@.len() / 3,
            n * 4 <= usize::MAX,
            k <= n,
            out@.len() == 4 * k,
            forall|i: int| 0 <= i < 4 * k ==> out@[i] == #[trigger] rgba_from_rgb(data@)[i],
        decreases n - k,
    {
        out.push(data[3 * k]);
        out.push(data[3 * k + 1]);
        out.push(data[3 * k + 2]);
        out.push(255);
        assert forall|i: int| 4 * k <= i < 4 * k + 4 implies out@[i] == #[trigger] rgba_from_rgb(data@)[i] by {
            assert(i / 4 == k);
        }
        k = k + 1;
    }
    assert(out@ =~= rgba_from_rgb(data@));
    out
}

/// A frame as the screen capturer delivers it.
#[derive(Debug, Clone)]
pub enum CapturedFrame {
    /// 4 bytes per pixel, blue first.
    Bgra { width: i32, height: i32, data: Vec<u8> },
    /// 3 bytes per pixel, red first.
    Rgb { width: i32, height: i32, data: Vec<u8> },
    /// 4 bytes per pixel, red first, fourth byte unused.
    Rgbx { width: i32, height: i32, data: Vec<u8> },
    /// 4 bytes per pixel, blue first, fourth byte unused.
    Bgrx { width: i32, height: i32, data: Vec<u8> },
    /// A frame in another layout, or not a video frame.
    Unsupported,
}

/// The raw frame a captured frame becomes, if its layout is supported:
/// (width, height, RGBA data).
pub open spec fn frame_to_raw_spec(f: CapturedFrame) -> Option<(u32, u32, Seq<u8>)> {
    match f {
        CapturedFrame::Bgra { width, height, data } => Some((width as u32, height as u32, rgba_from_bgra(data@))),
        CapturedFrame::Rgb { width, height, data } => Some((width as u32, height as u32, rgba_from_rgb(data@))),
        CapturedFrame::Rgbx { width, height, data } => Some((width as u32, height as u32, data@)),
        CapturedFrame::Bgrx { width, height, data } => Some((width as u32, height as u32, rgba_from_bgra(data@))),
        CapturedFrame::Unsupported => None,
    }
}

/// Convert a captured frame to an RGBA [`RawFrame`]. BGRA and BGRx pixels
/// have their blue and red bytes swapped, RGB pixels gain an alpha byte, and
/// RGBx frames are passed on as they are. Other layouts give `None`.
pub fn frame_to_raw(frame: CapturedFrame) -> (r: Option<RawFrame>)
    requires
        frame matches CapturedFrame::Rgb { data, .. } ==> data@.len() / 3 * 4 <= usize::MAX,
    ensures
        match (r, frame_to_raw_spec(frame)) {
            (Some(raw), Some((w, h, d))) => raw.width == w && raw.height == h && raw.data@ == d && raw.format
                == PixelFormat::Rgba,
            (None, None) => true,
            _ => false,
        },
{
    match frame {
        CapturedFrame::Bgra { width, height, data } => {
            let mut rgba = data;
            bgra_to_rgba(&mut rgba);
            Some(RawFrame { data: rgba, width: width as u32, height: height as u32, format: PixelFormat::Rgba })
        },
        CapturedFrame::Rgb { width, height, data } => {
            let rgba = rgb_to_rgba(&data);
            Some(RawFrame { data: rgba, width: width as u32, height: height as u32, format: PixelFormat::Rgba })
        },
        CapturedFrame::Rgbx { width, height, data } => {
            Some(RawFrame { data, width: width as u32, height: height as u32, format: PixelFormat::Rgba })
        },
        CapturedFrame::Bgrx { width, height, data } => {
            let mut rgba = data;
            bgra_to_rgba(&mut rgba);
            Some(RawFrame { data: rgba, width: width as u32, height: height as u32, format: PixelFormat::Rgba })
        },
        CapturedFrame::Unsupported => None,
    }
}

/// Samples in one 20 ms frame at `sample_rate` with `channels` interleaved
/// channels.
pub fn frame_samples(sample_rate: u32, channels: u16) -> (n: usize)
    requires
        sample_rate * FRAME_DURATION_MS <= u32::MAX,
        (sample_rate * FRAME_DURATION_MS / 1000) * channels <= usize::MAX,
    ensures
        n == (sample_rate * FRAME_DURATION_MS / 1000) * channels,
{
    let per_channel = (sample_rate * FRAME_DURATION_MS / 1000) as usize;
    assert(per_channel * channels <= usize::MAX);
    per_channel * channels as usize
}

/// Byte length of an RGBA frame of `width` x `height` pixels.
pub fn rgba_buffer_len(width: u32, height: u32) -> (n: usize)
    requires
        width * height * 4 <= u32::MAX,
    ensures
        n == width * height * 4,
{
    assert(width * height <= u32::MAX) by (nonlinear_arith)
        requires
            width * height * 4 <= u32::MAX,
    ;
    (width * height * 4) as usize
}

/// Groups samples arriving in arbitrary amounts into frames of a fixed
/// length.
pub struct FrameAccumulator<T> {
    frame_len: usize,
    pending: Vec<T>,
}

impl<T: Copy> FrameAccumulator<T> {
    /// Length of one frame.
    pub closed spec fn frame_len(&self) -> nat {
        self.frame_len as nat
    }

    /// Samples of the frame being filled.
    pub closed spec fn pending(&self) -> Seq<T> {
        self.pending@
    }

    pub open spec fn wf(&self) -> bool {
        &&& self.frame_len() > 0
        &&& self.pending().len() < self.frame_len()
    }

    /// An accumulator for frames of `frame_len` samples.
    pub fn new(frame_len: usize) -> (a: Self)
        requires
            frame_len > 0,
        ensures
            a.wf(),
            a.frame_len() == frame_len,
            a.pending() == Seq::<T>::empty(),
    {
        FrameAccumulator { frame_len, pending: Vec::new() }
    }

    /// Take `data`; return every frame it completes, in order. What is left
    /// waits for the next call.
    pub fn push(&mut self, data: &[T]) -> (frames: Vec<Vec<T>>)
        requires
            old(self).wf(),
        ensures
            final(self).wf(),
            final(self).frame_len() == old(self).frame_len(),
            ({
                let all = old(self).pending() + data@;
                let n = old(self).frame_len() as int;
                &&& frames.len() == (all.len() as int) / n
                &&& forall|k: int|
                    0 <= k < frames.len() ==> (#[trigger] frames[k])@ == all.subrange(k * n, k * n + n)
                &&& final(self).pending() == all.subrange(frames.len() * n, all.len() as int)
            }),
    {
        let ghost all = self.pending@ + data@;
        let ghost n = self.frame_len as int;
        let mut frames: Vec<Vec<T>> = Vec::new();
        let ghost mut base: int = 0;
        let mut j: usize = 0;
        assert(frames.len() * n == 0) by (nonlinear_arith)
            requires
                frames.len() == 0,
        ;
        while j < data.len()
            invariant
                all == old(self).pending() + data@,
                n == self.frame_len as int,
                n > 0,
                self.frame_len == old(self).frame_len,
                j <= data@.len(),
                base == frames.len() * n,
                base + self.pending@.len() == old(self).pending().len() + j,
                self.pending@.len() < n,
                self.pending@ == all.subrange(base, base + self.pending@.len()),
                forall|k: int| 0 <= k < frames.len() ==> (#[trigger] frames[k])@ == all.subrange(k * n, k * n + n),
            decreases data@.len() - j,
        {
            self.pending.push(data[j]);
            assert(self.pending@ =~= all.subrange(base, base + self.pending@.len()));
            if self.pending.len() == self.frame_len {
                let mut frame: Vec<T> = Vec::new();
                std::mem::swap(&mut frame, &mut self.pending);
                let ghost k = frames.len() as int;
                frames.push(frame);
                proof {
                    assert(base + n == (k + 1) * n) by (nonlinear_arith)
                        requires
                            base == k * n,
                    ;
                    base = base + n;
                    assert(self.pending@ =~= all.subrange(base, base));
                }
            }
            j = j + 1;
        }
        proof {
            let m = frames.len() as int;
            assert(all.len() == base + self.pending@.len());
            assert((all.len() as int) / n == m) by (nonlinear_arith)
                requires
                    all.len() == m * n + self.pending@.len(),
                    0 <= self.pending@.len() < n,
                    m >= 0,
            ;
        }
        frames
    }
}

proof fn lemma_frames_prefix<T>(all: Seq<T>, n: int, k: int)
    requires
        n > 0,
        0 <= k,
        k * n <= all.len(),
    ensures
        Seq::new(k as nat, |i: int| all.subrange(i * n, i * n + n)).flatten_alt() == all.subrange(0, k * n),
    decreases k,
{
    let f = |i: int| all.subrange(i * n, i * n + n);
    let s = Seq::new(k as nat, f);
    if k == 0 {
        assert(all.subrange(0, 0) =~= Seq::<T>::empty());
        assert(s.flatten_alt() =~= Seq::<T>::empty());
    } else {
        assert((k - 1) * n == k * n - n) by (nonlinear_arith);
        lemma_frames_prefix(all, n, k - 1);
        let prev = Seq::new((k - 1) as nat, f);
        assert(s.drop_last() =~= prev);
        assert(prev.flatten_alt() == all.subrange(0, (k - 1) * n));
        assert(s.last() == all.subrange((k - 1) * n, k * n));
        assert(s.flatten_alt() == s.drop_last().flatten_alt() + s.last());
        assert(all.subrange(0, (k - 1) * n) + all.subrange((k - 1) * n, k * n) =~= all.subrange(0, k * n));
    }
}

/// The frames cut from a run of samples, followed by the unfinished rest,
/// give back the run: no sample is lost, duplicated or reordered.
pub proof fn law_frames_keep_every_sample<T>(all: Seq<T>, n: int)
    requires
        n > 0,
    ensures
        ({
            let m = (all.len() as int) / n;
            Seq::new(m as nat, |k: int| all.subrange(k * n, k * n + n)).flatten() + all.subrange(
                m * n,
                all.len() as int,
            ) == all
        }),
{
    let m = (all.len() as int) / n;
    assert(m * n <= all.len() && m >= 0) by (nonlinear_arith)
        requires
            n > 0,
            m == (all.len() as int) / n,
    ;
    let s = Seq::new(m as nat, |k: int| all.subrange(k * n, k * n + n));
    lemma_frames_prefix(all, n, m);
    s.lemma_flatten_and_flatten_alt_are_equivalent();
    assert(all.subrange(0, m * n) + all.subrange(m * n, all.len() as int) =~= all);
}

/// Samples waiting to be played, fed by whole frames and drained by the
/// output device in amounts of its choosing.
pub struct PlaybackBuffer<T> {
    pending: Vec<T>,
}

impl<T: Copy> PlaybackBuffer<T> {
    /// Samples waiting to be played.
    pub closed spec fn pending(&self) -> Seq<T> {
        self.pending@
    }

    /// An empty buffer.
    pub fn new() -> (b: Self)
        ensures
            b.pending() == Seq::<T>::empty(),
    {
        PlaybackBuffer { pending: Vec::new() }
    }

    /// Whether fewer than `n` samples are waiting: the device asks for `n`,
    /// so another frame should be taken if one is available.
    pub fn needs_more(&self, n: usize) -> (b: bool)
        ensures
            b == (self.pending().len() < n),
    {
        self.pending.len() < n
    }

    /// Queue a received frame after the waiting samples.
    pub fn append(&mut self, frame: &[T])
        ensures
            final(self).pending() == old(self).pending() + frame@,
    {
        let ghost before = self.pending@;
        let mut k: usize = 0;
        while k < frame.len()
            invariant
                k <= frame@.len(),
                self.pending@ == before + frame@.subrange(0, k as int),
            decreases frame@.len() - k,
        {
            self.pending.push(frame[k]);
            assert(frame@.subrange(0, k + 1) =~= frame@.subrange(0, k as int).push(frame@[k as int]));
            k = k + 1;
        }
        assert(frame@.subrange(0, k as int) =~= frame@);
    }

    /// The next `n` samples for the device: the waiting samples first, then
    /// `silence` for whatever is missing.
    pub fn take(&mut self, n: usize, silence: T) -> (out: Vec<T>)
        ensures
            out@ == if n <= old(self).pending().len() {
                old(self).pending().take(n as int)
            } else {
                old(self).pending() + Seq::new((n - old(self).pending().len()) as nat, |i: int| silence)
            },
            final(self).pending() == old(self).pending().skip(
                if n <= old(self).pending().len() { n as int } else { old(self).pending().len() as int },
            ),
    {
        let ghost p = self.pending@;
        let used: usize = if n <= self.pending.len() { n } else { self.pending.len() };
        let mut out: Vec<T> = Vec::new();
        let mut k: usize = 0;
        while k < n
            invariant
                p == self.pending@,
                used == if n <= p.len() { n } else { p.len() as usize },
                k <= n,
                out@.len() == k,
                forall|i: int| 0 <= i < k ==> #[trigger] out@[i] == if i < used { p[i] } else { silence },
            decreases n - k,
        {
            if k < used {
                out.push(self.pending[k]);
            } else {
                out.push(silence);
            }
            k = k + 1;
        }
        let mut rest: Vec<T> = Vec::new();
        let mut j: usize = used;
        while j < self.pending.len()
            invariant
                p == self.pending@,
                used <= j <= p.len(),
                rest@ == p.subrange(used as int, j as int),
            decreases p.len() - j,
        {
            rest.push(self.pending[j]);
            assert(p.subrange(used as int, j + 1) =~= p.subrange(used as int, j as int).push(p[j as int]));
            j = j + 1;
        }
        self.pending = rest;
        proof {
            if n <= p.len() {
                assert(out@ =~= p.take(n as int));
            } else {
                assert(out@ =~= p + Seq::new((n - p.len()) as nat, |i: int| silence));
            }
            assert(self.pending@ =~= p.skip(used as int));
        }
        out
    }
}

/// Something the screen capturer can capture.
#[derive(Debug, Clone, PartialEq, Eq)]
pub enum CaptureTarget {
    Display { id: u32, title: String },
    Window { id: u32, title: String },
}

/// The displays among the capture targets, in order, described by id and
/// title (their size is not reported).
pub fn list_displays(targets: &Vec<CaptureTarget>) -> (displays: Vec<DisplayInfo>)
    ensures
        ({
            let ds = targets@.filter(|t: CaptureTarget| t is Display);
            &&& displays.len() == ds.len()
            &&& forall|k: int|
                0 <= k < ds.len() ==> (ds[k] matches CaptureTarget::Display { id, title } && (#[trigger] displays[k]).id
                    == id && displays[k].name@ == title@ && displays[k].width == 0 && displays[k].height == 0)
        }),
{
    let ghost pred = |t: CaptureTarget| t is Display;
    let mut out: Vec<DisplayInfo> = Vec::new();
    let mut j: usize = 0;
    while j < targets.len()
        invariant
            j <= targets@.len(),
            pred == (|t: CaptureTarget| t is Display),
            out.len() == targets@.take(j as int).filter(pred).len(),
            forall|k: int|
                0 <= k < out.len() ==> (targets@.take(j as int).filter(pred)[k] matches CaptureTarget::Display {
                    id,
                    title,
                } && (#[trigger] out[k]).id == id && out[k].name@ == title@ && out[k].width == 0 && out[k].height
                    == 0),
        decreases targets@.len() - j,
    {
        proof {
            assert(targets@.take(j + 1) =~= targets@.take(j as int).push(targets@[j as int]));
            targets@.take(j as int).lemma_filter_push(targets@[j as int], pred);
        }
        match &targets[j] {
            CaptureTarget::Display { id, title } => {
                out.push(DisplayInfo { name: title.clone(), id: *id, width: 0, height: 0 });
            },
            CaptureTarget::Window { .. } => {},
        }
        j = j + 1;
    }
    assert(targets@.take(j as int) =~= targets@);
    out
}

/// The windows among the capture targets, in order, described by id and
/// title (their application is not reported).
pub fn list_windows(targets: &Vec<CaptureTarget>) -> (windows: Vec<WindowInfo>)
    ensures
        ({
            let ws = targets@.filter(|t: CaptureTarget| t is Window);
            &&& windows.len() == ws.len()
            &&& forall|k: int|
                0 <= k < ws.len() ==> (ws[k] matches CaptureTarget::Window { id, title } && (#[trigger] windows[k]).id
                    == id && windows[k].title@ == title@ && windows[k].app_name@ == Seq::<char>::empty())
        }),
{
    let ghost pred = |t: CaptureTarget| t is Window;
    let mut out: Vec<WindowInfo> = Vec::new();
    let mut j: usize = 0;
    while j < targets.len()
        invariant
            j <= targets@.len(),
            pred == (|t: CaptureTarget| t is Window),
            out.len() == targets@.take(j as int).filter(pred).len(),
            forall|k: int|
                0 <= k < out.len() ==> (targets@.take(j as int).filter(pred)[k] matches CaptureTarget::Window {
                    id,
                    title,
                } && (#[trigger] out[k]).id == id && out[k].title@ == title@ && out[k].app_name@ == Seq::<
                    char,
                >::empty()),
        decreases targets@.len() - j,
    {
        proof {
            assert(targets@.take(j + 1) =~= targets@.take(j as int).push(targets@[j as int]));
            targets@.take(j as int).lemma_filter_push(targets@[j as int], pred);
        }
        match &targets[j] {
            CaptureTarget::Window { id, title } => {
                out.push(WindowInfo { title: title.clone(), app_name: String::new(), id: *id });
            },
            CaptureTarget::Display { .. } => {},
        }
        j = j + 1;
    }
    assert(targets@.take(j as int) =~= targets@);
    out
}

/// Position of the first target that is the display `id` (with
/// `is_window`, the window `id`), or `None` when there is none.
pub fn find_target(targets: &Vec<CaptureTarget>, id: u32, is_window: bool) -> (r: Option<usize>)
    ensures
        match r {
            Some(i) => i < targets@.len() && target_is(targets@[i as int], id, is_window) && forall|k: int|
                0 <= k < i ==> !target_is(#[trigger] targets@[k], id, is_window),
            None => forall|k: int| 0 <= k < targets@.len() ==> !target_is(#[trigger] targets@[k], id, is_window),
        },
{
    let mut j: usize = 0;
    while j < targets.len()
        invariant
            j <= targets@.len(),
            forall|k: int| 0 <= k < j ==> !target_is(#[trigger] targets@[k], id, is_window),
        decreases targets@.len() - j,
    {
        let hit = match &targets[j] {
            CaptureTarget::Display { id: d, .. } => !is_window && *d == id,
            CaptureTarget::Window { id: w, .. } => is_window && *w == id,
        };
        if hit {
            return Some(j);
        }
        j = j + 1;
    }
    None
}

/// Whether `t` is the display (or, with `is_window`, the window) `id`.
pub open spec fn target_is(t: CaptureTarget, id: u32, is_window: bool) -> bool {
    match t {
        CaptureTarget::Display { id: d, .. } => !is_window && d == id,
        CaptureTarget::Window { id: w, .. } => is_window && w == id,
    }
}

} // verus!
