//! Decoded frames of an image and the memory budget that animations are held
//! to while their frames are collected one at a time.
use vstd::prelude::*;
use vstd::string::StringExecFns;
use crate::paths::{is_image_ext, spec_ext_of};
use crate::text::{decimal, push_decimal};
use crate::budget::MIB;

verus! {

/// One frame of an image: its pixels and how long to show it, in nanoseconds
/// (zero for a still image).
pub struct AnimFrame<I> {
    pub image: I,
    pub delay_ns: u64,
}

/// What a decode produced: the frames, plus anything the user should be told
/// about how they were produced.
pub struct Loaded<I> {
    pub frames: Vec<AnimFrame<I>>,
    pub note: Option<String>,
}

pub open spec fn note_view(note: Option<String>) -> Option<Seq<char>> {
    match note {
        Some(s) => Some(s@),
        None => None,
    }
}

impl<I> Loaded<I> {
    /// Frames with nothing to report.
    pub fn frames(frames: Vec<AnimFrame<I>>) -> (r: Self)
        ensures
            r.frames@ == frames@,
            r.note is None,
    {
        Loaded { frames, note: None }
    }

    /// A still image: one frame shown for no set time.
    pub fn still(image: I) -> (r: Self)
        ensures
            r.frames@ == seq![AnimFrame { image, delay_ns: 0 }],
            r.note is None,
    {
        let mut frames: Vec<AnimFrame<I>> = Vec::new();
        frames.push(AnimFrame { image, delay_ns: 0 });
        Loaded { frames, note: None }
    }

    /// Nothing could be decoded.
    pub fn empty() -> (r: Self)
        ensures
            r.frames@.len() == 0,
            r.note is None,
    {
        Loaded { frames: Vec::new(), note: None }
    }

    pub fn is_empty(&self) -> (r: bool)
        ensures
            r == (self.frames@.len() == 0),
    {
        self.frames.len() == 0
    }
}

/// Shortest delay shown as given; shorter ones are treated as unset.
pub const MIN_FRAME_DELAY_NS: u64 = 20_000_000;

/// The delay used for frames whose own delay is unset or too short.
pub const DEFAULT_FRAME_DELAY_NS: u64 = 100_000_000;

/// A frame delay as shown: delays under 20 ms become 100 ms, the way browsers
/// treat them.
pub open spec fn spec_clamp_delay(ns: u64) -> u64 {
    if ns < MIN_FRAME_DELAY_NS {
        DEFAULT_FRAME_DELAY_NS
    } else {
        ns
    }
}

pub fn clamp_delay(ns: u64) -> (r: u64)
    ensures
        r == spec_clamp_delay(ns),
        ns >= MIN_FRAME_DELAY_NS ==> r == ns,
        ns < MIN_FRAME_DELAY_NS ==> r == DEFAULT_FRAME_DELAY_NS,
{
    if ns < MIN_FRAME_DELAY_NS {
        DEFAULT_FRAME_DELAY_NS
    } else {
        ns
    }
}

/// A frame's own delay is kept whenever it is at least 20 ms, however long;
/// only a delay under 20 ms (unset, or too short to show) becomes 100 ms. So
/// every delay shown is at least 20 ms, and clamping twice changes nothing.
pub proof fn lemma_clamp_delay(ns: u64)
    ensures
        MIN_FRAME_DELAY_NS == 20_000_000,
        DEFAULT_FRAME_DELAY_NS == 100_000_000,
        ns >= 20_000_000 ==> spec_clamp_delay(ns) == ns,
        ns < 20_000_000 ==> spec_clamp_delay(ns) == 100_000_000,
        spec_clamp_delay(ns) >= 20_000_000,
        spec_clamp_delay(spec_clamp_delay(ns)) == spec_clamp_delay(ns),
{
}

/// The bytes one decoded RGBA frame occupies.
pub open spec fn frame_bytes(width: u32, height: u32) -> nat {
    (width as nat) * (height as nat) * 4
}

/// The note shown when an animation went over the budget.
pub open spec fn cap_note(budget: u64, stopped: nat) -> Seq<char> {
    "animation over the "@ + decimal((budget / MIB) as nat) + " MiB cap (stopped at "@ + decimal(
        stopped,
    ) + " frame"@ + (if stopped == 1 {
        ""@
    } else {
        "s"@
    }) + ") \u{2014} first frame only"@
}

/// Builds the note shown when an animation went over the budget.
pub fn cap_note_string(budget: u64, stopped: u64) -> (r: String)
    ensures
        r@ == cap_note(budget, stopped as nat),
{
    let mut s = String::new();
    s.append("animation over the ");
    push_decimal(&mut s, budget / MIB);
    s.append(" MiB cap (stopped at ");
    push_decimal(&mut s, stopped);
    s.append(" frame");
    proof {
        reveal_strlit("");
    }
    if stopped != 1 {
        s.append("s");
    }
    s.append(") \u{2014} first frame only");
    assert(s@ =~= cap_note(budget, stopped as nat));
    s
}

/// Collects the frames of an animation one at a time, stopping once their
/// decoded size goes over a memory budget: the budget is a real ceiling, passed
/// by at most the one frame that crosses it.
pub struct AnimCollector<I> {
    budget: u64,
    bytes: u64,
    frames: Vec<AnimFrame<I>>,
    stopped: Option<u64>,
}

impl<I> AnimCollector<I> {
    pub closed spec fn budget(&self) -> u64 {
        self.budget
    }

    /// Bytes of every frame accepted so far, the one that crossed the budget
    /// included.
    pub closed spec fn bytes(&self) -> nat {
        self.bytes as nat
    }

    /// The frames kept.
    pub closed spec fn kept(&self) -> Seq<AnimFrame<I>> {
        self.frames@
    }

    /// How many frames had been collected when the budget was crossed, if it was.
    pub closed spec fn stopped(&self) -> Option<nat> {
        match self.stopped {
            Some(n) => Some(n as nat),
            None => None,
        }
    }

    /// The collector's invariant: under budget it keeps every frame; over budget
    /// it keeps only the first, as a still.
    pub closed spec fn wf(&self) -> bool {
        match self.stopped {
            None => self.bytes <= self.budget,
            Some(n) => {
                &&& self.bytes > self.budget
                &&& n >= 1
                &&& self.frames@.len() == 1
                &&& self.frames@[0].delay_ns == 0
            },
        }
    }

    pub fn new(budget: u64) -> (r: Self)
        ensures
            r.wf(),
            r.budget() == budget,
            r.bytes() == 0,
            r.kept().len() == 0,
            r.stopped() is None,
    {
        AnimCollector { budget, bytes: 0, frames: Vec::new(), stopped: None }
    }

    pub fn is_stopped(&self) -> (r: bool)
        ensures
            r == (self.stopped() is Some),
    {
        self.stopped.is_some()
    }

    /// Whether one more frame of this size can be counted without the byte
    /// total overflowing.
    pub fn can_count(&self, width: u32, height: u32) -> (r: bool)
        ensures
            r == (self.bytes() + frame_bytes(width, height) <= u64::MAX),
    {
        assert((width as nat) * (height as nat) <= 0xffff_ffff * 0xffff_ffff) by (nonlinear_arith)
            requires
                width <= 0xffff_ffff,
                height <= 0xffff_ffff,
        ;
        let size = (width as u64) * (height as u64);
        match size.checked_mul(4) {
            Some(b) => match self.bytes.checked_add(b) {
                Some(_) => true,
                None => false,
            },
            None => false,
        }
    }

    /// Accepts the next frame (its pixels, size and delay as decoded). Its delay
    /// is clamped. When the total goes over the budget, only the first frame is
    /// kept, as a still, and `true` is returned: collecting is over.
    pub fn add_frame(&mut self, image: I, width: u32, height: u32, delay_ns: u64) -> (over: bool)
        requires
            old(self).wf(),
            old(self).stopped() is None,
            old(self).bytes() + frame_bytes(width, height) <= u64::MAX,
        ensures
            final(self).wf(),
            final(self).budget() == old(self).budget(),
            final(self).bytes() == old(self).bytes() + frame_bytes(width, height),
            final(self).bytes() <= final(self).budget() + frame_bytes(width, height),
            over == (final(self).bytes() > final(self).budget()),
            !over ==> final(self).kept() == old(self).kept().push(AnimFrame { image, delay_ns: spec_clamp_delay(delay_ns) }),
            !over ==> final(self).stopped() is None,
            over ==> final(self).stopped() == Some(old(self).kept().len() + 1),
            over ==> final(self).kept() == seq![
                AnimFrame {
                    image: old(self).kept().push(AnimFrame { image, delay_ns: spec_clamp_delay(delay_ns) })[0].image,
                    delay_ns: 0u64,
                },
            ],
    {
        let delay = clamp_delay(delay_ns);
        let size = (width as u64) * (height as u64) * 4;
        assert((width as nat) * (height as nat) * 4 <= u64::MAX);
        self.bytes = self.bytes + size;
        self.frames.push(AnimFrame { image, delay_ns: delay });
        if self.bytes > self.budget {
            let stopped = self.frames.len() as u64;
            self.frames.truncate(1);
            let first = self.frames.pop().unwrap();
            self.frames.push(AnimFrame { image: first.image, delay_ns: 0 });
            self.stopped = Some(stopped);
            true
        } else {
            false
        }
    }

    /// The frames collected, with the budget note when the budget was crossed.
    pub fn finish(self) -> (r: Loaded<I>)
        requires
            self.wf(),
        ensures
            r.frames@ == self.kept(),
            note_view(r.note) == match self.stopped() {
                Some(n) => Some(cap_note(self.budget(), n)),
                None => None,
            },
    {
        match self.stopped {
            Some(n) => {
                let note = cap_note_string(self.budget, n);
                Loaded { frames: self.frames, note: Some(note) }
            },
            None => Loaded { frames: self.frames, note: None },
        }
    }
}

/// How a file is decoded, chosen by its extension: GIF and WebP may be
/// animated, everything else is decoded as a still.
pub enum DecodeRoute {
    Gif,
    WebP,
    Still,
}

pub open spec fn spec_decode_route(path: Seq<char>) -> DecodeRoute {
    if spec_ext_of(path) == "gif"@ {
        DecodeRoute::Gif
    } else if spec_ext_of(path) == "webp"@ {
        DecodeRoute::WebP
    } else {
        DecodeRoute::Still
    }
}

pub fn decode_route(path: &str) -> (r: DecodeRoute)
    ensures
        r == spec_decode_route(path@),
        spec_ext_of(path@) == "gif"@ ==> r is Gif,
        spec_ext_of(path@) == "webp"@ ==> r is WebP,
        spec_ext_of(path@) != "gif"@ && spec_ext_of(path@) != "webp"@ ==> r is Still,
{
    proof {
        reveal_strlit("gif");
        reveal_strlit("webp");
        assert("gif"@[0] != "webp"@[0]);
    }
    let e = crate::paths::ext_chars_of(path);
    if crate::paths::chars_equal(&e, "gif") {
        DecodeRoute::Gif
    } else if crate::paths::chars_equal(&e, "webp") {
        DecodeRoute::WebP
    } else {
        DecodeRoute::Still
    }
}

/// Only GIF and WebP files (by their lower-cased extension) are decoded as
/// possible animations, one route each, and both are image types the viewer
/// offers; every other file is decoded as a still.
pub proof fn lemma_decode_routes(path: Seq<char>)
    ensures
        spec_decode_route(path) is Gif <==> spec_ext_of(path) == "gif"@,
        spec_decode_route(path) is WebP <==> spec_ext_of(path) == "webp"@,
        spec_decode_route(path) is Still <==> (spec_ext_of(path) != "gif"@ && spec_ext_of(path)
            != "webp"@),
        !(spec_decode_route(path) is Still) ==> is_image_ext(spec_ext_of(path)),
{
    reveal_strlit("gif");
    reveal_strlit("webp");
    assert("gif"@[0] != "webp"@[0]);
}

/// What an animated decode leads to: its result when it produced frames; no
/// result (so the file is decoded as a still) when it produced none or was not
/// made (the file could not be opened, the decoder refused it, or the image is
/// not animated).
pub fn use_animation<I>(animated: Option<Loaded<I>>) -> (r: Option<Loaded<I>>)
    ensures
        match animated {
            Some(l) => if l.frames@.len() > 0 {
                r == Some(l)
            } else {
                r is None
            },
            None => r is None,
        },
{
    match animated {
        Some(l) => if l.is_empty() {
            None
        } else {
            Some(l)
        },
        None => None,
    }
}

} // verus!
