//! The on-screen display state: the frame-time line, a banner, the rewind or
//! fast-forward indicator and a short queue of toast messages that expire.

use vstd::prelude::*;
use vstd::utf8::encode_utf8;

verus! {

/// Frames a toast stays on screen.
pub const TOAST_DURATION: u32 = 120;

/// Vertical distance between the transport line and the toasts stacked
/// above it.
pub const TOAST_LINE_SPACING: i32 = 10;

/// Toasts shown at once; a new one pushes out the oldest.
pub const MAX_TOASTS: usize = 4;

/// A message that disappears after a number of frames.
pub struct Toast {
    pub text: String,
    pub frames_remaining: u32,
}

/// What the transport line shows.
pub enum TransportStatus {
    /// Rewinding, with the position as text.
    Rewind(String),
    FastForward,
}

pub struct Overlay {
    pub enabled: bool,
    pub frame_time_text: String,
    pub toasts: Vec<Toast>,
    pub banner: Option<String>,
    pub transport: Option<TransportStatus>,
    pub overscan: u8,
}

/// One thing to draw; positions are in pixels, from the top-left corner of
/// the frame, and every glyph is 8 pixels wide.
pub enum DrawOp {
    /// A line of text whose top-left corner is at (`x`, `y`).
    Text { x: i32, y: i32, text: String },
    /// The double arrow of the transport line, pointing left when rewinding
    /// and right when fast-forwarding.
    DoubleArrow { x: i32, y: i32, left: bool },
}

/// What a `DrawOp` draws, with the text as characters.
pub enum DrawStep {
    Text { x: int, y: int, text: Seq<char> },
    DoubleArrow { x: int, y: int, left: bool },
}

impl View for DrawOp {
    type V = DrawStep;

    open spec fn view(&self) -> DrawStep {
        match self {
            DrawOp::Text { x, y, text } => DrawStep::Text { x: *x as int, y: *y as int, text: text@ },
            DrawOp::DoubleArrow { x, y, left } => DrawStep::DoubleArrow {
                x: *x as int,
                y: *y as int,
                left: *left,
            },
        }
    }
}

/// The width in pixels of `text`: 8 for each of its UTF-8 bytes.
pub open spec fn text_width(text: Seq<char>) -> int {
    8 * (encode_utf8(text).len() as int)
}

/// The left edge of something `w` pixels wide, centred in `width`; the
/// halving rounds toward zero.
pub open spec fn centred(width: int, w: int) -> int {
    let d = width - w;
    if d >= 0 {
        d / 2
    } else {
        -((-d) / 2)
    }
}

/// The toasts, newest first, each centred on its own line, the newest at
/// `y` and each older one `TOAST_LINE_SPACING` higher.
pub open spec fn toast_steps(toasts: Seq<Toast>, width: int, y: int) -> Seq<DrawStep> {
    Seq::new(
        toasts.len(),
        |j: int|
            {
                let t = toasts[toasts.len() - 1 - j];
                DrawStep::Text {
                    x: centred(width, text_width(t.text@)),
                    y: y - TOAST_LINE_SPACING * j,
                    text: t.text@,
                }
            },
    )
}

/// The toast queue after one frame: every toast loses a frame, and those
/// with none left are gone; the others keep their order.
pub open spec fn ticked(s: Seq<Toast>) -> Seq<Toast>
    decreases s.len(),
{
    if s.len() == 0 {
        Seq::empty()
    } else {
        let t = s.last();
        let rest = ticked(s.drop_last());
        if t.frames_remaining > 1 {
            rest.push(Toast { text: t.text, frames_remaining: (t.frames_remaining - 1) as u32 })
        } else {
            rest
        }
    }
}

/// The toast queue after `text` is shown: the oldest makes room when the
/// queue is full.
pub open spec fn with_toast(s: Seq<Toast>, text: String) -> Seq<Toast> {
    let kept = if s.len() >= MAX_TOASTS { s.subrange(1, s.len() as int) } else { s };
    kept.push(Toast { text, frames_remaining: TOAST_DURATION })
}

/// A frame never lengthens the queue, and every toast left has a frame
/// left to show.
pub proof fn lemma_ticked_shrinks(s: Seq<Toast>)
    ensures
        ticked(s).len() <= s.len(),
        forall|i: int| 0 <= i < ticked(s).len() ==> #[trigger] ticked(s)[i].frames_remaining >= 1,
    decreases s.len(),
{
    if s.len() > 0 {
        lemma_ticked_shrinks(s.drop_last());
    }
}

/// The queue never holds more than `MAX_TOASTS` toasts: showing a toast
/// and letting a frame pass both keep that bound.
pub proof fn lemma_toast_queue_bounded(s: Seq<Toast>, text: String)
    requires
        s.len() <= MAX_TOASTS,
    ensures
        with_toast(s, text).len() <= MAX_TOASTS,
        ticked(s).len() <= MAX_TOASTS,
{
    lemma_ticked_shrinks(s);
}

impl Default for Overlay {
    fn default() -> (o: Overlay)
        ensures
            !o.enabled,
            o.frame_time_text@ == Seq::<char>::empty(),
            o.toasts@.len() == 0,
            o.banner is None,
            o.transport is None,
            o.overscan == 0,
    {
        Overlay::new()
    }
}

/// The left edge of something `w` pixels wide, centred in `width`.
fn centre(width: i32, w: i32) -> (x: i32)
    requires
        0 <= width,
        0 <= w,
    ensures
        x == centred(width as int, w as int),
{
    let d = width - w;
    if d >= 0 {
        d / 2
    } else {
        -((-d) / 2)
    }
}

/// The width in pixels of `text`.
fn width_of(text: &String) -> (w: i32)
    requires
        text_width(text@) <= i32::MAX,
    ensures
        w == text_width(text@),
{
    let n = text.as_str().len();
    (n as i32) * 8
}

impl Overlay {
    /// The bottom line of the display: the transport line when there is
    /// one, else the newest toast.
    pub open spec fn bottom_line(&self, height: int) -> int {
        height - 12 - self.overscan
    }

    /// The lines drawn at the bottom: the transport line, then the toasts.
    pub open spec fn bottom_lines(&self) -> int {
        self.toasts@.len() + if self.transport is Some { 1int } else { 0int }
    }

    /// The frame-time line, when enabled and not empty, then the banner,
    /// centred in the middle of the frame.
    pub open spec fn top_steps(&self, width: int, height: int) -> Seq<DrawStep> {
        let timing = if self.enabled && self.frame_time_text@.len() > 0 {
            seq![DrawStep::Text { x: 2, y: 2 + self.overscan, text: self.frame_time_text@ }]
        } else {
            Seq::empty()
        };
        let banner = match self.banner {
            Some(b) => seq![
                DrawStep::Text { x: centred(width, text_width(b@)), y: height / 2 - 4, text: b@ },
            ],
            None => Seq::empty(),
        };
        timing + banner
    }

    /// The transport line at `y`: the label, the arrow right after it and,
    /// when rewinding, the position 4 pixels after the arrow, all centred as
    /// one.
    pub open spec fn transport_steps(&self, width: int, y: int) -> Seq<DrawStep> {
        match self.transport {
            Some(TransportStatus::Rewind(t)) => {
                let x = centred(width, 56 + 10 + 4 + text_width(t@));
                seq![
                    DrawStep::Text { x: x, y: y, text: "REWIND "@ },
                    DrawStep::DoubleArrow { x: x + 56, y: y, left: true },
                    DrawStep::Text { x: x + 56 + 10 + 4, y: y, text: t@ },
                ]
            },
            Some(TransportStatus::FastForward) => {
                let x = centred(width, 24int + 10);
                seq![
                    DrawStep::Text { x: x, y: y, text: "FF "@ },
                    DrawStep::DoubleArrow { x: x + 24, y: y, left: false },
                ]
            },
            None => Seq::empty(),
        }
    }

    /// Everything the display draws on a `width` by `height` frame, in
    /// drawing order.
    pub open spec fn plan(&self, width: int, height: int) -> Seq<DrawStep> {
        let y = self.bottom_line(height);
        let toasts_y = if self.transport is Some { y - TOAST_LINE_SPACING } else { y };
        self.top_steps(width, height) + self.transport_steps(width, y) + toast_steps(
            self.toasts@,
            width,
            toasts_y,
        )
    }

    /// The texts are narrow enough, and the lines few enough, that every
    /// position fits in an `i32`.
    pub open spec fn fits(&self, height: int) -> bool {
        &&& self.banner matches Some(b) ==> text_width(b@) <= i32::MAX
        &&& self.transport matches Some(TransportStatus::Rewind(t)) ==> 56 + 10 + 4 + text_width(
            t@,
        ) <= i32::MAX
        &&& forall|i: int|
            0 <= i < self.toasts@.len() ==> text_width(#[trigger] self.toasts@[i].text@)
                <= i32::MAX
        &&& self.bottom_line(height) - TOAST_LINE_SPACING * self.bottom_lines() >= i32::MIN
    }

    pub fn new() -> (o: Overlay)
        ensures
            !o.enabled,
            o.frame_time_text@ == Seq::<char>::empty(),
            o.toasts@.len() == 0,
            o.banner is None,
            o.transport is None,
            o.overscan == 0,
    {
        Overlay {
            enabled: false,
            frame_time_text: String::new(),
            toasts: Vec::new(),
            banner: None,
            transport: None,
            overscan: 0,
        }
    }

    pub fn toggle(&mut self)
        ensures
            *final(self) == (Overlay { enabled: !old(self).enabled, ..*old(self) }),
    {
        self.enabled = !self.enabled;
    }

    /// Shows `text` as the frame-time line.
    pub fn set_frame_time_text(&mut self, text: String)
        ensures
            *final(self) == (Overlay { frame_time_text: text, ..*old(self) }),
    {
        self.frame_time_text = text;
    }

    pub fn set_banner(&mut self, text: Option<String>)
        ensures
            *final(self) == (Overlay { banner: text, ..*old(self) }),
    {
        self.banner = text;
    }

    /// Shows the rewind indicator with `text`, or clears the transport line.
    pub fn set_rewind_status(&mut self, text: Option<String>)
        ensures
            *final(self) == (Overlay {
                transport: match text {
                    Some(t) => Some(TransportStatus::Rewind(t)),
                    None => None,
                },
                ..*old(self)
            }),
    {
        self.transport = match text {
            Some(t) => Some(TransportStatus::Rewind(t)),
            None => None,
        };
    }

    /// Shows or clears the fast-forward indicator; a rewind indicator stays.
    pub fn set_fast_forward(&mut self, active: bool)
        ensures
            old(self).transport matches Some(TransportStatus::Rewind(_)) ==> *final(self) == *old(self),
            !(old(self).transport matches Some(TransportStatus::Rewind(_))) ==> *final(self) == (Overlay {
                transport: if active { Some(TransportStatus::FastForward) } else { None },
                ..*old(self)
            }),
    {
        let rewinding = match &self.transport {
            Some(TransportStatus::Rewind(_)) => true,
            _ => false,
        };
        if !rewinding {
            if active {
                self.transport = Some(TransportStatus::FastForward);
            } else {
                self.transport = None;
            }
        }
    }

    pub fn set_overscan(&mut self, lines: u8)
        ensures
            *final(self) == (Overlay { overscan: lines, ..*old(self) }),
    {
        self.overscan = lines;
    }

    /// Queues `text` for `TOAST_DURATION` frames.
    pub fn toast(&mut self, text: String)
        ensures
            final(self).toasts@ == with_toast(old(self).toasts@, text),
            final(self).enabled == old(self).enabled,
            final(self).frame_time_text == old(self).frame_time_text,
            final(self).banner == old(self).banner,
            final(self).transport == old(self).transport,
            final(self).overscan == old(self).overscan,
    {
        if self.toasts.len() >= MAX_TOASTS {
            self.toasts.remove(0);
        }
        self.toasts.push(Toast { text, frames_remaining: TOAST_DURATION });
    }

    /// What the display draws on a `width` by `height` frame, in drawing
    /// order: see `plan`.
    pub fn draw_plan(&self, width: i32, height: i32) -> (ops: Vec<DrawOp>)
        requires
            0 <= width,
            0 <= height,
            self.fits(height as int),
        ensures
            ops@.len() == self.plan(width as int, height as int).len(),
            forall|k: int|
                0 <= k < ops@.len() ==> #[trigger] ops@[k]@ == self.plan(
                    width as int,
                    height as int,
                )[k],
    {
        let ghost plan = self.plan(width as int, height as int);
        let ghost top = self.top_steps(width as int, height as int);
        let os = self.overscan as i32;
        let mut ops: Vec<DrawOp> = Vec::new();
        if self.enabled && !self.frame_time_text.as_str().is_empty() {
            ops.push(DrawOp::Text { x: 2, y: 2 + os, text: self.frame_time_text.clone() });
        }
        match &self.banner {
            Some(b) => {
                let x = centre(width, width_of(b));
                ops.push(DrawOp::Text { x: x, y: height / 2 - 4, text: b.clone() });
            },
            None => {},
        }
        assert(ops@.len() == top.len());
        assert forall|k: int| 0 <= k < ops@.len() implies #[trigger] ops@[k]@ == top[k] by {}
        let mut y = height - 12 - os;
        let ghost tr = self.transport_steps(width as int, y as int);
        match &self.transport {
            Some(TransportStatus::Rewind(t)) => {
                let x = centre(width, 56 + 10 + 4 + width_of(t));
                ops.push(DrawOp::Text { x: x, y: y, text: "REWIND ".to_owned() });
                ops.push(DrawOp::DoubleArrow { x: x + 56, y: y, left: true });
                ops.push(DrawOp::Text { x: x + 56 + 10 + 4, y: y, text: t.clone() });
                y = y - TOAST_LINE_SPACING;
            },
            Some(TransportStatus::FastForward) => {
                let x = centre(width, 24 + 10);
                ops.push(DrawOp::Text { x: x, y: y, text: "FF ".to_owned() });
                ops.push(DrawOp::DoubleArrow { x: x + 24, y: y, left: false });
                y = y - TOAST_LINE_SPACING;
            },
            None => {},
        }
        let ghost base = ops@.len();
        let ghost y0 = y as int;
        assert(base == top.len() + tr.len());
        assert forall|k: int| 0 <= k < base implies #[trigger] ops@[k]@ == plan[k] by {
            if k < top.len() {
                assert(plan[k] == top[k]);
            } else {
                assert(plan[k] == tr[k - top.len()]);
            }
        }
        let n = self.toasts.len();
        let mut i: usize = n;
        while i > 0
            invariant
                i <= n,
                n == self.toasts@.len(),
                0 <= width,
                plan == self.plan(width as int, height as int),
                plan == top + tr + toast_steps(self.toasts@, width as int, y0),
                base == top.len() + tr.len(),
                self.fits(height as int),
                y0 - TOAST_LINE_SPACING * n >= i32::MIN,
                y == y0 - TOAST_LINE_SPACING * (n - i),
                ops@.len() == base + (n - i),
                forall|k: int| 0 <= k < ops@.len() ==> #[trigger] ops@[k]@ == plan[k],
            decreases i,
        {
            i = i - 1;
            let t = &self.toasts[i];
            assert(text_width(self.toasts@[i as int].text@) <= i32::MAX);
            let x = centre(width, width_of(&t.text));
            let ghost j = (n - 1 - i) as int;
            assert(plan[base + j] == toast_steps(self.toasts@, width as int, y0)[j]);
            ops.push(DrawOp::Text { x: x, y: y, text: t.text.clone() });
            y = y - TOAST_LINE_SPACING;
        }
        ops
    }

    /// Lets one frame pass for the toasts.
    pub fn tick(&mut self)
        ensures
            final(self).toasts@ == ticked(old(self).toasts@),
            final(self).enabled == old(self).enabled,
            final(self).frame_time_text == old(self).frame_time_text,
            final(self).banner == old(self).banner,
            final(self).transport == old(self).transport,
            final(self).overscan == old(self).overscan,
    {
        let mut pending: Vec<Toast> = Vec::new();
        std::mem::swap(&mut pending, &mut self.toasts);
        let ghost orig = pending@;
        let n = pending.len();
        let mut kept: Vec<Toast> = Vec::new();
        let mut k: usize = 0;
        while pending.len() > 0
            invariant
                n == orig.len(),
                k <= n,
                pending@ == orig.subrange(k as int, orig.len() as int),
                kept@ == ticked(orig.subrange(0, k as int)),
            decreases pending@.len(),
        {
            let t = pending.remove(0);
            assert(orig.subrange(0, k + 1 as int).drop_last() == orig.subrange(0, k as int));
            if t.frames_remaining > 1 {
                kept.push(Toast { text: t.text, frames_remaining: t.frames_remaining - 1 });
            }
            k = k + 1;
        }
        assert(orig.subrange(0, orig.len() as int) == orig);
        self.toasts = kept;
    }
}

} // verus!
