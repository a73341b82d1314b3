//! Overflow clips of the paint walk.

pub mod masked;

use vstd::prelude::*;
use crate::rect::{max_usize, min_usize, PhysicalRect};
use crate::scene::{ClipMask, CornerRadius};

verus! {

/// One overflow clip. The rectangle cuts the clipped axes; corner radii count
/// only where both axes are cut.
#[derive(Clone, Copy, Debug, PartialEq, Eq)]
pub struct RasterClip {
    pub rect: PhysicalRect,
    pub radii: [(usize, usize); 4],
    pub clip_x: bool,
    pub clip_y: bool,
}

/// Some corner is rounded.
pub open spec fn rounded(radii: [(usize, usize); 4]) -> bool {
    exists|i: int| 0 <= i < 4 && #[trigger] radii@[i] != (0usize, 0usize)
}

/// A radius of the scene.
pub open spec fn scene_radius(radius: (usize, usize)) -> CornerRadius {
    CornerRadius { x: radius.0 as u32, y: radius.1 as u32 }
}

fn to_scene_radius(radius: (usize, usize)) -> (result: CornerRadius)
    ensures
        result == scene_radius(radius),
{
    CornerRadius {
        x: #[verifier::truncate] (radius.0 as u32),
        y: #[verifier::truncate] (radius.1 as u32),
    }
}

impl RasterClip {
    /// The part of a span that the clip's rectangle leaves on a row.
    pub open spec fn cut(self, y: int, span: (int, int)) -> Option<(int, int)> {
        let x1 = if self.clip_x && self.rect.x1 > span.0 {
            self.rect.x1 as int
        } else {
            span.0
        };
        let x2 = if self.clip_x && self.rect.x2 < span.1 {
            self.rect.x2 as int
        } else {
            span.1
        };
        if self.clip_y && !(self.rect.y1 <= y < self.rect.y2) {
            None
        } else if x2 > x1 {
            Some((x1, x2))
        } else {
            None
        }
    }

    /// Cuts a span of a row by the clip's rectangle.
    pub fn rectangular_span(self, y: usize, x1: usize, x2: usize) -> (result: Option<
        (usize, usize),
    >)
        ensures
            span_view(result) == self.cut(y as int, (x1 as int, x2 as int)),
    {
        if self.clip_y && (y < self.rect.y1 || y >= self.rect.y2) {
            return None;
        }
        let left: usize = if self.clip_x {
            max_usize(x1, self.rect.x1)
        } else {
            x1
        };
        let right: usize = if self.clip_x {
            min_usize(x2, self.rect.x2)
        } else {
            x2
        };
        if right > left {
            Some((left, right))
        } else {
            None
        }
    }

    /// Whether the clip has a rounded shape at all.
    pub fn is_rounded(self) -> (result: bool)
        ensures
            result == (self.clip_x && self.clip_y && rounded(self.radii)),
    {
        if !self.clip_x || !self.clip_y {
            return false;
        }
        let mut i: usize = 0;
        while i < 4
            invariant
                i <= 4,
                self.clip_x && self.clip_y,
                forall|k: int| 0 <= k < i ==> #[trigger] self.radii@[k] == (0usize, 0usize),
            decreases 4 - i,
        {
            let radius = self.radii[i];
            if radius.0 != 0 || radius.1 != 0 {
                assert(self.radii@[i as int] != (0usize, 0usize));
                return true;
            }
            i = i + 1;
        }
        false
    }

    /// The clip as a mask of the scene; only a rounded one needs a mask.
    pub fn scene_mask(self) -> (result: Option<ClipMask>)
        ensures
            match result {
                Some(mask) => {
                    &&& self.clip_x && self.clip_y && rounded(self.radii)
                    &&& mask == mask_of(self)
                },
                None => !(self.clip_x && self.clip_y && rounded(self.radii)),
            },
    {
        if !self.is_rounded() {
            return None;
        }
        let radii: [CornerRadius; 4] = [
            to_scene_radius(self.radii[0]),
            to_scene_radius(self.radii[1]),
            to_scene_radius(self.radii[2]),
            to_scene_radius(self.radii[3]),
        ];
        let mask = ClipMask { rect: self.rect.display_rect(), radii };
        assert(mask.radii@ =~= mask_of(self).radii@);
        assert(mask.radii =~= mask_of(self).radii);
        Some(mask)
    }
}

/// The mask of a rounded clip.
pub open spec fn mask_of(clip: RasterClip) -> ClipMask {
    ClipMask {
        rect: clip.rect.placed(),
        radii: [
            scene_radius(clip.radii[0]),
            scene_radius(clip.radii[1]),
            scene_radius(clip.radii[2]),
            scene_radius(clip.radii[3]),
        ],
    }
}

/// The view of a span.
pub open spec fn span_view(span: Option<(usize, usize)>) -> Option<(int, int)> {
    match span {
        Some(s) => Some((s.0 as int, s.1 as int)),
        None => None,
    }
}

/// The clips that apply at a point of the paint walk, the outermost first.
pub struct ClipStack {
    pub clips: Vec<RasterClip>,
}

/// What all clips leave of a row of so many pixels.
pub open spec fn stack_span(clips: Seq<RasterClip>, y: int, width: int) -> Option<(int, int)>
    decreases clips.len(),
{
    if clips.len() == 0 {
        Some((0, width))
    } else {
        match stack_span(clips.drop_last(), y, width) {
            Some(span) => clips.last().cut(y, span),
            None => None,
        }
    }
}

/// The masks of all rounded clips.
pub open spec fn stack_masks(clips: Seq<RasterClip>) -> Seq<ClipMask>
    decreases clips.len(),
{
    if clips.len() == 0 {
        Seq::empty()
    } else {
        let before = stack_masks(clips.drop_last());
        let last = clips.last();
        if last.clip_x && last.clip_y && rounded(last.radii) {
            before.push(mask_of(last))
        } else {
            before
        }
    }
}

impl ClipStack {
    /// No clip applies.
    pub fn new() -> (result: Self)
        ensures
            result.clips@ == Seq::<RasterClip>::empty(),
    {
        ClipStack { clips: Vec::new() }
    }

    /// One more clip applies.
    pub fn push_clip(&mut self, clip: RasterClip)
        ensures
            final(self).clips@ == old(self).clips@.push(clip),
    {
        self.clips.push(clip);
    }

    /// The innermost clip no longer applies.
    pub fn pop_clip(&mut self)
        requires
            old(self).clips@.len() > 0,
        ensures
            final(self).clips@ == old(self).clips@.drop_last(),
    {
        self.clips.pop();
    }

    /// What the clips' rectangles leave of a row.
    pub fn rectangular_span(&self, y: usize, width: usize) -> (result: Option<(usize, usize)>)
        ensures
            span_view(result) == stack_span(self.clips@, y as int, width as int),
    {
        let mut span: Option<(usize, usize)> = Some((0, width));
        let mut i: usize = 0;
        while i < self.clips.len()
            invariant
                i <= self.clips@.len(),
                span_view(span) == stack_span(self.clips@.take(i as int), y as int, width as int),
            decreases self.clips@.len() - i,
        {
            assert(self.clips@.take(i + 1).drop_last() =~= self.clips@.take(i as int));
            span = match span {
                Some(s) => self.clips[i].rectangular_span(y, s.0, s.1),
                None => None,
            };
            i = i + 1;
        }
        assert(self.clips@.take(i as int) =~= self.clips@);
        span
    }

    /// The masks of all rounded clips.
    pub fn scene_clip_masks(&self) -> (result: Vec<ClipMask>)
        ensures
            result@ == stack_masks(self.clips@),
    {
        let mut masks: Vec<ClipMask> = Vec::new();
        let mut i: usize = 0;
        while i < self.clips.len()
            invariant
                i <= self.clips@.len(),
                masks@ == stack_masks(self.clips@.take(i as int)),
            decreases self.clips@.len() - i,
        {
            assert(self.clips@.take(i + 1).drop_last() =~= self.clips@.take(i as int));
            if let Some(mask) = self.clips[i].scene_mask() {
                masks.push(mask);
            }
            i = i + 1;
        }
        assert(self.clips@.take(i as int) =~= self.clips@);
        masks
    }
}

/// Clips only ever cut: what is left of a row lies in the row.
pub proof fn clips_only_cut(clips: Seq<RasterClip>, y: int, width: int)
    requires
        width >= 0,
    ensures
        stack_span(clips, y, width) matches Some(span) ==> 0 <= span.0 <= span.1 <= width,
    decreases clips.len(),
{
    if clips.len() > 0 {
        clips_only_cut(clips.drop_last(), y, width);
    }
}

/// A popped clip leaves the stack as it was before it was pushed.
pub proof fn push_then_pop(clips: Seq<RasterClip>, clip: RasterClip)
    ensures
        clips.push(clip).drop_last() == clips,
{
    assert(clips.push(clip).drop_last() =~= clips);
}

} // verus!
