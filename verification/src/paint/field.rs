//! What a single-line text field paints.

use vstd::prelude::*;
use crate::paint::control::{
    caret_rect, control_caret, control_selection_rect, gpu_physical_rect, on_screen,
    selection_rect, solid, SolidPaint,
};
use crate::rect::PhysicalRect;

verus! {

/// One step of painting a field, in physical pixels.
#[derive(Clone, Copy, Debug, PartialEq, Eq, Structural)]
pub enum FieldStep {
    /// A selection's background, or the caret.
    Solid(SolidPaint),
    /// The value, or the placeholder, within a clip.
    Text { placeholder: bool, clip: PhysicalRect },
    /// The value again in the colors of the selection, within a clip.
    Selected { clip: PhysicalRect },
}

/// What a field shows and where.
#[derive(Clone, Copy)]
pub struct FieldFrame {
    pub content: PhysicalRect,
    pub line: PhysicalRect,
    /// The content that is visible.
    pub clip: PhysicalRect,
    /// Where the text begins.
    pub origin_x: i32,
    /// The color behind selected text.
    pub selection: Option<u32>,
    /// The caret's column in the content, with focus.
    pub caret: Option<i32>,
    pub color: u32,
}

/// A field shows its placeholder while it has no value.
pub open spec fn shows_placeholder(value: Seq<char>, placeholder: Seq<char>) -> bool {
    value.len() == 0 && placeholder.len() > 0
}

/// Whether a field shows its placeholder.
pub fn showing_placeholder(value: &str, placeholder: &str) -> (result: bool)
    ensures
        result == shows_placeholder(value@, placeholder@),
{
    value.unicode_len() == 0 && placeholder.unicode_len() != 0
}

/// The rectangle of one selected range.
pub open spec fn range_rect(frame: FieldFrame, range: (i32, i32)) -> PhysicalRect {
    selection_rect(
        frame.origin_x as int,
        frame.line,
        frame.content,
        range.0 as int,
        range.1 as int,
    ).meet(frame.clip)
}

/// Solid paint as steps.
pub open spec fn solid_steps(paint: Seq<SolidPaint>) -> Seq<FieldStep> {
    Seq::new(paint.len(), |i: int| FieldStep::Solid(paint[i]))
}

/// The backgrounds of the selected ranges.
pub open spec fn selection_steps(frame: FieldFrame, ranges: Seq<(i32, i32)>) -> Seq<FieldStep>
    decreases ranges.len(),
{
    if ranges.len() == 0 {
        Seq::empty()
    } else {
        selection_steps(frame, ranges.drop_last()) + match frame.selection {
            Some(color) => solid_steps(solid(range_rect(frame, ranges.last()), color, 0)),
            None => Seq::empty(),
        }
    }
}

/// The selected ranges, painted again over the text.
pub open spec fn selected_steps(frame: FieldFrame, ranges: Seq<(i32, i32)>) -> Seq<FieldStep> {
    Seq::new(
        ranges.len(),
        |i: int| FieldStep::Selected { clip: range_rect(frame, ranges[i]) },
    )
}

/// The caret, with focus.
pub open spec fn caret_steps(frame: FieldFrame) -> Seq<FieldStep> {
    match frame.caret {
        Some(offset) => solid_steps(
            solid(
                caret_rect(frame.content, frame.line, offset as int).meet(frame.clip),
                frame.color,
                0,
            ),
        ),
        None => Seq::empty(),
    }
}

/// What a field paints: the selection behind the text, the text, the selected
/// text again, and the caret on top. A placeholder has no selection, and a field
/// that cannot be seen paints nothing.
pub open spec fn field_steps(
    frame: FieldFrame,
    placeholder: bool,
    ranges: Seq<(i32, i32)>,
) -> Seq<FieldStep> {
    let text = seq![FieldStep::Text { placeholder, clip: frame.clip }];
    if frame.clip.void() {
        Seq::empty()
    } else if placeholder {
        text + caret_steps(frame)
    } else {
        selection_steps(frame, ranges) + text + selected_steps(frame, ranges) + caret_steps(frame)
    }
}

/// Ranges whose columns are numbers of the screen.
pub open spec fn ranges_fit(frame: FieldFrame, ranges: Seq<(i32, i32)>) -> bool {
    forall|i: int|
        0 <= i < ranges.len() ==> {
            &&& i32::MIN <= frame.origin_x + (#[trigger] ranges[i]).0 <= i32::MAX
            &&& i32::MIN <= frame.origin_x + ranges[i].1 <= i32::MAX
        }
}

fn push_solid(steps: &mut Vec<FieldStep>, rect: PhysicalRect, color: u32)
    ensures
        final(steps)@ == old(steps)@ + solid_steps(solid(rect, color, 0)),
{
    let mut paint: Vec<SolidPaint> = Vec::new();
    gpu_physical_rect(&mut paint, rect, color, 0);
    assert(paint@ =~= solid(rect, color, 0));
    if paint.len() > 0 {
        steps.push(FieldStep::Solid(paint[0]));
    }
    assert(steps@ =~= old(steps)@ + solid_steps(solid(rect, color, 0)));
}

fn selected_rect(frame: &FieldFrame, range: (i32, i32)) -> (result: PhysicalRect)
    requires
        on_screen(frame.content),
        frame.content.x1 <= frame.content.x2,
        i32::MIN <= frame.origin_x + range.0 <= i32::MAX,
        i32::MIN <= frame.origin_x + range.1 <= i32::MAX,
    ensures
        result == range_rect(*frame, range),
{
    control_selection_rect(frame.origin_x, frame.line, frame.content, range.0, range.1).intersect(
        frame.clip,
    )
}

/// Plans what a field paints.
pub fn gpu_text_input(frame: &FieldFrame, placeholder: bool, ranges: &Vec<(i32, i32)>) -> (result: Vec<
    FieldStep,
>)
    requires
        on_screen(frame.content),
        frame.content.x1 < frame.content.x2 || frame.clip.void(),
        ranges_fit(*frame, ranges@),
    ensures
        result@ == field_steps(*frame, placeholder, ranges@),
{
    let mut steps: Vec<FieldStep> = Vec::new();
    if frame.clip.is_empty() {
        assert(steps@ =~= field_steps(*frame, placeholder, ranges@));
        return steps;
    }
    if !placeholder {
        let mut i: usize = 0;
        assert(ranges@.take(0) =~= Seq::<(i32, i32)>::empty());
        assert(steps@ =~= selection_steps(*frame, ranges@.take(0)));
        while i < ranges.len()
            invariant
                i <= ranges@.len(),
                on_screen(frame.content),
                frame.content.x1 < frame.content.x2,
                ranges_fit(*frame, ranges@),
                steps@ == selection_steps(*frame, ranges@.take(i as int)),
            decreases ranges@.len() - i,
        {
            assert(ranges@.take(i + 1).drop_last() =~= ranges@.take(i as int));
            assert(ranges@.take(i + 1).last() == ranges@[i as int]);
            if let Some(color) = frame.selection {
                let rect = selected_rect(frame, ranges[i]);
                push_solid(&mut steps, rect, color);
            } else {
                assert(steps@ =~= steps@ + Seq::<FieldStep>::empty());
            }
            i = i + 1;
        }
        assert(ranges@.take(ranges@.len() as int) =~= ranges@);
    }
    let ghost behind = steps@;
    steps.push(FieldStep::Text { placeholder, clip: frame.clip });
    let ghost text = seq![FieldStep::Text { placeholder, clip: frame.clip }];
    assert(steps@ =~= behind + text);
    if !placeholder {
        let mut i: usize = 0;
        assert(steps@ =~= behind + text + selected_steps(*frame, ranges@).take(0));
        while i < ranges.len()
            invariant
                i <= ranges@.len(),
                on_screen(frame.content),
                frame.content.x1 < frame.content.x2,
                ranges_fit(*frame, ranges@),
                steps@ == behind + text + selected_steps(*frame, ranges@).take(i as int),
            decreases ranges@.len() - i,
        {
            steps.push(FieldStep::Selected { clip: selected_rect(frame, ranges[i]) });
            assert(steps@ =~= behind + text + selected_steps(*frame, ranges@).take(i + 1));
            i = i + 1;
        }
        assert(selected_steps(*frame, ranges@).take(ranges@.len() as int) =~= selected_steps(
            *frame,
            ranges@,
        ));
    }
    if let Some(offset) = frame.caret {
        let caret = control_caret(frame.content, frame.line, offset).intersect(frame.clip);
        push_solid(&mut steps, caret, frame.color);
    }
    assert(steps@ =~= field_steps(*frame, placeholder, ranges@));
    steps
}

/// Everything that a field paints stays within what can be seen of it.
pub proof fn field_paint_is_clipped(
    frame: FieldFrame,
    placeholder: bool,
    ranges: Seq<(i32, i32)>,
    index: int,
)
    requires
        0 <= index < field_steps(frame, placeholder, ranges).len(),
    ensures
        match field_steps(frame, placeholder, ranges)[index] {
            FieldStep::Solid(paint) => exists|rect: PhysicalRect|
                #[trigger] rect.meet(frame.clip) == rect && paint.rect == rect.placed(),
            FieldStep::Text { clip, .. } => clip == frame.clip,
            FieldStep::Selected { clip } => clip.meet(frame.clip) == clip,
        },
{
    let behind = selection_steps(frame, ranges);
    let selected = selected_steps(frame, ranges);
    let caret = caret_steps(frame);
    if placeholder {
        if index > 0 {
            assert(field_steps(frame, placeholder, ranges)[index] == caret[index - 1]);
            caret_is_clipped(frame);
        }
    } else if index < behind.len() {
        assert(field_steps(frame, placeholder, ranges)[index] == behind[index]);
        selections_are_clipped(frame, ranges, index);
    } else if index == behind.len() {
    } else if index < behind.len() + 1 + selected.len() {
        assert(field_steps(frame, placeholder, ranges)[index] == selected[index - behind.len()
            - 1]);
    } else {
        assert(field_steps(frame, placeholder, ranges)[index] == caret[index - behind.len() - 1
            - selected.len()]);
        caret_is_clipped(frame);
    }
}

proof fn caret_is_clipped(frame: FieldFrame)
    ensures
        forall|i: int|
            0 <= i < caret_steps(frame).len() ==> (match #[trigger] caret_steps(frame)[i] {
                FieldStep::Solid(paint) => exists|rect: PhysicalRect|
                    #[trigger] rect.meet(frame.clip) == rect && paint.rect == rect.placed(),
                _ => false,
            }),
{
    if let Some(offset) = frame.caret {
        let rect = caret_rect(frame.content, frame.line, offset as int).meet(frame.clip);
        assert(rect.meet(frame.clip) == rect);
    }
}

proof fn selections_are_clipped(frame: FieldFrame, ranges: Seq<(i32, i32)>, index: int)
    requires
        0 <= index < selection_steps(frame, ranges).len(),
    ensures
        match selection_steps(frame, ranges)[index] {
            FieldStep::Solid(paint) => exists|rect: PhysicalRect|
                #[trigger] rect.meet(frame.clip) == rect && paint.rect == rect.placed(),
            _ => false,
        },
    decreases ranges.len(),
{
    let before = selection_steps(frame, ranges.drop_last());
    if index < before.len() {
        selections_are_clipped(frame, ranges.drop_last(), index);
    } else {
        let rect = range_rect(frame, ranges.last());
        assert(rect.meet(frame.clip) == rect);
    }
}

} // verus!
