//! Damage rectangles.

use vstd::prelude::*;
use crate::rect::{PhysicalRect, Rect};
use crate::scene::Overlay;

verus! {

/// `cover` is the smallest rectangle around all wanted ones: it encloses each,
/// and each of its sides is the side of one. There is none where nothing is
/// wanted.
pub open spec fn covers_all(
    wanted: spec_fn(PhysicalRect) -> bool,
    cover: Option<PhysicalRect>,
) -> bool {
    match cover {
        None => forall|r: PhysicalRect| !#[trigger] wanted(r),
        Some(c) => {
            &&& forall|r: PhysicalRect|
                #[trigger] wanted(r) ==> c.x1 <= r.x1 && c.y1 <= r.y1 && r.x2 <= c.x2 && r.y2
                    <= c.y2
            &&& exists|r: PhysicalRect| #[trigger] wanted(r) && r.x1 == c.x1
            &&& exists|r: PhysicalRect| #[trigger] wanted(r) && r.y1 == c.y1
            &&& exists|r: PhysicalRect| #[trigger] wanted(r) && r.x2 == c.x2
            &&& exists|r: PhysicalRect| #[trigger] wanted(r) && r.y2 == c.y2
        },
    }
}

/// There is only one smallest rectangle around the same ones.
pub proof fn cover_is_unique(
    wanted: spec_fn(PhysicalRect) -> bool,
    a: Option<PhysicalRect>,
    b: Option<PhysicalRect>,
)
    requires
        covers_all(wanted, a),
        covers_all(wanted, b),
    ensures
        a == b,
{
    match (a, b) {
        (Some(x), Some(y)) => {
            assert(x.x1 == y.x1 && x.y1 == y.y1 && x.x2 == y.x2 && x.y2 == y.y2);
        },
        _ => {},
    }
}

/// The same rectangles have the same cover, however they are described.
pub proof fn same_rects_same_cover(
    a: spec_fn(PhysicalRect) -> bool,
    b: spec_fn(PhysicalRect) -> bool,
    cover: Option<PhysicalRect>,
)
    requires
        covers_all(a, cover),
        forall|r: PhysicalRect| #[trigger] a(r) <==> b(r),
    ensures
        covers_all(b, cover),
{
    match cover {
        None => {
            assert forall|r: PhysicalRect| !#[trigger] b(r) by {
                assert(!a(r));
            }
        },
        Some(c) => {
            assert forall|r: PhysicalRect| #[trigger] b(r) implies c.x1 <= r.x1 && c.y1 <= r.y1
                && r.x2 <= c.x2 && r.y2 <= c.y2 by {
                assert(a(r));
            }
            let left = choose|r: PhysicalRect| #[trigger] a(r) && r.x1 == c.x1;
            assert(b(left));
            let top = choose|r: PhysicalRect| #[trigger] a(r) && r.y1 == c.y1;
            assert(b(top));
            let right = choose|r: PhysicalRect| #[trigger] a(r) && r.x2 == c.x2;
            assert(b(right));
            let bottom = choose|r: PhysicalRect| #[trigger] a(r) && r.y2 == c.y2;
            assert(b(bottom));
        },
    }
}

/// Membership in a list.
pub open spec fn listed(rects: Seq<PhysicalRect>) -> spec_fn(PhysicalRect) -> bool {
    |r: PhysicalRect| rects.contains(r)
}

/// The smallest rectangle around a list.
pub fn bounding(rects: &Vec<PhysicalRect>) -> (result: Option<PhysicalRect>)
    ensures
        covers_all(listed(rects@), result),
{
    if rects.len() == 0 {
        assert(forall|r: PhysicalRect| !rects@.contains(r));
        return None;
    }
    let mut cover = rects[0];
    assert(rects@.contains(rects@[0]));
    let mut i: usize = 1;
    while i < rects.len()
        invariant
            1 <= i <= rects@.len(),
            forall|k: int|
                0 <= k < i ==> {
                    let r = #[trigger] rects@[k];
                    cover.x1 <= r.x1 && cover.y1 <= r.y1 && r.x2 <= cover.x2 && r.y2 <= cover.y2
                },
            exists|k: int| 0 <= k < i && (#[trigger] rects@[k]).x1 == cover.x1,
            exists|k: int| 0 <= k < i && (#[trigger] rects@[k]).y1 == cover.y1,
            exists|k: int| 0 <= k < i && (#[trigger] rects@[k]).x2 == cover.x2,
            exists|k: int| 0 <= k < i && (#[trigger] rects@[k]).y2 == cover.y2,
        decreases rects@.len() - i,
    {
        let ghost before = cover;
        let next = rects[i];
        cover = cover.union(next);
        proof {
            assert(rects@[i as int] == next);
            if cover.x1 == before.x1 {
                let k = choose|k: int| 0 <= k < i && (#[trigger] rects@[k]).x1 == before.x1;
                assert(rects@[k].x1 == cover.x1);
            }
            if cover.y1 == before.y1 {
                let k = choose|k: int| 0 <= k < i && (#[trigger] rects@[k]).y1 == before.y1;
                assert(rects@[k].y1 == cover.y1);
            }
            if cover.x2 == before.x2 {
                let k = choose|k: int| 0 <= k < i && (#[trigger] rects@[k]).x2 == before.x2;
                assert(rects@[k].x2 == cover.x2);
            }
            if cover.y2 == before.y2 {
                let k = choose|k: int| 0 <= k < i && (#[trigger] rects@[k]).y2 == before.y2;
                assert(rects@[k].y2 == cover.y2);
            }
        }
        i = i + 1;
    }
    proof {
        let wanted = listed(rects@);
        let left = choose|k: int| 0 <= k < i && (#[trigger] rects@[k]).x1 == cover.x1;
        assert(wanted(rects@[left]));
        let top = choose|k: int| 0 <= k < i && (#[trigger] rects@[k]).y1 == cover.y1;
        assert(wanted(rects@[top]));
        let right = choose|k: int| 0 <= k < i && (#[trigger] rects@[k]).x2 == cover.x2;
        assert(wanted(rects@[right]));
        let bottom = choose|k: int| 0 <= k < i && (#[trigger] rects@[k]).y2 == cover.y2;
        assert(wanted(rects@[bottom]));
    }
    Some(cover)
}

/// Keeps a list of at most `limit` rectangles, and puts their cover in place of
/// a longer one.
pub fn cap_damage(rects: &mut Vec<PhysicalRect>, limit: usize)
    ensures
        old(rects)@.len() <= limit ==> final(rects)@ == old(rects)@,
        old(rects)@.len() > limit ==> final(rects)@.len() == 1 && covers_all(
            listed(old(rects)@),
            Some(final(rects)@[0]),
        ),
{
    if rects.len() > limit {
        if let Some(cover) = bounding(rects) {
            rects.clear();
            rects.push(cover);
        } else {
            assert(listed(rects@)(rects@[0]));
        }
    }
}

/// A point is damaged by a list of rectangles.
pub open spec fn damaged(rects: Seq<PhysicalRect>, x: int, y: int) -> bool {
    exists|k: int| 0 <= k < rects.len() && (#[trigger] rects[k]).holds(x, y)
}

/// Capping loses no damage.
pub proof fn capped_damage_loses_nothing(
    before: Seq<PhysicalRect>,
    after: Seq<PhysicalRect>,
    x: int,
    y: int,
)
    requires
        after == before || (after.len() == 1 && covers_all(listed(before), Some(after[0]))),
        damaged(before, x, y),
    ensures
        damaged(after, x, y),
{
    if after != before {
        let k = choose|k: int| 0 <= k < before.len() && (#[trigger] before[k]).holds(x, y);
        assert(listed(before)(before[k]));
        assert(after[0].holds(x, y));
    }
}

/// How the document is repainted.
#[derive(Clone, Copy, Debug, PartialEq, Eq, Structural)]
pub enum DocumentPaint {
    /// The retained pixels stay.
    Reuse,
    /// Everything is painted.
    Full,
}

/// The rectangles of a list of overlays.
pub open spec fn overlay_rects(overlays: Seq<Overlay>) -> Seq<Rect> {
    Seq::new(overlays.len(), |i: int| overlays[i].rect)
}

/// The damage of a frame: everything where the document is repainted, else
/// where fixed chrome was and where it is.
pub fn paint_damage(
    paint: DocumentPaint,
    previous: &Vec<Rect>,
    current: &Vec<Overlay>,
    full: Rect,
) -> (result: Vec<Rect>)
    ensures
        result@ == (match paint {
            DocumentPaint::Full => seq![full],
            DocumentPaint::Reuse => previous@ + overlay_rects(current@),
        }),
{
    let mut damage: Vec<Rect> = Vec::new();
    if paint == DocumentPaint::Full {
        damage.push(full);
        assert(damage@ =~= seq![full]);
        return damage;
    }
    damage.extend_from_slice(previous.as_slice());
    assert(damage@ =~= previous@ + overlay_rects(current@).take(0));
    let mut i: usize = 0;
    while i < current.len()
        invariant
            i <= current@.len(),
            damage@ == previous@ + overlay_rects(current@).take(i as int),
        decreases current@.len() - i,
    {
        damage.push(current[i].rect);
        assert(damage@ =~= previous@ + overlay_rects(current@).take(i + 1));
        i = i + 1;
    }
    assert(overlay_rects(current@).take(i as int) =~= overlay_rects(current@));
    damage
}

} // verus!
