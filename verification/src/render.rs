//! The interactive renderer's per-frame plan. For the current page entry it
//! walks transitions and marks in declaration order and yields one slot per
//! mark: the mark's primitive operations, whether it ends the layout row,
//! and whether its paint is suppressed at the page's current reveal step.
//! A suppressed slot still occupies its layout space, so sibling geometry
//! stays stable as reveal steps advance.

use vstd::prelude::*;

use crate::builder::spec_mark_line_break;
use crate::dispatch::{dispatch, spec_dispatch, DrawOp};
use crate::model::{spec_visible, Transition};
use crate::nav::PageEntry;

verus! {

/// One rendered mark: paint it only if `visible`; always allocate its
/// space; end the layout row after it iff `line_break`.
#[derive(Debug, Clone, PartialEq)]
pub struct RenderSlot {
    pub visible: bool,
    pub ops: Vec<DrawOp>,
    pub line_break: bool,
}

/// The mathematical value of a rendered slot.
#[verifier::ext_equal]
pub ghost struct SlotView {
    pub visible: bool,
    pub ops: Seq<DrawOp>,
    pub line_break: bool,
}

impl View for RenderSlot {
    type V = SlotView;

    open spec fn view(&self) -> SlotView {
        SlotView { visible: self.visible, ops: self.ops@, line_break: self.line_break }
    }
}

/// The views of a slot list.
pub open spec fn slot_views(v: Seq<RenderSlot>) -> Seq<SlotView> {
    v.map_values(|s: RenderSlot| s@)
}

/// The slots of one transition's marks at reveal step `step`: one slot per
/// mark, in declaration order, visible iff the transition's order does not
/// exceed `step`.
pub open spec fn spec_render_marks(marks: Seq<crate::model::Mark>, vis: bool) -> Seq<SlotView> {
    marks.map_values(
        |m: crate::model::Mark|
            SlotView {
                visible: vis,
                ops: spec_dispatch(m),
                line_break: spec_mark_line_break(m),
            },
    )
}

/// The slots of one transition at reveal step `step`.
pub open spec fn spec_render_transition(t: Transition, step: int) -> Seq<SlotView> {
    spec_render_marks(t.marks@, spec_visible(t.order as int, step))
}

/// The whole page's slots at reveal step `step`: transitions in declaration
/// order, never reordered by `order`.
pub open spec fn spec_render_page(trs: Seq<Transition>, step: int) -> Seq<SlotView>
    decreases trs.len(),
{
    if trs.len() == 0 {
        Seq::<SlotView>::empty()
    } else {
        spec_render_page(trs.drop_last(), step) + spec_render_transition(trs.last(), step)
    }
}

/// Law: visibility by reveal step. Every mark of a transition with order
/// `o` gets a slot whether or not it is visible (its space is always
/// reserved), and that slot paints iff `o <= step`: suppressed for every
/// step below `o`, shown for `o` and every step above it.
pub proof fn lemma_visibility_rule(t: Transition, step: int, k: int)
    requires
        0 <= k < t.marks@.len(),
    ensures
        spec_render_transition(t, step).len() == t.marks@.len(),
        spec_render_transition(t, step)[k].visible == (t.order <= step),
{
}

/// Compute the render plan of a page entry at its current reveal step.
pub fn render_page(e: &PageEntry) -> (r: Vec<RenderSlot>)
    ensures
        slot_views(r@) == spec_render_page(e.page.transitions@, e.current_step as int),
{
    let mut r: Vec<RenderSlot> = Vec::new();
    let ghost step = e.current_step as int;
    let ghost trs = e.page.transitions@;
    proof {
        assert(trs.take(0).len() == 0);
        assert(slot_views(r@) =~= spec_render_page(trs.take(0), step));
    }
    let mut j: usize = 0;
    while j < e.page.transitions.len()
        invariant
            j <= trs.len(),
            trs == e.page.transitions@,
            step == e.current_step as int,
            slot_views(r@) == spec_render_page(trs.take(j as int), step),
        decreases trs.len() - j,
    {
        let t = &e.page.transitions[j];
        let vis = t.order <= e.current_step;
        let ghost page_pre = spec_render_page(trs.take(j as int), step);
        let mut k: usize = 0;
        while k < t.marks.len()
            invariant
                k <= t.marks@.len(),
                t == &trs[j as int],
                0 <= j < trs.len(),
                vis == spec_visible(trs[j as int].order as int, step),
                slot_views(r@) == page_pre + spec_render_marks(t.marks@.take(k as int), vis),
            decreases t.marks@.len() - k,
        {
            let (ops, brk) = dispatch(&t.marks[k]);
            let ghost r_pre = r@;
            r.push(RenderSlot { visible: vis, ops, line_break: brk });
            proof {
                let mk = t.marks@[k as int];
                let sv = SlotView {
                    visible: vis,
                    ops: spec_dispatch(mk),
                    line_break: spec_mark_line_break(mk),
                };
                assert(slot_views(r@) =~= slot_views(r_pre).push(sv));
                assert(t.marks@.take(k + 1) =~= t.marks@.take(k as int).push(mk));
                assert(spec_render_marks(t.marks@.take(k + 1), vis) =~= spec_render_marks(
                    t.marks@.take(k as int),
                    vis,
                ).push(sv));
                assert(slot_views(r@) =~= page_pre + spec_render_marks(
                    t.marks@.take(k + 1),
                    vis,
                ));
            }
            k = k + 1;
        }
        proof {
            assert(t.marks@.take(t.marks@.len() as int) =~= t.marks@);
            assert(trs.take(j + 1).drop_last() =~= trs.take(j as int));
            assert(trs.take(j + 1).last() == trs[j as int]);
            assert(slot_views(r@) =~= spec_render_page(trs.take(j + 1), step));
        }
        j = j + 1;
    }
    proof {
        assert(trs.take(trs.len() as int) =~= trs);
    }
    r
}

} // verus!
