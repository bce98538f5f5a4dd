//! Pagination flattening and the navigation state machine.
//!
//! [`flatten`] turns a [`Document`] into the ordered list of [`PageEntry`]
//! values that a session navigates; [`Slideshow`] owns the current page index
//! and, per page, the current reveal step, and exposes [`Slideshow::next`]
//! and [`Slideshow::prev`].

use vstd::prelude::*;

use crate::model::{Document, Page, Transition};
use crate::model::spec_max_step;

verus! {

/// One navigable page: its content, its highest reveal step, and the reveal
/// step the session currently shows. `current_step` persists when the session
/// leaves the page and returns to it later.
#[derive(Clone, Debug, PartialEq)]
pub struct PageEntry {
    pub page: Page,
    pub max_step: usize,
    pub current_step: usize,
}

/// The navigation-relevant state of a session, as mathematical values.
#[verifier::ext_equal]
pub ghost struct NavState {
    pub pages: Seq<PageEntry>,
    pub idx: int,
}

/// Well-formedness of a navigation state: the page index is in range (`0` for
/// an empty document) and every page's reveal step is within its bounds.
pub open spec fn nav_wf(s: NavState) -> bool {
    &&& 0 <= s.idx
    &&& (s.pages.len() == 0 ==> s.idx == 0)
    &&& (s.pages.len() > 0 ==> s.idx < s.pages.len())
    &&& (forall|j: int|
        0 <= j < s.pages.len() ==> (#[trigger] s.pages[j]).current_step <= s.pages[j].max_step)
}

/// The entry list that flattening a document yields: one entry per page, in
/// order, with `max_step` the maximum transition order and `current_step` `0`.
pub open spec fn spec_flatten(pages: Seq<Page>) -> Seq<PageEntry> {
    pages.map_values(
        |p: Page|
            PageEntry {
                page: p,
                max_step: spec_max_step(p.transitions@) as usize,
                current_step: 0,
            },
    )
}

/// One `next` action. If the current page still has reveal steps pending (and
/// more than one step in total), reveal the next step; otherwise move to the
/// following page, if any; at the last page with nothing pending, do nothing.
///
/// The `max_step > 1` guard is deliberate: a page whose only reveal step is
/// step `1` never shows that step via `next` and is skipped straight to the
/// following page.
pub open spec fn spec_next(s: NavState) -> NavState {
    if s.pages.len() == 0 {
        s
    } else {
        let e = s.pages[s.idx];
        if e.max_step > 1 && e.current_step < e.max_step {
            NavState {
                pages: s.pages.update(
                    s.idx,
                    PageEntry {
                        page: e.page,
                        max_step: e.max_step,
                        current_step: (e.current_step + 1) as usize,
                    },
                ),
                idx: s.idx,
            }
        } else if s.idx < s.pages.len() - 1 {
            NavState { pages: s.pages, idx: s.idx + 1 }
        } else {
            s
        }
    }
}

/// One `prev` action. If the current page shows a reveal step beyond the
/// base step, hide it; otherwise move to the previous page, if any; at page
/// `0`, step `0`, do nothing.
pub open spec fn spec_prev(s: NavState) -> NavState {
    if s.pages.len() == 0 {
        s
    } else {
        let e = s.pages[s.idx];
        if e.current_step > 0 {
            NavState {
                pages: s.pages.update(
                    s.idx,
                    PageEntry {
                        page: e.page,
                        max_step: e.max_step,
                        current_step: (e.current_step - 1) as usize,
                    },
                ),
                idx: s.idx,
            }
        } else if s.idx > 0 {
            NavState { pages: s.pages, idx: s.idx - 1 }
        } else {
            s
        }
    }
}

/// Flatten a document into its navigable page entries: one entry per page, in
/// document order, `max_step` computed from the page's transitions and
/// `current_step` initialized to `0`. Total; an empty document yields an
/// empty list.
pub fn flatten(doc: Document) -> (r: Vec<PageEntry>)
    ensures
        r@ == spec_flatten(doc.pages@),
{
    let ghost all = doc.pages@;
    let mut pages = doc.pages;
    let mut rev: Vec<PageEntry> = Vec::new();
    while pages.len() > 0
        invariant
            pages@ == all.take(pages@.len() as int),
            rev@.len() + pages@.len() == all.len(),
            forall|j: int|
                0 <= j < rev@.len() ==> #[trigger] rev@[j] == spec_flatten(all)[all.len() - 1 - j],
        decreases pages@.len(),
    {
        let ghost n = pages@.len() as int;
        let p = pages.pop().unwrap();
        proof {
            assert(pages@ =~= all.take(n - 1));
            assert(p == all[n - 1]);
        }
        let max = page_max_step(&p);
        rev.push(PageEntry { page: p, max_step: max, current_step: 0 });
    }
    let mut r: Vec<PageEntry> = Vec::new();
    while rev.len() > 0
        invariant
            rev@.len() + r@.len() == all.len(),
            forall|j: int|
                0 <= j < rev@.len() ==> #[trigger] rev@[j] == spec_flatten(all)[all.len() - 1 - j],
            forall|j: int| 0 <= j < r@.len() ==> #[trigger] r@[j] == spec_flatten(all)[j],
        decreases rev@.len(),
    {
        let e = rev.pop().unwrap();
        r.push(e);
    }
    proof {
        assert(r@ =~= spec_flatten(all));
    }
    r
}

/// The highest reveal step of a page: the maximum transition order, `0` for a
/// page with no transitions.
pub fn page_max_step(p: &Page) -> (m: usize)
    ensures
        m == spec_max_step(p.transitions@),
{
    let mut m: usize = 0;
    let mut i: usize = 0;
    while i < p.transitions.len()
        invariant
            i <= p.transitions@.len(),
            m == spec_max_step(p.transitions@.take(i as int)),
        decreases p.transitions@.len() - i,
    {
        let ghost pre = p.transitions@.take(i as int);
        let o = p.transitions[i].order;
        if o > m {
            m = o;
        }
        proof {
            assert(p.transitions@.take(i + 1).drop_last() =~= pre);
            assert(p.transitions@.take(i + 1).last() == p.transitions@[i as int]);
        }
        i = i + 1;
    }
    proof {
        assert(p.transitions@.take(p.transitions@.len() as int) =~= p.transitions@);
    }
    m
}

/// An interactive session over a flattened document: the list of page entries
/// and the index of the page currently shown.
pub struct Slideshow {
    pub pages: Vec<PageEntry>,
    pub current_page_idx: usize,
}

impl View for Slideshow {
    type V = NavState;

    open spec fn view(&self) -> NavState {
        NavState { pages: self.pages@, idx: self.current_page_idx as int }
    }
}

impl Slideshow {
    /// The session's well-formedness: see [`nav_wf`].
    pub open spec fn wf(self) -> bool {
        nav_wf(self@)
    }

    /// Start a session on a document: its flattened entries, at page `0`.
    pub fn new(doc: Document) -> (s: Slideshow)
        ensures
            s.wf(),
            s@.pages == spec_flatten(doc.pages@),
            s@.idx == 0,
    {
        let pages = flatten(doc);
        Slideshow { pages, current_page_idx: 0 }
    }

    /// Advance: reveal the current page's next step, or move to the next
    /// page. See [`spec_next`] for the exact rule.
    pub fn next(&mut self)
        requires
            old(self).wf(),
        ensures
            final(self).wf(),
            final(self)@ == spec_next(old(self)@),
    {
        if self.pages.len() == 0 {
            return;
        }
        let i = self.current_page_idx;
        let max = self.pages[i].max_step;
        let step = self.pages[i].current_step;
        if max > 1 && step < max {
            let mut e = self.pages.remove(i);
            e.current_step = step + 1;
            self.pages.insert(i, e);
            proof {
                assert(self.pages@ =~= spec_next(old(self)@).pages);
            }
            return;
        }
        if self.current_page_idx < self.pages.len() - 1 {
            self.current_page_idx = self.current_page_idx + 1;
        }
    }

    /// Retreat: hide the current page's latest revealed step, or move to the
    /// previous page. See [`spec_prev`] for the exact rule.
    pub fn prev(&mut self)
        requires
            old(self).wf(),
        ensures
            final(self).wf(),
            final(self)@ == spec_prev(old(self)@),
    {
        if self.pages.len() == 0 {
            return;
        }
        let i = self.current_page_idx;
        let step = self.pages[i].current_step;
        if step > 0 {
            let mut e = self.pages.remove(i);
            e.current_step = step - 1;
            self.pages.insert(i, e);
            proof {
                assert(self.pages@ =~= spec_prev(old(self)@).pages);
            }
            return;
        }
        if self.current_page_idx > 0 {
            self.current_page_idx = self.current_page_idx - 1;
        }
    }
}

/// Law: flattening is deterministic, so flattening the same document twice
/// yields structurally identical page-entry lists — equal content, equal
/// `max_step`, equal initial step.
pub proof fn lemma_flatten_deterministic(a: Seq<Page>, b: Seq<Page>)
    requires
        a == b,
    ensures
        spec_flatten(a) == spec_flatten(b),
{
}

/// Law: a page with no transitions has `max_step == 0`; a page with exactly
/// one transition has `max_step` equal to that transition's order.
pub proof fn lemma_few_transitions_max_step(trs: Seq<Transition>)
    requires
        trs.len() <= 1,
    ensures
        trs.len() == 0 ==> spec_max_step(trs) == 0,
        trs.len() == 1 ==> spec_max_step(trs) == trs[0].order,
{
    if trs.len() == 1 {
        assert(trs.drop_last().len() == 0);
        assert(spec_max_step(trs.drop_last()) == 0);
        assert(trs.last() == trs[0]);
    }
}

/// Law: on a page whose `max_step` is at most `1`, `next` never reveals a
/// step; it leaves every page's reveal step unchanged and advances to the
/// following page where one exists (no-op on the last page).
pub proof fn lemma_next_skips_shallow_page(s: NavState)
    requires
        nav_wf(s),
        s.pages.len() > 0,
        s.pages[s.idx].max_step <= 1,
    ensures
        spec_next(s).pages == s.pages,
        s.idx < s.pages.len() - 1 ==> spec_next(s).idx == s.idx + 1,
        s.idx == s.pages.len() - 1 ==> spec_next(s) == s,
{
}

/// Law: `next` and `prev` keep the navigation state within its bounds: the
/// page index stays in range and every page's reveal step stays within
/// `[0, max_step]`.
pub proof fn lemma_nav_stays_in_bounds(s: NavState)
    requires
        nav_wf(s),
    ensures
        nav_wf(spec_next(s)),
        nav_wf(spec_prev(s)),
{
}

/// `next` applied `n` times.
pub open spec fn iterate_next(s: NavState, n: nat) -> NavState
    decreases n,
{
    if n == 0 {
        s
    } else {
        spec_next(iterate_next(s, (n - 1) as nat))
    }
}

/// `prev` applied `n` times.
pub open spec fn iterate_prev(s: NavState, n: nat) -> NavState
    decreases n,
{
    if n == 0 {
        s
    } else {
        iterate_prev(spec_prev(s), (n - 1) as nat)
    }
}

/// The reveal step at which a forward run leaves a page behind: its
/// `max_step` when that exceeds `1`, else `0`.
pub open spec fn entry_full(e: PageEntry) -> int {
    if e.max_step > 1 {
        e.max_step as int
    } else {
        0
    }
}

/// A state reachable from the initial state by `next` alone: pages already
/// left are fully revealed, pages not yet reached are at step `0`, and a
/// current page that `next` cannot reveal is at step `0`.
pub open spec fn forward_state(s: NavState) -> bool {
    &&& nav_wf(s)
    &&& (forall|j: int|
        0 <= j < s.idx ==> (#[trigger] s.pages[j]).current_step == entry_full(s.pages[j]))
    &&& (forall|j: int|
        s.idx < j < s.pages.len() ==> (#[trigger] s.pages[j]).current_step == 0)
    &&& (s.pages.len() > 0 && s.pages[s.idx].max_step <= 1 ==> s.pages[s.idx].current_step == 0)
}

/// The initial state of a session: page `0`, every reveal step `0`.
pub open spec fn initial_state(s: NavState) -> bool {
    &&& nav_wf(s)
    &&& s.idx == 0
    &&& (forall|j: int| 0 <= j < s.pages.len() ==> (#[trigger] s.pages[j]).current_step == 0)
}

proof fn lemma_next_preserves_forward(s: NavState)
    requires
        forward_state(s),
    ensures
        forward_state(spec_next(s)),
{
}

proof fn lemma_prev_undoes_next(s: NavState)
    requires
        forward_state(s),
        spec_next(s) != s,
    ensures
        spec_prev(spec_next(s)) == s,
{
    let sn = spec_next(s);
    let e = s.pages[s.idx];
    if s.pages.len() > 0 && e.max_step > 1 && e.current_step < e.max_step {
        assert(spec_prev(sn).pages =~= s.pages);
        assert(spec_prev(sn) =~= s);
    }
}

proof fn lemma_iterate_next_forward(s: NavState, n: nat)
    requires
        initial_state(s),
    ensures
        forward_state(iterate_next(s, n)),
    decreases n,
{
    if n == 0 {
    } else {
        lemma_iterate_next_forward(s, (n - 1) as nat);
        lemma_next_preserves_forward(iterate_next(s, (n - 1) as nat));
    }
}

proof fn lemma_iterate_prev_last(s: NavState, n: nat)
    requires
        n >= 1,
    ensures
        iterate_prev(s, n) == spec_prev(iterate_prev(s, (n - 1) as nat)),
    decreases n,
{
    if n == 1 {
        assert(iterate_prev(s, 1) == iterate_prev(spec_prev(s), 0));
        assert(iterate_prev(s, 0) == s);
    } else {
        lemma_iterate_prev_last(spec_prev(s), (n - 1) as nat);
        assert(iterate_prev(s, n) == iterate_prev(spec_prev(s), (n - 1) as nat));
        assert(iterate_prev(s, (n - 1) as nat) == iterate_prev(spec_prev(s), (n - 2) as nat));
    }
}

/// Law: from the initial state (page `0`, every reveal step `0`), calling
/// `prev` as many times as a prior run of `next` restores the initial state
/// exactly — page index and every page's reveal step.
pub proof fn lemma_prev_run_undoes_next_run(s0: NavState, n: nat)
    requires
        initial_state(s0),
    ensures
        iterate_prev(iterate_next(s0, n), n) == s0,
    decreases n,
{
    if n > 0 {
        let sp = iterate_next(s0, (n - 1) as nat);
        lemma_iterate_next_forward(s0, (n - 1) as nat);
        let sn = spec_next(sp);
        lemma_prev_run_undoes_next_run(s0, (n - 1) as nat);
        if sn == sp {
            lemma_iterate_prev_last(sp, n);
            assert(spec_prev(s0) == s0);
        } else {
            lemma_prev_undoes_next(sp);
            assert(iterate_prev(sn, n) == iterate_prev(sp, (n - 1) as nat));
        }
    }
}

} // verus!
