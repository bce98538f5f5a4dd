//! The standalone compiler: flattens the two-level page/reveal-step
//! addressing into one linear scene index, emits per-page guarded drawing
//! blocks and resource set-up code, and assembles the full program source
//! from the fixed template fragments. The filesystem and build steps that
//! consume a [`WorkspacePlan`] live outside this crate.

use vstd::prelude::*;
use vstd::seq_lib::lemma_concat_associative;

use crate::emit::{
    code_block, image, label, line_break, new_line, ordered_listing, quote, replace_str,
    separator, transition, unordered_listing,
};
use crate::emit::{
    spec_code_block, spec_image, spec_indent, spec_label, spec_label_break, spec_line_break,
    spec_marker, spec_new_line, spec_ordered_listing, spec_quote, spec_separator,
    spec_transition, spec_unordered_listing,
};
use crate::emit::{CLOSE_BRACE, ORDERED_DOT, SPACING_BIG, SPACING_NORMAL};
use crate::model::{Document, Listing, Mark, Page, Transition, spec_max_step};
use crate::nav::{flatten, spec_flatten, PageEntry};
use crate::strutil::{spec_dec, spec_replace, u64_to_dec};
use crate::templates::{
    CARGO_TOML_CONTENT, SRC_APP_1_CONTENT, SRC_APP_2_CONTENT, SRC_APP_3_CONTENT,
    SRC_IMPORT_CONTENT, SRC_MAIN_CONTENT,
};

verus! {

/// The drawing text one mark contributes, as the shared dispatch mapping
/// gives it: the same statements the interactive renderer performs live.
pub open spec fn spec_mark_code(m: Mark) -> Seq<char> {
    match m {
        Mark::CodeBlock(c, _l) => spec_code_block(c@),
        Mark::Image(k, t, st) => spec_image(k@, t@, st),
        Mark::NewLine => spec_new_line(),
        Mark::Separator(d) => spec_separator(d),
        Mark::Text(t, st) => match st.listing {
            Listing::Ordered(n, _level) => spec_ordered_listing(n as int, t@, st),
            Listing::Unordered(level) => spec_unordered_listing(t@, st, level),
            Listing::Plain => if !st.quote {
                spec_label(t@, st)
            } else {
                spec_quote(t@, st)
            },
        },
    }
}

/// Whether a mark forces a layout line break: everything does, except a
/// bare text run that is neither a heading, a quote nor a listing item, and
/// except a hyperlink.
pub open spec fn spec_mark_line_break(m: Mark) -> bool {
    match m {
        Mark::Text(_t, st) => match st.listing {
            Listing::Plain => st.quote || spec_label_break(st),
            _ => true,
        },
        _ => true,
    }
}

/// Emit the drawing text for one mark, dispatching on its variant exactly as
/// the interactive renderer does.
pub fn mark_code(m: &Mark, code: &mut String) -> (b: bool)
    ensures
        final(code)@ == old(code)@ + spec_mark_code(*m),
        b == spec_mark_line_break(*m),
{
    match m {
        Mark::CodeBlock(c, l) => code_block(c, l, code),
        Mark::Image(k, t, st) => image(k, t, st, code),
        Mark::NewLine => new_line(code),
        Mark::Separator(d) => separator(d, code),
        Mark::Text(t, st) => match &st.listing {
            Listing::Ordered(n, level) => {
                let b = ordered_listing(*n, t.as_str(), st, level, code);
                proof {
                    assert(final(code)@ == old(code)@ + spec_mark_code(*m));
                }
                b
            },
            Listing::Unordered(level) => unordered_listing(t.as_str(), st, level, code),
            Listing::Plain => {
                if !st.quote {
                    label(t.as_str(), st, code)
                } else {
                    quote(t.as_str(), st, code)
                }
            },
        },
    }
}

/// The total scene count of a page list: each page occupies
/// `max_step + 1` consecutive scene indices.
pub open spec fn spec_scene_count(pages: Seq<PageEntry>) -> int
    decreases pages.len(),
{
    if pages.len() == 0 {
        0
    } else {
        spec_scene_count(pages.drop_last()) + pages.last().max_step + 1
    }
}

/// The scene count is nonnegative.
pub proof fn lemma_scene_count_nonneg(pages: Seq<PageEntry>)
    ensures
        spec_scene_count(pages) >= 0,
    decreases pages.len(),
{
    if pages.len() > 0 {
        lemma_scene_count_nonneg(pages.drop_last());
    }
}

/// Taking one more page adds exactly that page's scene-interval length.
pub proof fn lemma_scene_count_take_step(pages: Seq<PageEntry>, i: int)
    requires
        0 <= i < pages.len(),
    ensures
        spec_scene_count(pages.take(i + 1)) == spec_scene_count(pages.take(i)) + pages[i].max_step
            + 1,
{
    assert(pages.take(i + 1).drop_last() =~= pages.take(i));
    assert(pages.take(i + 1).last() == pages[i]);
}

/// Every prefix's scene count is bounded by the whole list's.
pub proof fn lemma_scene_count_prefix_bound(pages: Seq<PageEntry>, i: int)
    requires
        0 <= i <= pages.len(),
    ensures
        spec_scene_count(pages.take(i)) <= spec_scene_count(pages),
    decreases pages.len() - i,
{
    if i == pages.len() {
        assert(pages.take(i) =~= pages);
    } else {
        lemma_scene_count_take_step(pages, i);
        lemma_scene_count_prefix_bound(pages, i + 1);
    }
}

/// Law: scene-index flattening is a partition of `[0, total)`: the first
/// page's interval starts at `0`, page `i` owns the half-open interval
/// `[start_i, start_i + max_step_i + 1)`, each page starts exactly where the
/// previous one ends, and the last page ends at the grand total.
pub proof fn lemma_scene_partition(pages: Seq<PageEntry>, i: int)
    requires
        0 <= i < pages.len(),
    ensures
        spec_scene_count(pages.take(0)) == 0,
        spec_scene_count(pages.take(i + 1)) == spec_scene_count(pages.take(i)) + pages[i].max_step
            + 1,
        spec_scene_count(pages.take(pages.len() as int)) == spec_scene_count(pages),
{
    assert(pages.take(0).len() == 0);
    lemma_scene_count_take_step(pages, i);
    assert(pages.take(pages.len() as int) =~= pages);
}

/// The maximum reveal step of a transition list is a machine integer: it is
/// either `0` or one of the transitions' orders.
pub proof fn lemma_max_step_in_range(trs: Seq<Transition>)
    ensures
        0 <= spec_max_step(trs) <= usize::MAX,
    decreases trs.len(),
{
    if trs.len() > 0 {
        lemma_max_step_in_range(trs.drop_last());
    }
}

/// Every transition's order is bounded by the page's maximum.
pub proof fn lemma_order_le_max(trs: Seq<Transition>, j: int)
    requires
        0 <= j < trs.len(),
    ensures
        trs[j].order <= spec_max_step(trs),
    decreases trs.len(),
{
    if j == trs.len() - 1 {
    } else {
        lemma_order_le_max(trs.drop_last(), j);
        assert(trs.drop_last()[j] == trs[j]);
    }
}

pub const HORIZ_OPEN: &'static str = "outer_ui.horizontal(|ui| {";

pub const BLOCK_CLOSE: &'static str = "});";

/// The generated block for one mark: a row closure, the reveal guard for the
/// mark's global threshold, the mark's drawing text, and a row break where
/// the dispatch mapping reports one.
pub open spec fn spec_mark_block(m: Mark, border: int) -> Seq<char> {
    HORIZ_OPEN@ + spec_transition(border) + spec_mark_code(m) + BLOCK_CLOSE@ + (
    if spec_mark_line_break(m) {
        spec_line_break()
    } else {
        Seq::<char>::empty()
    })
}

/// Emit the guarded block for one mark whose global reveal threshold is
/// `border`.
pub fn mark_block(m: &Mark, border: usize, code: &mut String)
    ensures
        final(code)@ == old(code)@ + spec_mark_block(*m, border as int),
{
    code.append(HORIZ_OPEN);
    transition(border, code);
    let brk = mark_code(m, code);
    code.append(BLOCK_CLOSE);
    if brk {
        line_break(code);
    }
    proof {
        assert(code@ =~= old(code)@ + spec_mark_block(*m, border as int));
    }
}

/// Law: the two backends apply one visibility rule. For a page whose scene
/// interval starts at `start`, the generated guard hides a mark of reveal
/// threshold `start + order` at scene index `scene` exactly when the
/// interactive renderer suppresses it at reveal step `scene - start`.
pub proof fn lemma_backends_agree_on_visibility(start: int, order: int, scene: int)
    requires
        start <= scene,
    ensures
        (scene < start + order) <==> !crate::model::spec_visible(order, scene - start),
{
}

/// The generated blocks of a mark list, in declaration order, all sharing
/// one reveal threshold.
pub open spec fn spec_marks_update(marks: Seq<Mark>, border: int) -> Seq<char>
    decreases marks.len(),
{
    if marks.len() == 0 {
        Seq::<char>::empty()
    } else {
        spec_marks_update(marks.drop_last(), border) + spec_mark_block(marks.last(), border)
    }
}

fn marks_update(marks: &Vec<Mark>, border: usize, code: &mut String)
    ensures
        final(code)@ == old(code)@ + spec_marks_update(marks@, border as int),
{
    let ghost code0 = code@;
    let mut k: usize = 0;
    proof {
        assert(marks@.take(0).len() == 0);
        assert(code@ =~= code0 + spec_marks_update(marks@.take(0), border as int));
    }
    while k < marks.len()
        invariant
            k <= marks@.len(),
            code@ == code0 + spec_marks_update(marks@.take(k as int), border as int),
        decreases marks@.len() - k,
    {
        let ghost pre = spec_marks_update(marks@.take(k as int), border as int);
        mark_block(&marks[k], border, code);
        proof {
            assert(marks@.take(k + 1).drop_last() =~= marks@.take(k as int));
            assert(marks@.take(k + 1).last() == marks@[k as int]);
            lemma_concat_associative(
                code0,
                pre,
                spec_mark_block(marks@[k as int], border as int),
            );
        }
        k = k + 1;
    }
    proof {
        assert(marks@.take(marks@.len() as int) =~= marks@);
    }
}

/// The generated blocks of a transition list: each transition's marks with
/// the threshold `start + order`.
pub open spec fn spec_transitions_update(trs: Seq<Transition>, start: int) -> Seq<char>
    decreases trs.len(),
{
    if trs.len() == 0 {
        Seq::<char>::empty()
    } else {
        spec_transitions_update(trs.drop_last(), start) + spec_marks_update(
            trs.last().marks@,
            start + trs.last().order,
        )
    }
}

fn transitions_update(trs: &Vec<Transition>, start: usize, code: &mut String)
    requires
        start + spec_max_step(trs@) + 1 <= usize::MAX,
    ensures
        final(code)@ == old(code)@ + spec_transitions_update(trs@, start as int),
{
    let ghost code0 = code@;
    let mut j: usize = 0;
    proof {
        assert(trs@.take(0).len() == 0);
        assert(code@ =~= code0 + spec_transitions_update(trs@.take(0), start as int));
    }
    while j < trs.len()
        invariant
            j <= trs@.len(),
            start + spec_max_step(trs@) + 1 <= usize::MAX,
            code@ == code0 + spec_transitions_update(trs@.take(j as int), start as int),
        decreases trs@.len() - j,
    {
        let ghost pre = spec_transitions_update(trs@.take(j as int), start as int);
        proof {
            lemma_order_le_max(trs@, j as int);
        }
        let t = &trs[j];
        let border = start + t.order;
        marks_update(&t.marks, border, code);
        proof {
            assert(trs@.take(j + 1).drop_last() =~= trs@.take(j as int));
            assert(trs@.take(j + 1).last() == trs@[j as int]);
            lemma_concat_associative(
                code0,
                pre,
                spec_marks_update(trs@[j as int].marks@, start + trs@[j as int].order),
            );
        }
        j = j + 1;
    }
    proof {
        assert(trs@.take(trs@.len() as int) =~= trs@);
    }
}

pub const PAGE_IF_0: &'static str = "if self.scene_idx >= ";

pub const PAGE_IF_1: &'static str = " && self.scene_idx < ";

pub const PAGE_IF_2: &'static str = " {";

/// The generated block for one page: a guard selecting the page's scene
/// interval `[start, start + max_step + 1)`, then its transitions' blocks.
pub open spec fn spec_page_update(e: PageEntry, start: int) -> Seq<char> {
    PAGE_IF_0@ + spec_dec(start) + PAGE_IF_1@ + spec_dec(start + e.max_step + 1) + PAGE_IF_2@
        + spec_transitions_update(e.page.transitions@, start) + CLOSE_BRACE@
}

fn page_update(e: &PageEntry, start: usize, code: &mut String)
    requires
        e.max_step == spec_max_step(e.page.transitions@),
        start + e.max_step + 1 <= usize::MAX,
    ensures
        final(code)@ == old(code)@ + spec_page_update(*e, start as int),
{
    code.append(PAGE_IF_0);
    let num = u64_to_dec(start as u64);
    code.append(num.as_str());
    code.append(PAGE_IF_1);
    let next = start + e.max_step + 1;
    let num2 = u64_to_dec(next as u64);
    code.append(num2.as_str());
    code.append(PAGE_IF_2);
    transitions_update(&e.page.transitions, start, code);
    code.append(CLOSE_BRACE);
    proof {
        assert(code@ =~= old(code)@ + spec_page_update(*e, start as int));
    }
}

/// The generated per-frame code of a whole page list: every page's guarded
/// block, with page `i` starting at the scene count of the pages before it.
pub open spec fn spec_pages_update(pages: Seq<PageEntry>) -> Seq<char>
    decreases pages.len(),
{
    if pages.len() == 0 {
        Seq::<char>::empty()
    } else {
        spec_pages_update(pages.drop_last()) + spec_page_update(
            pages.last(),
            spec_scene_count(pages.drop_last()),
        )
    }
}

pub const SETUP_0: &'static str = "let image_data = include_bytes!(\"";

pub const REL_PREFIX: &'static str = "../../";

pub const SETUP_1: &'static str = "\");";

pub const SETUP_2: &'static str = "let texture = load_texture(image_data, frame).expect(\"Failed to load texture\");";

pub const SETUP_3: &'static str = "self.textures.insert(\"";

pub const SETUP_4: &'static str = "\".to_string(), texture);";

/// The image resource keys one mark references: one key for an image mark,
/// none otherwise.
pub open spec fn spec_mark_keys(m: Mark) -> Seq<Seq<char>> {
    match m {
        Mark::Image(k, _t, _st) => seq![k@],
        _ => Seq::<Seq<char>>::empty(),
    }
}

/// The image resource keys of a mark list, in declaration order, with
/// duplicates.
pub open spec fn spec_marks_keys(marks: Seq<Mark>) -> Seq<Seq<char>>
    decreases marks.len(),
{
    if marks.len() == 0 {
        Seq::<Seq<char>>::empty()
    } else {
        spec_marks_keys(marks.drop_last()) + spec_mark_keys(marks.last())
    }
}

/// The image resource keys of a transition list, in declaration order.
pub open spec fn spec_trans_keys(trs: Seq<Transition>) -> Seq<Seq<char>>
    decreases trs.len(),
{
    if trs.len() == 0 {
        Seq::<Seq<char>>::empty()
    } else {
        spec_trans_keys(trs.drop_last()) + spec_marks_keys(trs.last().marks@)
    }
}

/// The image resource keys of a page list, in declaration order.
pub open spec fn spec_pages_keys(pages: Seq<PageEntry>) -> Seq<Seq<char>>
    decreases pages.len(),
{
    if pages.len() == 0 {
        Seq::<Seq<char>>::empty()
    } else {
        spec_pages_keys(pages.drop_last()) + spec_trans_keys(pages.last().page.transitions@)
    }
}

/// First-seen deduplication: keeps the first occurrence of each key, in
/// order.
pub open spec fn spec_dedup(keys: Seq<Seq<char>>) -> Seq<Seq<char>>
    decreases keys.len(),
{
    if keys.len() == 0 {
        Seq::<Seq<char>>::empty()
    } else {
        let d = spec_dedup(keys.drop_last());
        if d.contains(keys.last()) {
            d
        } else {
            d.push(keys.last())
        }
    }
}

/// The distinct image resource keys a document references, in first-seen
/// order.
pub open spec fn spec_image_keys(pages: Seq<PageEntry>) -> Seq<Seq<char>> {
    spec_dedup(spec_pages_keys(pages))
}

/// The set-up statements for one resource key: embed the image bytes
/// relative to the generated project root, decode and upload them once, and
/// store the handle under the original key.
pub open spec fn spec_setup_entry(k: Seq<char>) -> Seq<char> {
    SETUP_0@ + REL_PREFIX@ + k + SETUP_1@ + SETUP_2@ + SETUP_3@ + k + SETUP_4@
}

/// The set-up statements for a key list, in order.
pub open spec fn spec_setup_code(keys: Seq<Seq<char>>) -> Seq<char>
    decreases keys.len(),
{
    if keys.len() == 0 {
        Seq::<char>::empty()
    } else {
        spec_setup_code(keys.drop_last()) + spec_setup_entry(keys.last())
    }
}

/// The views of a list of owned strings.
pub open spec fn key_views(v: Seq<String>) -> Seq<Seq<char>> {
    v.map_values(|s: String| s@)
}

/// Whether `key` already occurs in `v`.
fn contains_key(v: &Vec<String>, key: &String) -> (b: bool)
    ensures
        b == key_views(v@).contains(key@),
{
    let mut i: usize = 0;
    while i < v.len()
        invariant
            i <= v@.len(),
            forall|j: int| 0 <= j < i ==> key_views(v@)[j] != key@,
        decreases v@.len() - i,
    {
        if v[i].eq(key) {
            proof {
                assert(key_views(v@)[i as int] == key@);
            }
            return true;
        }
        i = i + 1;
    }
    false
}

fn setup_mark(
    m: &Mark,
    resources: &mut Vec<String>,
    code: &mut String,
    Ghost(seen): Ghost<Seq<Seq<char>>>,
)
    requires
        key_views(old(resources)@) == spec_dedup(seen),
        old(code)@ == spec_setup_code(spec_dedup(seen)),
    ensures
        key_views(final(resources)@) == spec_dedup(seen + spec_mark_keys(*m)),
        final(code)@ == spec_setup_code(spec_dedup(seen + spec_mark_keys(*m))),
{
    match m {
        Mark::Image(key, _t, _st) => {
            proof {
                assert(seen + spec_mark_keys(*m) =~= seen.push(key@));
                assert(seen.push(key@).drop_last() =~= seen);
            }
            if !contains_key(resources, key) {
                code.append(SETUP_0);
                code.append(REL_PREFIX);
                code.append(key.as_str());
                code.append(SETUP_1);
                code.append(SETUP_2);
                code.append(SETUP_3);
                code.append(key.as_str());
                code.append(SETUP_4);
                resources.push(key.clone());
                proof {
                    assert(spec_dedup(seen.push(key@)) == spec_dedup(seen).push(key@));
                    assert(key_views(resources@) =~= key_views(old(resources)@).push(key@));
                    assert(spec_dedup(seen).push(key@).drop_last() =~= spec_dedup(seen));
                    assert(spec_setup_code(spec_dedup(seen).push(key@)) == spec_setup_code(
                        spec_dedup(seen),
                    ) + spec_setup_entry(key@));
                    assert(code@ =~= old(code)@ + spec_setup_entry(key@));
                }
            } else {
                proof {
                    assert(spec_dedup(seen.push(key@)) == spec_dedup(seen));
                }
            }
        },
        _ => {
            proof {
                assert(seen + spec_mark_keys(*m) =~= seen);
            }
        },
    }
}

fn setup_transition(
    t: &Transition,
    resources: &mut Vec<String>,
    code: &mut String,
    Ghost(seen): Ghost<Seq<Seq<char>>>,
)
    requires
        key_views(old(resources)@) == spec_dedup(seen),
        old(code)@ == spec_setup_code(spec_dedup(seen)),
    ensures
        key_views(final(resources)@) == spec_dedup(seen + spec_marks_keys(t.marks@)),
        final(code)@ == spec_setup_code(spec_dedup(seen + spec_marks_keys(t.marks@))),
{
    let mut k: usize = 0;
    proof {
        assert(t.marks@.take(0).len() == 0);
        assert(seen + spec_marks_keys(t.marks@.take(0)) =~= seen);
    }
    while k < t.marks.len()
        invariant
            k <= t.marks@.len(),
            key_views(resources@) == spec_dedup(seen + spec_marks_keys(t.marks@.take(k as int))),
            code@ == spec_setup_code(spec_dedup(seen + spec_marks_keys(t.marks@.take(k as int)))),
        decreases t.marks@.len() - k,
    {
        let ghost mid = seen + spec_marks_keys(t.marks@.take(k as int));
        setup_mark(&t.marks[k], resources, code, Ghost(mid));
        proof {
            assert(t.marks@.take(k + 1).drop_last() =~= t.marks@.take(k as int));
            assert(t.marks@.take(k + 1).last() == t.marks@[k as int]);
            assert(mid + spec_mark_keys(t.marks@[k as int]) =~= seen + spec_marks_keys(
                t.marks@.take(k + 1),
            ));
        }
        k = k + 1;
    }
    proof {
        assert(t.marks@.take(t.marks@.len() as int) =~= t.marks@);
    }
}

fn setup_page(
    p: &Page,
    resources: &mut Vec<String>,
    code: &mut String,
    Ghost(seen): Ghost<Seq<Seq<char>>>,
)
    requires
        key_views(old(resources)@) == spec_dedup(seen),
        old(code)@ == spec_setup_code(spec_dedup(seen)),
    ensures
        key_views(final(resources)@) == spec_dedup(seen + spec_trans_keys(p.transitions@)),
        final(code)@ == spec_setup_code(spec_dedup(seen + spec_trans_keys(p.transitions@))),
{
    let mut j: usize = 0;
    proof {
        assert(p.transitions@.take(0).len() == 0);
        assert(seen + spec_trans_keys(p.transitions@.take(0)) =~= seen);
    }
    while j < p.transitions.len()
        invariant
            j <= p.transitions@.len(),
            key_views(resources@) == spec_dedup(
                seen + spec_trans_keys(p.transitions@.take(j as int)),
            ),
            code@ == spec_setup_code(
                spec_dedup(seen + spec_trans_keys(p.transitions@.take(j as int))),
            ),
        decreases p.transitions@.len() - j,
    {
        let ghost mid = seen + spec_trans_keys(p.transitions@.take(j as int));
        setup_transition(&p.transitions[j], resources, code, Ghost(mid));
        proof {
            assert(p.transitions@.take(j + 1).drop_last() =~= p.transitions@.take(j as int));
            assert(p.transitions@.take(j + 1).last() == p.transitions@[j as int]);
            assert(mid + spec_marks_keys(p.transitions@[j as int].marks@) =~= seen
                + spec_trans_keys(p.transitions@.take(j + 1)));
        }
        j = j + 1;
    }
    proof {
        assert(p.transitions@.take(p.transitions@.len() as int) =~= p.transitions@);
    }
}

pub const NAME_TOKEN: &'static str = "name";

pub const MAX_SCENE_TOKEN: &'static str = "max_scene_idx";

pub const PROGRAM_NAME_LIT: &'static str = "\"opmark\"";

pub const OUT_DIR_PREFIX: &'static str = ".opmark-out-";

pub const CARGO_TOML_NAME: &'static str = "Cargo.toml";

pub const MAIN_RS_SUBPATH: &'static str = "src/main.rs";

pub const RELEASE_BIN_SUBPATH: &'static str = "/target/release/opmark";

/// The generated per-frame code plus the closing shell: every page's guarded
/// block, then the third app-shell fragment with the literal total scene
/// count substituted for its token.
pub open spec fn spec_generate_code_update(pages: Seq<PageEntry>) -> Seq<char> {
    spec_pages_update(pages) + spec_replace(
        SRC_APP_3_CONTENT@,
        spec_marker(MAX_SCENE_TOKEN@),
        spec_dec(spec_scene_count(pages)),
    )
}

/// The whole generated program: prologue, first shell fragment with the
/// program name, resource set-up, second shell fragment, per-frame code with
/// the closing shell, and the entry point.
pub open spec fn spec_generate_code(pages: Seq<PageEntry>) -> Seq<char> {
    SRC_IMPORT_CONTENT@ + spec_replace(
        SRC_APP_1_CONTENT@,
        spec_marker(NAME_TOKEN@),
        PROGRAM_NAME_LIT@,
    ) + spec_setup_code(spec_image_keys(pages)) + SRC_APP_2_CONTENT@
        + spec_generate_code_update(pages) + SRC_MAIN_CONTENT@
}

/// The files of a scratch workspace, as values: the caller writes
/// `cargo_toml` to `Cargo.toml` and `main_rs` to `src/main.rs` under `root`.
pub struct WorkspacePlan {
    pub root: String,
    pub cargo_toml: String,
    pub main_rs: String,
}

/// The standalone compiler over a flattened document.
pub struct Builder {
    pub pages: Vec<PageEntry>,
}

impl Builder {
    /// Every entry's `max_step` is the true maximum of its transitions'
    /// orders, as flattening establishes.
    pub open spec fn wf(self) -> bool {
        forall|i: int|
            0 <= i < self.pages@.len() ==> (#[trigger] self.pages@[i]).max_step == spec_max_step(
                self.pages@[i].page.transitions@,
            )
    }

    /// Build a standalone compiler for a document.
    pub fn new(doc: Document) -> (b: Builder)
        ensures
            b.wf(),
            b.pages@ == spec_flatten(doc.pages@),
    {
        let pages = flatten(doc);
        proof {
            assert forall|i: int| 0 <= i < pages@.len() implies (#[trigger] pages@[i]).max_step
                == spec_max_step(pages@[i].page.transitions@) by {
                lemma_max_step_in_range(doc.pages@[i].transitions@);
                assert(pages@[i] == spec_flatten(doc.pages@)[i]);
            }
        }
        Builder { pages }
    }

    /// Emit the resource set-up code: one embed-decode-upload block for each
    /// distinct image key of the document, in first-seen order.
    pub fn generate_code_setup(&self) -> (r: String)
        ensures
            r@ == spec_setup_code(spec_image_keys(self.pages@)),
    {
        let mut resources: Vec<String> = Vec::new();
        let mut code = String::new();
        let ghost empty_keys = Seq::<Seq<char>>::empty();
        proof {
            assert(key_views(resources@) =~= spec_dedup(empty_keys));
            assert(code@ =~= spec_setup_code(spec_dedup(empty_keys)));
        }
        let mut i: usize = 0;
        proof {
            assert(self.pages@.take(0).len() == 0);
            assert(spec_pages_keys(self.pages@.take(0)) =~= empty_keys);
        }
        while i < self.pages.len()
            invariant
                i <= self.pages@.len(),
                key_views(resources@) == spec_dedup(spec_pages_keys(self.pages@.take(i as int))),
                code@ == spec_setup_code(spec_dedup(spec_pages_keys(self.pages@.take(i as int)))),
            decreases self.pages@.len() - i,
        {
            let ghost mid = spec_pages_keys(self.pages@.take(i as int));
            setup_page(&self.pages[i].page, &mut resources, &mut code, Ghost(mid));
            proof {
                assert(self.pages@.take(i + 1).drop_last() =~= self.pages@.take(i as int));
                assert(self.pages@.take(i + 1).last() == self.pages@[i as int]);
                assert(mid + spec_trans_keys(self.pages@[i as int].page.transitions@) =~= spec_pages_keys(
                    self.pages@.take(i + 1),
                ));
            }
            i = i + 1;
        }
        proof {
            assert(self.pages@.take(self.pages@.len() as int) =~= self.pages@);
        }
        code
    }

    /// Emit the per-frame code: every page's guarded scene-interval block,
    /// then the closing shell fragment with the literal total scene count.
    pub fn generate_code_update(&self) -> (r: String)
        requires
            self.wf(),
            spec_scene_count(self.pages@) <= usize::MAX,
        ensures
            r@ == spec_generate_code_update(self.pages@),
    {
        let mut code = String::new();
        let mut max_scene_idx: usize = 0;
        let mut i: usize = 0;
        proof {
            assert(self.pages@.take(0).len() == 0);
            assert(code@ =~= Seq::<char>::empty() + spec_pages_update(self.pages@.take(0)));
            assert(code@ =~= spec_pages_update(self.pages@.take(0)));
        }
        while i < self.pages.len()
            invariant
                self.wf(),
                spec_scene_count(self.pages@) <= usize::MAX,
                i <= self.pages@.len(),
                max_scene_idx == spec_scene_count(self.pages@.take(i as int)),
                code@ == spec_pages_update(self.pages@.take(i as int)),
            decreases self.pages@.len() - i,
        {
            let ghost pre = spec_pages_update(self.pages@.take(i as int));
            proof {
                lemma_scene_count_take_step(self.pages@, i as int);
                lemma_scene_count_prefix_bound(self.pages@, i + 1);
                lemma_scene_count_nonneg(self.pages@.take(i + 1));
            }
            let e = &self.pages[i];
            page_update(e, max_scene_idx, &mut code);
            proof {
                assert(self.pages@.take(i + 1).drop_last() =~= self.pages@.take(i as int));
                assert(self.pages@.take(i + 1).last() == self.pages@[i as int]);
                assert(code@ =~= spec_pages_update(self.pages@.take(i + 1)));
            }
            max_scene_idx = max_scene_idx + self.pages[i].max_step + 1;
            i = i + 1;
        }
        proof {
            assert(self.pages@.take(self.pages@.len() as int) =~= self.pages@);
        }
        let app3 = String::from_str(SRC_APP_3_CONTENT);
        let num = u64_to_dec(max_scene_idx as u64);
        let tail = replace_str(&app3, MAX_SCENE_TOKEN, num.as_str());
        code.append(tail.as_str());
        code
    }

    /// Assemble the whole generated program source.
    pub fn generate_code(&self) -> (r: String)
        requires
            self.wf(),
            spec_scene_count(self.pages@) <= usize::MAX,
        ensures
            r@ == spec_generate_code(self.pages@),
    {
        let mut code = String::from_str(SRC_IMPORT_CONTENT);
        let app1 = String::from_str(SRC_APP_1_CONTENT);
        let shell1 = replace_str(&app1, NAME_TOKEN, PROGRAM_NAME_LIT);
        code.append(shell1.as_str());
        let setup = self.generate_code_setup();
        code.append(setup.as_str());
        code.append(SRC_APP_2_CONTENT);
        let update = self.generate_code_update();
        code.append(update.as_str());
        code.append(SRC_MAIN_CONTENT);
        proof {
            assert(code@ =~= spec_generate_code(self.pages@));
        }
        code
    }

    /// Plan the scratch workspace for one run: a root directory named from
    /// the caller's timestamp, the fixed build manifest, and the generated
    /// source. The caller creates the directories, writes the two files,
    /// builds, and removes the root.
    pub fn code(&self, stamp: u64) -> (plan: WorkspacePlan)
        requires
            self.wf(),
            spec_scene_count(self.pages@) <= usize::MAX,
        ensures
            plan.root@ == OUT_DIR_PREFIX@ + spec_dec(stamp as int),
            plan.cargo_toml@ == CARGO_TOML_CONTENT@,
            plan.main_rs@ == spec_generate_code(self.pages@),
    {
        let mut root = String::from_str(OUT_DIR_PREFIX);
        let num = u64_to_dec(stamp);
        root.append(num.as_str());
        let cargo_toml = String::from_str(CARGO_TOML_CONTENT);
        let main_rs = self.generate_code();
        WorkspacePlan { root, cargo_toml, main_rs }
    }
}

/// Where the native build leaves the produced binary, relative to the
/// current directory: the release target of the scratch root.
pub fn release_binary_path(root: &String) -> (r: String)
    ensures
        r@ == root@ + RELEASE_BIN_SUBPATH@,
{
    let mut r = root.clone();
    r.append(RELEASE_BIN_SUBPATH);
    r
}

} // verus!
