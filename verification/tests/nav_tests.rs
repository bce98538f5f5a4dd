use opmark_egui::model::{Document, Heading, IndentLevel, Listing, Mark, Page, TextStyle, Transition};
use opmark_egui::nav::{flatten, Slideshow};
use opmark_egui::render::render_page;

fn text_mark(s: &str) -> Mark {
    Mark::Text(String::from(s), TextStyle::plain())
}

fn page_with_orders(orders: &[usize]) -> Page {
    Page {
        transitions: orders
            .iter()
            .map(|&o| Transition { order: o, marks: vec![text_mark("x")] })
            .collect(),
    }
}

fn doc_with_orders(pages: &[&[usize]]) -> Document {
    Document { pages: pages.iter().map(|p| page_with_orders(p)).collect() }
}

#[test]
fn max_step_of_empty_page_is_zero() {
    let doc = doc_with_orders(&[&[]]);
    let entries = flatten(doc);
    assert_eq!(entries.len(), 1);
    assert_eq!(entries[0].max_step, 0);
    assert_eq!(entries[0].current_step, 0);
}

#[test]
fn max_step_of_single_transition_is_its_order() {
    let doc = doc_with_orders(&[&[5]]);
    let entries = flatten(doc);
    assert_eq!(entries[0].max_step, 5);
}

#[test]
fn max_step_is_maximum_not_last() {
    let doc = doc_with_orders(&[&[1, 7, 3]]);
    let entries = flatten(doc);
    assert_eq!(entries[0].max_step, 7);
}

#[test]
fn next_skips_page_with_one_pending_step() {
    // The deliberate `max_step > 1` guard: a page whose only reveal step is
    // step 1 is skipped straight to the following page.
    let doc = doc_with_orders(&[&[1], &[]]);
    let mut show = Slideshow::new(doc);
    show.next();
    assert_eq!(show.current_page_idx, 1);
    assert_eq!(show.pages[0].current_step, 0);
}

#[test]
fn next_reveals_steps_then_advances() {
    let doc = doc_with_orders(&[&[2], &[]]);
    let mut show = Slideshow::new(doc);
    show.next();
    assert_eq!(show.current_page_idx, 0);
    assert_eq!(show.pages[0].current_step, 1);
    show.next();
    assert_eq!(show.pages[0].current_step, 2);
    show.next();
    assert_eq!(show.current_page_idx, 1);
}

#[test]
fn nav_stays_in_bounds_under_any_sequence() {
    let doc = doc_with_orders(&[&[2], &[], &[3]]);
    let mut show = Slideshow::new(doc);
    let moves = [true, true, false, true, true, true, true, true, false, false, true, false, false,
        false, false, false, true, true, true, true, true, true, true, true];
    for &fwd in moves.iter() {
        if fwd {
            show.next();
        } else {
            show.prev();
        }
        assert!(show.current_page_idx < show.pages.len());
        for e in show.pages.iter() {
            assert!(e.current_step <= e.max_step);
        }
    }
}

#[test]
fn prev_run_undoes_next_run_from_initial_state() {
    let doc = doc_with_orders(&[&[2], &[], &[3], &[1]]);
    for n in 0..12 {
        let mut show = Slideshow::new(doc.clone());
        for _ in 0..n {
            show.next();
        }
        for _ in 0..n {
            show.prev();
        }
        assert_eq!(show.current_page_idx, 0);
        for e in show.pages.iter() {
            assert_eq!(e.current_step, 0);
        }
    }
}

#[test]
fn flatten_twice_yields_identical_entries() {
    let doc = doc_with_orders(&[&[2, 1], &[], &[4]]);
    let a = flatten(doc.clone());
    let b = flatten(doc);
    assert_eq!(a, b);
}

#[test]
fn one_page_heading_and_bullet_scenario() {
    // One page, two transitions: order 0 holds a heading, order 1 a bullet
    // list item.
    let mut heading_style = TextStyle::plain();
    heading_style.heading = Heading::H1;
    let mut bullet_style = TextStyle::plain();
    bullet_style.listing = Listing::Unordered(IndentLevel::I0);
    let doc = Document {
        pages: vec![Page {
            transitions: vec![
                Transition { order: 0, marks: vec![Mark::Text(String::from("Title"), heading_style)] },
                Transition {
                    order: 1,
                    marks: vec![Mark::Text(String::from("Point A"), bullet_style)],
                },
            ],
        }],
    };
    let entries = flatten(doc);
    assert_eq!(entries.len(), 1);
    assert_eq!(entries[0].max_step, 1);
    assert_eq!(entries[0].current_step, 0);

    let slots = render_page(&entries[0]);
    assert_eq!(slots.len(), 2);
    assert!(slots[0].visible);
    assert!(slots[0].line_break);
    assert!(!slots[1].visible); // suppressed, but its space is still reserved
    assert!(slots[1].line_break);

    let mut show = Slideshow { pages: entries, current_page_idx: 0 };
    // max_step is 1, so `next` moves on rather than revealing; the scenario
    // reaches step 1 through a direct entry state.
    show.pages[0].current_step = 1;
    let slots = render_page(&show.pages[0]);
    assert!(slots[0].visible);
    assert!(slots[1].visible);
}

#[test]
fn two_page_scenario_reveals_and_returns() {
    // Page A has max_step 0, page B has max_step 2: two `next` calls move to
    // B and then reveal B's step 1; `prev` returns to step 0 of B, not to A.
    let doc = doc_with_orders(&[&[], &[2]]);
    let mut show = Slideshow::new(doc);
    show.next();
    assert_eq!(show.current_page_idx, 1);
    show.next();
    assert_eq!(show.current_page_idx, 1);
    assert_eq!(show.pages[1].current_step, 1);
    show.prev();
    assert_eq!(show.current_page_idx, 1);
    assert_eq!(show.pages[1].current_step, 0);
}

#[test]
fn next_and_prev_are_no_ops_on_empty_document() {
    let doc = Document { pages: vec![] };
    let mut show = Slideshow::new(doc);
    show.next();
    show.prev();
    assert_eq!(show.current_page_idx, 0);
    assert_eq!(show.pages.len(), 0);
}
