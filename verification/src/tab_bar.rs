//! The tab bar: which tab, or which tab's close button, a click lands on.
//! Each tab is drawn as " {title} {dirty} x " followed by a "|" separator.
use vstd::prelude::*;

use crate::model::{tab_title, Tab};
use crate::ui::Rect;

verus! {

/// Target of a click on the tab bar.
#[derive(Clone, Copy, Debug, PartialEq, Eq, Structural)]
pub enum TabHit {
    /// The tab's body: make it active.
    Select(usize),
    /// Its close button (the x and the space after it): close it.
    Close(usize),
}

/// The widths of the tabs' titles.
pub open spec fn title_widths(tabs: Seq<Tab>) -> Seq<int> {
    tabs.map_values(|t: Tab| tab_title(t).len() as int)
}

/// Columns the tabs from `i` on take: each its title plus 7.
pub open spec fn bar_width(ws: Seq<int>, i: int) -> int
    decreases ws.len() - i,
{
    if i < 0 || i >= ws.len() { 0 } else { ws[i] + 7 + bar_width(ws, i + 1) }
}

/// What a click at column `x` hits, scanning the tabs from `i`, whose cells
/// start at column `cursor`.
pub open spec fn tab_hit_from(ws: Seq<int>, i: int, cursor: int, x: int) -> Option<TabHit>
    decreases ws.len() - i,
{
    if i < 0 || i >= ws.len() {
        None
    } else if cursor <= x < cursor + ws[i] + 7 {
        let close_x = cursor + ws[i] + 4;
        if x == close_x || x == close_x + 1 { Some(TabHit::Close(i as usize)) } else { Some(TabHit::Select(i as usize)) }
    } else {
        tab_hit_from(ws, i + 1, cursor + ws[i] + 7, x)
    }
}

proof fn lemma_bar_width_step(ws: Seq<int>, i: int)
    requires
        0 <= i < ws.len(),
        forall|k: int| 0 <= k < ws.len() ==> ws[k] >= 0,
    ensures
        bar_width(ws, i) == ws[i] + 7 + bar_width(ws, i + 1),
        bar_width(ws, i + 1) >= 0,
    decreases ws.len() - i,
{
    if i + 1 < ws.len() {
        lemma_bar_width_step(ws, i + 1);
    }
}

/// Which tab or close button the click at column `x` lands on.
pub fn tab_at(tabs: &Vec<Tab>, area: Rect, x: u16) -> (r: Option<TabHit>)
    requires
        area.x + bar_width(title_widths(tabs@), 0) <= u16::MAX,
    ensures
        r == tab_hit_from(title_widths(tabs@), 0, area.x as int, x as int),
{
    let ghost ws = title_widths(tabs@);
    let mut cursor: u16 = area.x;
    let n = tabs.len();
    for i in 0..n
        invariant
            n == tabs@.len(),
            ws == title_widths(tabs@),
            cursor as int + bar_width(ws, i as int) <= u16::MAX,
            tab_hit_from(ws, i as int, cursor as int, x as int) == tab_hit_from(ws, 0, area.x as int, x as int),
    {
        let title = tabs[i].title();
        let w = title.as_str().unicode_len();
        proof {
            assert(ws[i as int] == tab_title(tabs@[i as int]).len());
            lemma_bar_width_step(ws, i as int);
        }
        let w16 = w as u16;
        let total = w16 + 7;
        if x >= cursor && x < cursor + total {
            let close_x = cursor + w16 + 4;
            if x == close_x || x == close_x + 1 {
                return Some(TabHit::Close(i));
            }
            return Some(TabHit::Select(i));
        }
        cursor = cursor + total;
    }
    None
}

} // verus!
