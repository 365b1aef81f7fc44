//! Jobs for the background highlighter, and how queued jobs merge.
use vstd::prelude::*;

verus! {

/// A request to highlight the active buffer down to the viewport bottom.
pub struct HlJob {
    /// Which tab and version this text belongs to.
    pub tab: usize,
    pub version: u64,
    /// The file path (selects the syntax) and the current theme name.
    pub path: Option<String>,
    pub theme_name: String,
    /// Drop the worker's cache before highlighting.
    pub reset: bool,
    /// The full buffer text and the first line an edit touched.
    pub text: String,
    pub dirty_from: usize,
    /// Whether the whole tail must be rebuilt.
    pub wide: bool,
    /// First visible line: the base index of the slice sent back.
    pub scroll_y: usize,
    /// How many lines from the top must be colored.
    pub needed: usize,
}

/// The lowest dirty line and the wide flag after merging `qs` into a job whose
/// own values are `dirty` and `wide`: a merged job whose dirty line differs
/// from the running lowest one makes the result wide.
pub open spec fn merged(dirty: usize, wide: bool, qs: Seq<HlJob>) -> (usize, bool)
    decreases qs.len(),
{
    if qs.len() == 0 {
        (dirty, wide)
    } else {
        let (d, w) = merged(dirty, wide, qs.drop_last());
        let n = qs.last();
        (if n.dirty_from < d { n.dirty_from } else { d }, w || n.dirty_from != d || n.wide)
    }
}

/// Merges the jobs queued behind `job`: the newest one wins, carrying the
/// lowest dirty line of all and `wide` if any job was wide or the merged
/// edits touched different lines.
pub fn coalesce(job: HlJob, queued: Vec<HlJob>) -> (r: HlJob)
    ensures
        ({
            let last = if queued@.len() == 0 { job } else { queued@.last() };
            let (d, w) = merged(job.dirty_from, job.wide, queued@);
            &&& r.tab == last.tab
            &&& r.version == last.version
            &&& r.path == last.path
            &&& r.theme_name == last.theme_name
            &&& r.reset == last.reset
            &&& r.text == last.text
            &&& r.scroll_y == last.scroll_y
            &&& r.needed == last.needed
            &&& r.dirty_from == d
            &&& r.wide == w
        }),
{
    let mut min_dirty = job.dirty_from;
    let mut wide = job.wide;
    let mut cur = job;
    let ghost first = cur;
    let mut queued = queued;
    let ghost qs = queued@;
    let n = queued.len();
    let mut i: usize = 0;
    while i < n
        invariant
            n == qs.len(),
            queued@ == qs.skip(i as int),
            i <= n,
            (min_dirty, wide) == merged(first.dirty_from, first.wide, qs.take(i as int)),
            cur == (if i == 0 { first } else { qs[i - 1] }),
        decreases n - i,
    {
        let next = queued.remove(0);
        proof {
            assert(next == qs[i as int]);
            assert(qs.take(i + 1).drop_last() =~= qs.take(i as int));
            assert(queued@ =~= qs.skip(i + 1));
        }
        if next.dirty_from != min_dirty {
            wide = true;
        }
        if next.dirty_from < min_dirty {
            min_dirty = next.dirty_from;
        }
        wide = wide || next.wide;
        cur = next;
        i += 1;
    }
    proof {
        assert(qs.take(n as int) =~= qs);
    }
    cur.dirty_from = min_dirty;
    cur.wide = wide;
    cur
}

/// A highlight result for version `version` of tab `tab` replaces what is
/// shown unless what is shown is a newer version of the same tab.
pub open spec fn takes_result(shown: Option<(usize, u64)>, tab: usize, version: u64) -> bool {
    !(shown matches Some((t, v)) && t == tab && v > version)
}

/// Whether a worker result for `(tab, version)` is shown in place of the
/// current colors (a stale one, older than what is shown, is dropped).
pub fn accepts_result(shown: Option<(usize, u64)>, tab: usize, version: u64) -> (b: bool)
    ensures
        b == takes_result(shown, tab, version),
{
    match shown {
        Some((t, v)) => !(t == tab && v > version),
        None => true,
    }
}

/// How many lines from the top a viewport at `scroll_y` needs colored: down
/// to its bottom, overestimated by the terminal's full height and a margin.
pub open spec fn lines_needed(scroll_y: usize, term_height: u16) -> int {
    scroll_y + term_height + 8
}

/// Whether the active tab needs a new highlight job: a reset was asked for,
/// nothing was sent yet, the tab or its version changed, or the viewport
/// reaches above or below what was last sent (`sent` is tab, version, first
/// line and lines needed of the last job).
pub open spec fn needs_job(
    reset: bool,
    sent: Option<(usize, u64, usize, usize)>,
    tab: usize,
    version: u64,
    scroll_y: usize,
    needed: int,
) -> bool {
    reset || match sent {
        Some((t, v, s, n)) => t != tab || v != version || scroll_y < s || needed > n,
        None => true,
    }
}

/// The lines a new highlight job must cover, when one is due; `None` when the
/// last job still covers the viewport.
pub fn highlight_request(
    reset: bool,
    sent: Option<(usize, u64, usize, usize)>,
    tab: usize,
    version: u64,
    scroll_y: usize,
    term_height: u16,
) -> (r: Option<usize>)
    requires
        lines_needed(scroll_y, term_height) <= usize::MAX,
    ensures
        r is Some <==> needs_job(reset, sent, tab, version, scroll_y, lines_needed(scroll_y, term_height)),
        r matches Some(n) ==> n == lines_needed(scroll_y, term_height),
{
    let needed = scroll_y + term_height as usize + 8;
    let due = reset || match sent {
        Some((t, v, s, n)) => t != tab || v != version || scroll_y < s || needed > n,
        None => true,
    };
    if due {
        Some(needed)
    } else {
        None
    }
}

} // verus!
