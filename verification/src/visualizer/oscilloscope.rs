use vstd::prelude::*;

verus! {

/// The stretch of a wave that an oscilloscope shows: `padding` samples of
/// silence, then the samples from `start` up to `end`.
#[derive(Copy, Clone, Debug, PartialEq, Eq, Structural)]
pub struct ScopeWindow {
    pub padding: usize,
    pub start: usize,
    pub end: usize,
}

/// Index of the last of the first `until` marks that is set, or -1 where
/// none is.
pub open spec fn last_edge(edges: Seq<bool>, until: int) -> int
    decreases until,
{
    if until <= 0 {
        -1
    } else if until <= edges.len() && edges[until - 1] {
        until - 1
    } else {
        last_edge(edges, until - 1)
    }
}

/// The stretch shown of a wave of `len` samples in a window of `window`
/// samples. A wave that is no longer than the window is shown whole, behind
/// as much silence as fills the window. Of a longer wave a window's length is
/// shown: around the last edge that lies at least a window's length before the
/// end of the wave, so that the edge stands in the middle, or, where there is
/// no such edge, the end of the wave.
pub open spec fn window_of(edges: Seq<bool>, len: int, window: int) -> ScopeWindow {
    if len <= window {
        ScopeWindow { padding: (window - len) as usize, start: 0, end: len as usize }
    } else {
        let edge = last_edge(edges, len - window);
        let start = if edge < 0 {
            len - window
        } else if edge >= window / 2 {
            edge - window / 2
        } else {
            0
        };
        ScopeWindow {
            padding: 0,
            start: start as usize,
            end: if start + window <= len {
                (start + window) as usize
            } else {
                len as usize
            },
        }
    }
}

/// Picks the stretch of a wave to show. `edges` marks the samples at which
/// the wave begins anew.
pub fn scope_window(edges: &[bool], len: usize, window: usize) -> (shown: ScopeWindow)
    ensures
        shown == window_of(edges@, len as int, window as int),
        shown.start <= shown.end <= len,
        shown.padding + (shown.end - shown.start) <= window,
{
    if len <= window {
        return ScopeWindow { padding: window - len, start: 0, end: len };
    }
    let until: usize = len - window;
    let mut edge: Option<usize> = None;
    let mut i: usize = 0;
    while i < until && i < edges.len()
        invariant
            i <= until,
            i <= edges@.len(),
            match edge {
                Some(e) => last_edge(edges@, i as int) == e && e < i,
                None => last_edge(edges@, i as int) == -1,
            },
        decreases until - i,
    {
        if edges[i] {
            edge = Some(i);
        }
        i = i + 1;
    }
    proof {
        lemma_last_edge_beyond(edges@, i as int, until as int);
    }
    let start: usize = match edge {
        Some(e) => if e >= window / 2 {
            e - window / 2
        } else {
            0
        },
        None => until,
    };
    let end: usize = if start <= len - window {
        start + window
    } else {
        len
    };
    ScopeWindow { padding: 0, start, end }
}

/// Marks that the list does not hold are not set.
proof fn lemma_last_edge_beyond(edges: Seq<bool>, from: int, until: int)
    requires
        0 <= from <= until,
        from == until || from == edges.len(),
    ensures
        last_edge(edges, until) == last_edge(edges, from),
    decreases until - from,
{
    if from < until {
        lemma_last_edge_beyond(edges, from, until - 1);
    }
}

} // verus!
