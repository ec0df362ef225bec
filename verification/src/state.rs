//! The shared search state: the single value through which a search
//! execution reports to the thread that polls for it.
//!
//! The value always moves as a whole: idle (or failed) with a message, in
//! progress with a counter, or done with the ordered results. A generation
//! counter guards against a stale execution overwriting a newer one: every
//! submission bumps the generation, a worker carries the generation it was
//! spawned for, and a publish from an outdated generation is a no-op.

use vstd::prelude::*;

use crate::posts::PostIndex;
use crate::query::{validates, Query, SortOrder};
use crate::search::{
    is_field_sort, lemma_matching_membership, matching, matching_up_to, sort_results, sorted_for,
};

verus! {

broadcast use vstd::seq_lib::group_to_multiset_ensures;

/// What one search is currently showing: an idle or error message, progress
/// through the post index, or the finished ordered results with a cursor.
pub enum SearchState {
    /// No search is running; the message says why (a prompt, or the error
    /// that stopped the last submission).
    Idle { message: String },
    /// A search is running and has processed the given number of posts.
    InProgress { processed: usize, total: usize },
    /// A search finished with the ordered matching positions; the cursor
    /// points at the result currently shown.
    Done { results: Vec<usize>, cursor: usize },
}

impl SearchState {
    /// The counter never passes its total, and the cursor stays on a result
    /// (position zero stands for an empty result list as well).
    pub open spec fn wf(self) -> bool {
        match self {
            SearchState::Idle { .. } => true,
            SearchState::InProgress { processed, total } => processed <= total,
            SearchState::Done { results, cursor } => cursor == 0 || cursor < results@.len(),
        }
    }

    /// Moves the cursor to the next result, staying on the last one; any
    /// state but a finished search is left unchanged.
    pub fn next_result(&mut self)
        requires
            old(self).wf(),
        ensures
            final(self).wf(),
            match *old(self) {
                SearchState::Done { results, cursor } => *final(self) == (SearchState::Done {
                    results,
                    cursor: if cursor + 1 < results@.len() {
                        (cursor + 1) as usize
                    } else {
                        cursor
                    },
                }),
                _ => *final(self) == *old(self),
            },
    {
        match self {
            SearchState::Done { results, cursor } => {
                let n = results.len();
                if n - *cursor > 1 {
                    *cursor = *cursor + 1;
                }
            }
            _ => {}
        }
    }

    /// Moves the cursor to the previous result, staying on the first one;
    /// any state but a finished search is left unchanged.
    pub fn prev_result(&mut self)
        requires
            old(self).wf(),
        ensures
            final(self).wf(),
            match *old(self) {
                SearchState::Done { results, cursor } => *final(self) == (SearchState::Done {
                    results,
                    cursor: if cursor > 0 {
                        (cursor - 1) as usize
                    } else {
                        0usize
                    },
                }),
                _ => *final(self) == *old(self),
            },
    {
        match self {
            SearchState::Done { cursor, .. } => {
                if *cursor > 0 {
                    *cursor = *cursor - 1;
                }
            }
            _ => {}
        }
    }
}

/// The shared cell's value: the current search state stamped with the
/// generation of the submission it belongs to.
pub struct SharedSearchState {
    /// Generation of the newest submission; grows by one per submission.
    pub generation: u64,
    /// What the newest submission is currently showing.
    pub state: SearchState,
}

/// Within one generation, an in-progress counter never decreases and its
/// total never changes, whatever transition runs.
pub open spec fn progress_monotone(pre: SharedSearchState, post: SharedSearchState) -> bool {
    match (pre.state, post.state) {
        (
            SearchState::InProgress { processed: p1, total: t1 },
            SearchState::InProgress { processed: p2, total: t2 },
        ) => pre.generation == post.generation ==> p2 >= p1 && t2 == t1,
        _ => true,
    }
}

impl SharedSearchState {
    /// Validity of the held state.
    pub open spec fn wf(self) -> bool {
        self.state.wf()
    }

    /// A fresh cell at generation zero, idle with the given message.
    pub fn new(message: String) -> (r: SharedSearchState)
        ensures
            r.generation == 0,
            r.state == (SearchState::Idle { message }),
            r.wf(),
    {
        SharedSearchState { generation: 0, state: SearchState::Idle { message } }
    }

    /// Begins a new search: bumps the generation and resets the state to
    /// zero progress out of `total`. Returns the new generation, which the
    /// spawned worker must carry to its own updates.
    pub fn submit(&mut self, total: usize) -> (gen: u64)
        requires
            old(self).generation < u64::MAX,
        ensures
            final(self).generation == old(self).generation + 1,
            gen == final(self).generation,
            final(self).state == (SearchState::InProgress { processed: 0usize, total }),
            final(self).wf(),
            progress_monotone(*old(self), *final(self)),
    {
        self.generation = self.generation + 1;
        self.state = SearchState::InProgress { processed: 0, total };
        self.generation
    }

    /// Publishes a submission failure: bumps the generation, so that a still
    /// running older execution cannot overwrite the message, and goes idle
    /// with it.
    pub fn set_error(&mut self, message: String)
        requires
            old(self).generation < u64::MAX,
        ensures
            final(self).generation == old(self).generation + 1,
            final(self).state == (SearchState::Idle { message }),
            final(self).wf(),
            progress_monotone(*old(self), *final(self)),
    {
        self.generation = self.generation + 1;
        self.state = SearchState::Idle { message };
    }

    /// A worker's progress report. It takes effect exactly when the worker's
    /// generation is still current, a search is in progress, and the new
    /// count moves forward without passing the total; otherwise the state is
    /// left as it was.
    pub fn update_progress(&mut self, gen: u64, processed: usize)
        requires
            old(self).wf(),
        ensures
            final(self).generation == old(self).generation,
            final(self).wf(),
            progress_monotone(*old(self), *final(self)),
            match old(self).state {
                SearchState::InProgress { processed: before, total } => {
                    if gen == old(self).generation && before <= processed <= total {
                        final(self).state == (SearchState::InProgress { processed, total })
                    } else {
                        *final(self) == *old(self)
                    }
                },
                _ => *final(self) == *old(self),
            },
    {
        if gen != self.generation {
            return ;
        }
        match &mut self.state {
            SearchState::InProgress { processed: current, total } => {
                if *current <= processed && processed <= *total {
                    *current = processed;
                }
            }
            _ => {}
        }
    }

    /// A worker's terminal publish: replaces the state with the finished
    /// results exactly when the worker's generation is still current, and
    /// reports whether it did. A stale worker's publish changes nothing.
    pub fn publish_done(&mut self, gen: u64, results: Vec<usize>) -> (r: bool)
        requires
            old(self).wf(),
        ensures
            r == (gen == old(self).generation),
            final(self).generation == old(self).generation,
            final(self).wf(),
            progress_monotone(*old(self), *final(self)),
            r ==> final(self).state == (SearchState::Done { results, cursor: 0usize }),
            !r ==> *final(self) == *old(self),
    {
        if gen == self.generation {
            self.state = SearchState::Done { results, cursor: 0 };
            true
        } else {
            false
        }
    }
}

/// Runs one whole search against a state sink: submits a new generation,
/// reports progress after every post, and publishes the finished results.
/// The published result list holds exactly the positions of the posts the
/// query accepts, ordered as the sort order asks.
pub fn execute(posts: &PostIndex, q: &Query, order: SortOrder, sink: &mut SharedSearchState)
    requires
        old(sink).wf(),
        old(sink).generation < u64::MAX,
    ensures
        final(sink).generation == old(sink).generation + 1,
        final(sink).wf(),
        final(sink).state matches SearchState::Done { results, cursor } && cursor == 0 && {
            &&& results@.to_multiset() == matching(posts@, *q).to_multiset()
            &&& forall|x: usize|
                #[trigger] results@.contains(x) <==> ((x as int) < posts@.len() && validates(
                    *q,
                    posts@[x as int],
                ))
            &&& (order == SortOrder::DateAscending ==> results@ == matching(posts@, *q))
            &&& (order == SortOrder::Date ==> results@ == matching(posts@, *q).reverse())
            &&& (is_field_sort(order) ==> sorted_for(posts@, order, results@))
        },
{
    let total = posts.len();
    let gen = sink.submit(total);
    let mut found: Vec<usize> = Vec::new();
    let mut i: usize = 0;
    while i < total
        invariant
            0 <= i <= total == posts@.len(),
            found@ == matching_up_to(posts@, *q, i as int),
            sink.generation == gen == old(sink).generation + 1,
            sink.state == (SearchState::InProgress { processed: i, total }),
            sink.wf(),
        decreases total - i,
    {
        if q.validate(posts.get(i)) {
            found.push(i);
        }
        i = i + 1;
        sink.update_progress(gen, i);
    }
    proof {
        lemma_matching_membership(posts@, *q, posts@.len() as int);
        assert(forall|k: int| 0 <= k < found@.len() ==> (#[trigger] found@[k]) < posts@.len()) by {
            assert(forall|k: int| 0 <= k < found@.len() ==> found@.contains(#[trigger] found@[k]));
        }
    }
    sort_results(&mut found, posts, order);
    proof {
        let m = matching(posts@, *q);
        assert forall|x: usize| #[trigger] found@.contains(x) <==> ((x as int) < posts@.len()
            && validates(*q, posts@[x as int])) by {
            assert(found@.to_multiset().count(x) == m.to_multiset().count(x));
            assert(found@.contains(x) <==> m.contains(x));
        }
    }
    let ok = sink.publish_done(gen, found);
    proof {
        assert(ok);
    }
}

} // verus!
