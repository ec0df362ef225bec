//! The search predicate and the orderings a search can ask for.
//!
//! A query is a boolean tree over tag presence on a single post; the
//! execution pipeline only ever evaluates it post by post.

use vstd::prelude::*;

use crate::posts::{Post, PostView};

verus! {

/// A validated search predicate over one post.
pub enum Query {
    /// Accepts every post.
    MatchAll,
    /// Accepts posts carrying the tag.
    HasTag(u32),
    /// Accepts posts the inner query rejects.
    Not(Box<Query>),
    /// Accepts posts both inner queries accept.
    And(Box<Query>, Box<Query>),
    /// Accepts posts either inner query accepts.
    Or(Box<Query>, Box<Query>),
}

/// What it means for a post to satisfy a query.
pub open spec fn validates(q: Query, p: PostView) -> bool
    decreases q,
{
    match q {
        Query::MatchAll => true,
        Query::HasTag(t) => p.tags.contains(t),
        Query::Not(inner) => !validates(*inner, p),
        Query::And(a, b) => validates(*a, p) && validates(*b, p),
        Query::Or(a, b) => validates(*a, p) || validates(*b, p),
    }
}

impl Query {
    /// Evaluates the query on one post.
    pub fn validate(&self, post: &Post) -> (r: bool)
        ensures
            r == validates(*self, post@),
        decreases *self,
    {
        match self {
            Query::MatchAll => true,
            Query::HasTag(t) => post_has_tag(post, *t),
            Query::Not(inner) => !inner.validate(post),
            Query::And(a, b) => a.validate(post) && b.validate(post),
            Query::Or(a, b) => a.validate(post) || b.validate(post),
        }
    }
}

/// Whether the post carries the tag.
fn post_has_tag(post: &Post, tag: u32) -> (r: bool)
    ensures
        r == post@.tags.contains(tag),
{
    let mut i: usize = 0;
    while i < post.tags.len()
        invariant
            0 <= i <= post@.tags.len(),
            forall|j: int| 0 <= j < i ==> post@.tags[j] != tag,
        decreases post.tags@.len() - i,
    {
        if post.tags[i] == tag {
            return true;
        }
        i = i + 1;
    }
    false
}

/// How the matching posts are ordered in the published result.
#[derive(Clone, Copy, PartialEq, Eq, Structural, Debug)]
pub enum SortOrder {
    /// Newest first: the natural index order reversed.
    Date,
    /// Oldest first: the natural index order, unchanged.
    DateAscending,
    /// Highest score first.
    Score,
    /// Lowest score first.
    ScoreAscending,
    /// Most favorites first.
    FavCount,
    /// Fewest favorites first.
    FavCountAscending,
    /// A uniformly random shuffle.
    Random,
}

} // verus!
