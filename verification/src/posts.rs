//! The post index: an immutable collection of posts stored in ascending date
//! order, so a post's position doubles as its date rank.

use vstd::prelude::*;

verus! {

/// One post with the fields a search can filter and order by.
pub struct Post {
    /// Stable identity of the post.
    pub id: u32,
    /// Vote score; may be negative.
    pub score: i32,
    /// Number of users that favorited the post.
    pub fav_count: u32,
    /// Identities of the tags attached to the post.
    pub tags: Vec<u32>,
}

/// Mathematical image of a `Post`.
#[verifier::ext_equal]
pub ghost struct PostView {
    pub id: u32,
    pub score: i32,
    pub fav_count: u32,
    pub tags: Seq<u32>,
}

impl View for Post {
    type V = PostView;

    open spec fn view(&self) -> PostView {
        PostView { id: self.id, score: self.score, fav_count: self.fav_count, tags: self.tags@ }
    }
}

impl DeepView for Post {
    type V = PostView;

    open spec fn deep_view(&self) -> PostView {
        self.view()
    }
}

/// The immutable post collection, in ascending date order.
pub struct PostIndex {
    posts: Vec<Post>,
}

impl View for PostIndex {
    type V = Seq<PostView>;

    closed spec fn view(&self) -> Seq<PostView> {
        self.posts.deep_view()
    }
}

impl PostIndex {
    /// Wraps a post list whose order is ascending by date.
    pub fn new(posts: Vec<Post>) -> (r: PostIndex)
        ensures
            r@ == posts.deep_view(),
    {
        PostIndex { posts }
    }

    /// Number of posts in the index.
    pub fn len(&self) -> (r: usize)
        ensures
            r == self@.len(),
    {
        self.posts.len()
    }

    /// The post at a position.
    pub fn get(&self, i: usize) -> (r: &Post)
        requires
            i < self@.len(),
        ensures
            r@ == self@[i as int],
    {
        &self.posts[i]
    }
}

} // verus!
