//! The tag index: immutable after construction, ranked by post count, and
//! queried by exact name, by alias, and by prefix during autocompletion.

use vstd::prelude::*;

use crate::text::{bytes_eq, bytes_start_with, bytes_end_with, copy_range, starts_with, ends_with};

verus! {

/// The broad grouping a tag belongs to.
#[derive(Clone, Copy, PartialEq, Eq, Structural, Debug)]
pub enum TagCategory {
    General,
    Artist,
    Copyright,
    Character,
    Species,
    Invalid,
    Meta,
    Lore,
}

/// A named label attachable to posts, with zero or more alias names that all
/// resolve to it.
pub struct Tag {
    /// Stable identity, unique for the lifetime of the index.
    pub id: u32,
    /// Canonical name, unique within the index.
    pub name: Vec<u8>,
    /// Alternate names that resolve to this tag.
    pub aliases: Vec<Vec<u8>>,
    /// Category of the tag.
    pub category: TagCategory,
    /// Number of posts carrying the tag; the index ranks by it.
    pub post_count: u32,
}

/// Mathematical image of a `Tag`.
#[verifier::ext_equal]
pub ghost struct TagView {
    pub id: u32,
    pub name: Seq<u8>,
    pub aliases: Seq<Seq<u8>>,
    pub category: TagCategory,
    pub post_count: u32,
}

impl View for Tag {
    type V = TagView;

    open spec fn view(&self) -> TagView {
        TagView {
            id: self.id,
            name: self.name@,
            aliases: self.aliases.deep_view(),
            category: self.category,
            post_count: self.post_count,
        }
    }
}

impl DeepView for Tag {
    type V = TagView;

    open spec fn deep_view(&self) -> TagView {
        self.view()
    }
}

/// What the index guarantees of its tag list: ranked by descending post
/// count, and canonical names pairwise distinct.
pub open spec fn index_wf(tags: Seq<TagView>) -> bool {
    &&& forall|i: int, j: int|
        #![trigger tags[i], tags[j]]
        0 <= i < j < tags.len() ==> tags[i].post_count >= tags[j].post_count
    &&& forall|i: int, j: int|
        #![trigger tags[i], tags[j]]
        0 <= i < j < tags.len() ==> tags[i].name != tags[j].name
}

/// First position at or after `i` whose tag carries the exact name.
pub open spec fn name_idx_from(tags: Seq<TagView>, name: Seq<u8>, i: int) -> Option<int>
    decreases tags.len() - i,
{
    if i < 0 || i >= tags.len() {
        None
    } else if tags[i].name == name {
        Some(i)
    } else {
        name_idx_from(tags, name, i + 1)
    }
}

/// Whether some alias of the tag equals the name.
pub open spec fn has_alias(t: TagView, name: Seq<u8>) -> bool {
    exists|j: int| 0 <= j < t.aliases.len() && t.aliases[j] == name
}

/// First position at or after `i` whose tag carries the name as an alias.
pub open spec fn alias_idx_from(tags: Seq<TagView>, name: Seq<u8>, i: int) -> Option<int>
    decreases tags.len() - i,
{
    if i < 0 || i >= tags.len() {
        None
    } else if has_alias(tags[i], name) {
        Some(i)
    } else {
        alias_idx_from(tags, name, i + 1)
    }
}

/// Position of the tag a name resolves to: the tag with that canonical name
/// when one exists, else the first tag carrying it as an alias.
pub open spec fn lookup_idx(tags: Seq<TagView>, name: Seq<u8>) -> Option<int> {
    match name_idx_from(tags, name, 0) {
        Some(i) => Some(i),
        None => alias_idx_from(tags, name, 0),
    }
}

/// Identities of the first `n` names that resolve in the index, in order;
/// names that resolve to no tag are dropped.
pub open spec fn resolved_ids(tags: Seq<TagView>, names: Seq<Seq<u8>>, n: int) -> Seq<u32>
    decreases n,
{
    if n <= 0 {
        Seq::empty()
    } else {
        let rest = resolved_ids(tags, names, n - 1);
        match lookup_idx(tags, names[n - 1]) {
            Some(i) => rest.push(tags[i].id),
            None => rest,
        }
    }
}

/// Identities of all the names that resolve in the index, in order.
pub open spec fn resolve_all(tags: Seq<TagView>, names: Seq<Seq<u8>>) -> Seq<u32> {
    resolved_ids(tags, names, names.len() as int)
}

/// The immutable, ranked tag index.
pub struct TagIndex {
    tags: Vec<Tag>,
}

impl View for TagIndex {
    type V = Seq<TagView>;

    closed spec fn view(&self) -> Seq<TagView> {
        self.tags.deep_view()
    }
}

/// Whether the tags at positions below `hi` are ranked by descending post
/// count among themselves.
spec fn ranked_up_to(tags: Seq<TagView>, hi: int) -> bool {
    forall|i: int, j: int|
        #![trigger tags[i], tags[j]]
        0 <= i < j < tags.len() && j < hi ==> tags[i].post_count >= tags[j].post_count
}

/// Whether every tag at a position below `hi` has a name distinct from every
/// other tag in the list.
spec fn distinct_up_to(tags: Seq<TagView>, hi: int) -> bool {
    forall|i: int, j: int|
        #![trigger tags[i], tags[j]]
        0 <= i < j < tags.len() && i < hi ==> tags[i].name != tags[j].name
}

impl TagIndex {
    #[verifier::type_invariant]
    spec fn type_wf(self) -> bool {
        index_wf(self@)
    }

    /// Builds the index from a ranked tag list. Construction succeeds exactly
    /// when the list is ranked by descending post count with pairwise
    /// distinct canonical names.
    pub fn new(tags: Vec<Tag>) -> (r: Option<TagIndex>)
        ensures
            r is Some <==> index_wf(tags.deep_view()),
            r matches Some(index) ==> index@ == tags.deep_view(),
    {
        // Ranking: each adjacent pair in order implies every pair in order.
        let ghost tv = tags.deep_view();
        let mut i: usize = 1;
        while i < tags.len()
            invariant
                1 <= i,
                tv == tags.deep_view(),
                ranked_up_to(tv, i as int),
            decreases tags@.len() - i,
        {
            if tags[i - 1].post_count < tags[i].post_count {
                assert(tv[i - 1].post_count < tv[i as int].post_count);
                assert(!index_wf(tv));
                return None;
            }
            assert(ranked_up_to(tv, i + 1)) by {
                assert(forall|a: int, b: int|
                    #![trigger tv[a], tv[b]]
                    0 <= a < b < tv.len() && b == i ==> tv[a].post_count >= tv[b].post_count) by {
                    assert(forall|a: int|
                        0 <= a < i - 1 ==> #[trigger] tv[a].post_count >= tv[i - 1].post_count);
                }
            }
            i = i + 1;
        }

        // Names: compare every pair.
        let mut a: usize = 0;
        while a < tags.len()
            invariant
                tv == tags.deep_view(),
                ranked_up_to(tv, tv.len() as int),
                distinct_up_to(tv, a as int),
            decreases tags@.len() - a,
        {
            let mut b: usize = a + 1;
            while b < tags.len()
                invariant
                    a < b,
                    tv == tags.deep_view(),
                    distinct_up_to(tv, a as int),
                    forall|j: int| #![trigger tv[j]] a < j < b ==> tv[a as int].name != tv[j].name,
                decreases tags@.len() - b,
            {
                if bytes_eq(&tags[a].name, &tags[b].name) {
                    assert(tv[a as int].name == tv[b as int].name);
                    assert(!index_wf(tv));
                    return None;
                }
                b = b + 1;
            }
            a = a + 1;
        }

        assert(index_wf(tv));
        Some(TagIndex { tags })
    }

    /// Number of tags in the index.
    pub fn len(&self) -> (r: usize)
        ensures
            r == self@.len(),
    {
        self.tags.len()
    }

    /// Resolves a name to a tag: by canonical name when one matches, else by
    /// alias, else `None`.
    pub fn lookup(&self, name: &Vec<u8>) -> (r: Option<&Tag>)
        ensures
            r is Some <==> lookup_idx(self@, name@) is Some,
            r matches Some(t) ==> lookup_idx(self@, name@) matches Some(i) && t@ == self@[i],
    {
        let ghost tv = self@;
        let mut i: usize = 0;
        while i < self.tags.len()
            invariant
                0 <= i <= tv.len(),
                tv == self@,
                name_idx_from(tv, name@, 0) == name_idx_from(tv, name@, i as int),
            decreases self.tags@.len() - i,
        {
            if bytes_eq(&self.tags[i].name, name) {
                return Some(&self.tags[i]);
            }
            i = i + 1;
        }
        assert(name_idx_from(tv, name@, 0) is None);

        let mut k: usize = 0;
        while k < self.tags.len()
            invariant
                0 <= k <= tv.len(),
                tv == self@,
                name_idx_from(tv, name@, 0) is None,
                alias_idx_from(tv, name@, 0) == alias_idx_from(tv, name@, k as int),
            decreases self.tags@.len() - k,
        {
            if alias_matches(&self.tags[k], name) {
                return Some(&self.tags[k]);
            }
            k = k + 1;
        }
        None
    }

    /// Resolves each name in turn, keeping the identities of those the index
    /// knows and silently dropping the rest.
    pub fn resolve_names(&self, names: &Vec<Vec<u8>>) -> (r: Vec<u32>)
        ensures
            r@ == resolve_all(self@, names.deep_view()),
    {
        let ghost tv = self@;
        let ghost nv = names.deep_view();
        let mut r: Vec<u32> = Vec::new();
        let mut k: usize = 0;
        while k < names.len()
            invariant
                0 <= k <= nv.len(),
                tv == self@,
                nv == names.deep_view(),
                r@ == resolved_ids(tv, nv, k as int),
            decreases names@.len() - k,
        {
            assert(names@[k as int].deep_view() =~= names@[k as int]@);
            match self.lookup(&names[k]) {
                Some(t) => {
                    r.push(t.id);
                }
                None => {}
            }
            k = k + 1;
        }
        r
    }
}

/// One autocomplete match: a lightweight copy of the fields a caller needs
/// to display the suggestion and to perform the replacement.
pub struct Suggestion {
    /// Identity of the suggested tag.
    pub tag_id: u32,
    /// Canonical name of the suggested tag; a selection inserts this.
    pub name: Vec<u8>,
    /// The alias the match came through, when it did not match by name.
    pub alias: Option<Vec<u8>>,
    /// Category of the suggested tag.
    pub category: TagCategory,
    /// Number of posts carrying the suggested tag.
    pub post_count: u32,
}

/// Mathematical image of a `Suggestion`.
#[verifier::ext_equal]
pub ghost struct SuggestionView {
    pub tag_id: u32,
    pub name: Seq<u8>,
    pub alias: Option<Seq<u8>>,
    pub category: TagCategory,
    pub post_count: u32,
}

impl View for Suggestion {
    type V = SuggestionView;

    open spec fn view(&self) -> SuggestionView {
        SuggestionView {
            tag_id: self.tag_id,
            name: self.name@,
            alias: match self.alias {
                Some(a) => Some(a@),
                None => None,
            },
            category: self.category,
            post_count: self.post_count,
        }
    }
}

impl DeepView for Suggestion {
    type V = SuggestionView;

    open spec fn deep_view(&self) -> SuggestionView {
        self.view()
    }
}

/// Whether a displayed name passes the autocomplete filter: its tag is not
/// among the excluded identities, the name extends what stands before the
/// cursor, and it ends with what stands after the cursor.
pub open spec fn accepts(
    shown: Seq<u8>,
    id: u32,
    prefix: Seq<u8>,
    suffix: Seq<u8>,
    excluded: Seq<u32>,
) -> bool {
    &&& !excluded.contains(id)
    &&& starts_with(shown, prefix)
    &&& ends_with(shown, suffix)
}

/// First alias of the tag, at or after `j`, that passes the filter.
pub open spec fn alias_candidate_from(
    t: TagView,
    prefix: Seq<u8>,
    suffix: Seq<u8>,
    excluded: Seq<u32>,
    j: int,
) -> Option<int>
    decreases t.aliases.len() - j,
{
    if j < 0 || j >= t.aliases.len() {
        None
    } else if accepts(t.aliases[j], t.id, prefix, suffix, excluded) {
        Some(j)
    } else {
        alias_candidate_from(t, prefix, suffix, excluded, j + 1)
    }
}

/// The suggestion a tag contributes, if any: by canonical name when the name
/// passes the filter, else through its first alias that does.
pub open spec fn candidate_of(
    t: TagView,
    prefix: Seq<u8>,
    suffix: Seq<u8>,
    excluded: Seq<u32>,
) -> Option<SuggestionView> {
    if accepts(t.name, t.id, prefix, suffix, excluded) {
        Some(
            SuggestionView {
                tag_id: t.id,
                name: t.name,
                alias: None,
                category: t.category,
                post_count: t.post_count,
            },
        )
    } else {
        match alias_candidate_from(t, prefix, suffix, excluded, 0) {
            Some(j) => Some(
                SuggestionView {
                    tag_id: t.id,
                    name: t.name,
                    alias: Some(t.aliases[j]),
                    category: t.category,
                    post_count: t.post_count,
                },
            ),
            None => None,
        }
    }
}

/// Suggestions contributed by the first `n` tags, in index order.
pub open spec fn candidates_up_to(
    tags: Seq<TagView>,
    prefix: Seq<u8>,
    suffix: Seq<u8>,
    excluded: Seq<u32>,
    n: int,
) -> Seq<SuggestionView>
    decreases n,
{
    if n <= 0 {
        Seq::empty()
    } else {
        let rest = candidates_up_to(tags, prefix, suffix, excluded, n - 1);
        match candidate_of(tags[n - 1], prefix, suffix, excluded) {
            Some(s) => rest.push(s),
            None => rest,
        }
    }
}

/// Suggestions contributed by the whole index, in index order: since the
/// index is ranked by descending post count, so is this list.
pub open spec fn all_candidates(
    tags: Seq<TagView>,
    prefix: Seq<u8>,
    suffix: Seq<u8>,
    excluded: Seq<u32>,
) -> Seq<SuggestionView> {
    candidates_up_to(tags, prefix, suffix, excluded, tags.len() as int)
}

/// The first `max` candidates, or all of them when fewer match.
pub open spec fn ranked_candidates(
    tags: Seq<TagView>,
    prefix: Seq<u8>,
    suffix: Seq<u8>,
    excluded: Seq<u32>,
    max: int,
) -> Seq<SuggestionView> {
    let c = all_candidates(tags, prefix, suffix, excluded);
    if c.len() <= max {
        c
    } else {
        c.take(max)
    }
}

/// In a well-formed index the candidate list inherits the index's ranking:
/// suggestions come ranked by descending post count; moreover every
/// candidate among the first `n` tags outranks every tag from position `n`
/// on.
pub proof fn lemma_candidates_ranked(
    tags: Seq<TagView>,
    prefix: Seq<u8>,
    suffix: Seq<u8>,
    excluded: Seq<u32>,
    n: int,
)
    requires
        index_wf(tags),
        0 <= n <= tags.len(),
    ensures
        forall|k: int, l: int|
            0 <= k < l < candidates_up_to(tags, prefix, suffix, excluded, n).len()
                ==> candidates_up_to(tags, prefix, suffix, excluded, n)[k].post_count
                >= candidates_up_to(tags, prefix, suffix, excluded, n)[l].post_count,
        forall|k: int, m: int|
            0 <= k < candidates_up_to(tags, prefix, suffix, excluded, n).len() && n <= m
                < tags.len() ==> candidates_up_to(tags, prefix, suffix, excluded, n)[k].post_count
                >= tags[m].post_count,
    decreases n,
{
    if n > 0 {
        lemma_candidates_ranked(tags, prefix, suffix, excluded, n - 1);
        let rest = candidates_up_to(tags, prefix, suffix, excluded, n - 1);
        let here = candidates_up_to(tags, prefix, suffix, excluded, n);
        match candidate_of(tags[n - 1], prefix, suffix, excluded) {
            Some(s) => {
                assert(here == rest.push(s));
                assert(s.post_count == tags[n - 1].post_count);
                assert(forall|m: int|
                    n <= m < tags.len() ==> tags[n - 1].post_count >= #[trigger] tags[m].post_count);
            }
            None => {
                assert(here == rest);
            }
        }
    }
}

impl TagIndex {
    /// Collects up to `max` suggestions for the token split at the cursor
    /// into `prefix` and `suffix`, skipping the excluded tag identities.
    /// Matches come in index order, which ranks by descending post count.
    pub fn prefix_search(
        &self,
        prefix: &Vec<u8>,
        suffix: &Vec<u8>,
        excluded: &Vec<u32>,
        max: usize,
    ) -> (r: Vec<Suggestion>)
        ensures
            r.deep_view() == ranked_candidates(self@, prefix@, suffix@, excluded@, max as int),
            r@.len() <= max,
            forall|k: int, l: int|
                0 <= k < l < r@.len() ==> r.deep_view()[k].post_count
                    >= r.deep_view()[l].post_count,
    {
        let ghost tv = self@;
        proof {
            use_type_invariant(self);
            lemma_candidates_ranked(tv, prefix@, suffix@, excluded@, tv.len() as int);
        }
        let mut out: Vec<Suggestion> = Vec::new();
        let mut i: usize = 0;
        while i < self.tags.len()
            invariant
                0 <= i <= tv.len(),
                tv == self@,
                out@.len() <= max,
                ({
                    let c = candidates_up_to(tv, prefix@, suffix@, excluded@, i as int);
                    out.deep_view() == if c.len() <= max {
                        c
                    } else {
                        c.take(max as int)
                    }
                }),
            decreases self.tags@.len() - i,
        {
            let t = &self.tags[i];
            let ghost c = candidates_up_to(tv, prefix@, suffix@, excluded@, i as int);
            let sug = tag_candidate(t, prefix, suffix, excluded);
            proof {
                assert(t@ == tv[i as int]);
            }
            match sug {
                Some(s) => {
                    proof {
                        assert(candidates_up_to(tv, prefix@, suffix@, excluded@, i + 1) == c.push(
                            s@,
                        ));
                    }
                    if out.len() < max {
                        let ghost pre = out@;
                        proof {
                            assert(out.deep_view().len() == pre.len());
                            assert(out.deep_view() == c);
                            assert(forall|k: int| 0 <= k < pre.len() ==> c[k] == #[trigger] pre[k].deep_view());
                        }
                        out.push(s);
                        proof {
                            assert(out@ == pre.push(s));
                            assert(forall|k: int| 0 <= k < pre.len() ==> out@[k] == #[trigger] pre[k]);
                            assert(out.deep_view() =~= c.push(s@));
                        }
                    } else {
                        proof {
                            assert(c.push(s@).take(max as int) =~= c.take(max as int));
                        }
                    }
                }
                None => {
                    proof {
                        assert(candidates_up_to(tv, prefix@, suffix@, excluded@, i + 1) == c);
                    }
                }
            }
            i = i + 1;
        }
        out
    }
}

/// The suggestion one tag contributes for the filter, if any, as an owned
/// copy of its fields.
fn tag_candidate(t: &Tag, prefix: &Vec<u8>, suffix: &Vec<u8>, excluded: &Vec<u32>) -> (r: Option<
    Suggestion,
>)
    ensures
        r is Some <==> candidate_of(t@, prefix@, suffix@, excluded@) is Some,
        r matches Some(s) ==> candidate_of(t@, prefix@, suffix@, excluded@) == Some(s@),
{
    let excluded_here = contains_u32(excluded, t.id);
    if !excluded_here && bytes_start_with(&t.name, prefix) && bytes_end_with(&t.name, suffix) {
        let name = copy_range(&t.name, 0, t.name.len());
        let s = Suggestion {
            tag_id: t.id,
            name,
            alias: None,
            category: t.category,
            post_count: t.post_count,
        };
        proof {
            assert(accepts(t@.name, t@.id, prefix@, suffix@, excluded@));
            assert(s@ =~= candidate_of(t@, prefix@, suffix@, excluded@).unwrap());
        }
        return Some(s);
    }
    proof {
        assert(!accepts(t@.name, t@.id, prefix@, suffix@, excluded@));
    }
    let mut j: usize = 0;
    while j < t.aliases.len()
        invariant
            0 <= j <= t@.aliases.len(),
            !accepts(t@.name, t@.id, prefix@, suffix@, excluded@),
            excluded_here == excluded@.contains(t@.id),
            alias_candidate_from(t@, prefix@, suffix@, excluded@, 0) == alias_candidate_from(
                t@,
                prefix@,
                suffix@,
                excluded@,
                j as int,
            ),
        decreases t.aliases@.len() - j,
    {
        assert(t@.aliases[j as int] =~= t.aliases@[j as int]@);
        if !excluded_here && bytes_start_with(&t.aliases[j], prefix) && bytes_end_with(
            &t.aliases[j],
            suffix,
        ) {
            let alias = copy_range(&t.aliases[j], 0, t.aliases[j].len());
            let name = copy_range(&t.name, 0, t.name.len());
            let s = Suggestion {
                tag_id: t.id,
                name,
                alias: Some(alias),
                category: t.category,
                post_count: t.post_count,
            };
            proof {
                assert(accepts(t@.aliases[j as int], t@.id, prefix@, suffix@, excluded@));
                assert(alias_candidate_from(t@, prefix@, suffix@, excluded@, j as int) == Some(
                    j as int,
                ));
                assert(s@ =~= candidate_of(t@, prefix@, suffix@, excluded@).unwrap());
            }
            return Some(s);
        }
        proof {
            assert(!accepts(t@.aliases[j as int], t@.id, prefix@, suffix@, excluded@));
        }
        j = j + 1;
    }
    None
}

/// Whether the identity list holds the given identity.
fn contains_u32(v: &Vec<u32>, x: u32) -> (r: bool)
    ensures
        r == v@.contains(x),
{
    let mut i: usize = 0;
    while i < v.len()
        invariant
            0 <= i <= v@.len(),
            forall|j: int| 0 <= j < i ==> v@[j] != x,
        decreases v@.len() - i,
    {
        if v[i] == x {
            return true;
        }
        i = i + 1;
    }
    false
}

/// Whether some alias of the tag equals the name, by byte comparison.
fn alias_matches(tag: &Tag, name: &Vec<u8>) -> (r: bool)
    ensures
        r == has_alias(tag@, name@),
{
    let mut j: usize = 0;
    while j < tag.aliases.len()
        invariant
            0 <= j <= tag@.aliases.len(),
            forall|l: int| 0 <= l < j ==> tag@.aliases[l] != name@,
        decreases tag.aliases@.len() - j,
    {
        assert(tag@.aliases[j as int] =~= tag.aliases@[j as int]@);
        if bytes_eq(&tag.aliases[j], name) {
            assert(has_alias(tag@, name@));
            return true;
        }
        j = j + 1;
    }
    false
}

} // verus!
