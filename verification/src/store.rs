//! The engagement store: three in-memory relations (ratings, statistics,
//! comments) and a fresh-identifier counter, with the well-formedness
//! invariant every operation preserves:
//!
//! - at most one rating row per `(resource_id, user_id)` slot;
//! - every stored component in `[1, 10]`;
//! - every statistics row equal to the aggregate of the live rating rows of
//!   its resource, and every rated resource holding a statistics row;
//! - identifiers unique and below the counter.

use vstd::prelude::*;

use crate::models::Comment;
use crate::models::EngagementError;
use crate::models::Rating;
use crate::models::ResourceStats;
use crate::models::valid_rating;
use crate::relation::agg_for;
use crate::relation::find_comment;
use crate::relation::find_rating;
use crate::relation::find_stats;
use crate::relation::key_matches;
use crate::relation::lemma_find_comment_push;
use crate::relation::stats_row_matches;
use crate::relation::unique_comment_ids;
use crate::relation::unique_rating_keys;
use crate::relation::unique_stats_keys;

verus! {

/// Durable storage for the engagement relations. A live handle plays the
/// role the relational store plays for the platform; every mutation keeps
/// [`Self::wf`].
pub struct EngagementStore {
    pub ratings: Vec<Rating>,
    pub stats: Vec<ResourceStats>,
    pub comments: Vec<Comment>,
    /// Source of fresh row identifiers: every stored identifier is below it.
    pub next_id: u128,
}

impl EngagementStore {
    /// The rating relation is sound: unique slots, components in range,
    /// identifiers unique and below the counter.
    pub open spec fn ratings_ok(&self) -> bool {
        &&& unique_rating_keys(self.ratings@)
        &&& forall|i: int|
            0 <= i < self.ratings@.len() ==> valid_rating(#[trigger] self.ratings@[i])
        &&& forall|i: int| 0 <= i < self.ratings@.len() ==> (#[trigger] self.ratings@[i].id)
            < self.next_id
        &&& forall|i: int, j: int| #![trigger self.ratings@[i], self.ratings@[j]]
            0 <= i < j < self.ratings@.len() ==> self.ratings@[i].id != self.ratings@[j].id
    }

    /// The comment relation is sound: identifiers unique and below the
    /// counter.
    pub open spec fn comments_ok(&self) -> bool {
        &&& unique_comment_ids(self.comments@)
        &&& forall|i: int| 0 <= i < self.comments@.len() ==> (#[trigger] self.comments@[i].id)
            < self.next_id
    }

    /// At most one statistics row per resource.
    pub open spec fn stats_keys_ok(&self) -> bool {
        unique_stats_keys(self.stats@)
    }

    /// Aggregate consistency: every statistics row equals the aggregate of
    /// the live rating rows of its resource.
    pub open spec fn stats_rows_ok(&self) -> bool {
        forall|j: int|
            0 <= j < self.stats@.len() ==> stats_row_matches(
                #[trigger] self.stats@[j],
                agg_for(self.ratings@, self.stats@[j].resource_id),
            )
    }

    /// Every rated resource holds a statistics row, so summaries never miss
    /// a live rating.
    pub open spec fn stats_cover_ratings(&self) -> bool {
        forall|i: int|
            0 <= i < self.ratings@.len() ==> (find_stats(
                self.stats@,
                (#[trigger] self.ratings@[i]).resource_id,
            ) is Some)
    }

    /// The store invariant.
    pub open spec fn wf(&self) -> bool {
        &&& self.ratings_ok()
        &&& self.comments_ok()
        &&& self.stats_keys_ok()
        &&& self.stats_rows_ok()
        &&& self.stats_cover_ratings()
    }

    /// An empty store.
    pub fn new() -> (s: Self)
        ensures
            s.wf(),
            s.ratings@ == Seq::<Rating>::empty(),
            s.stats@ == Seq::<ResourceStats>::empty(),
            s.comments@ == Seq::<Comment>::empty(),
            s.next_id == 0,
    {
        EngagementStore { ratings: Vec::new(), stats: Vec::new(), comments: Vec::new(), next_id: 0 }
    }

    /// Stores a new comment row and returns its fresh identifier. Fails only
    /// when the identifier space is spent.
    pub fn add_comment(&mut self, resource_id: u128, author_id: u128) -> (result: Result<
        u128,
        EngagementError,
    >)
        requires
            old(self).wf(),
        ensures
            final(self).wf(),
            final(self).ratings@ == old(self).ratings@,
            final(self).stats@ == old(self).stats@,
            old(self).next_id <= final(self).next_id <= old(self).next_id + 1,
            (result is Err) <==> old(self).next_id == u128::MAX,
            match result {
                Ok(id) => {
                    &&& find_comment(final(self).comments@, id) matches Some(c) && c
                        == (Comment { id, resource_id, author_id })
                    &&& forall|q: u128|
                        q != id ==> find_comment(final(self).comments@, q) == find_comment(
                            old(self).comments@,
                            q,
                        )
                    &&& forall|i: int|
                        0 <= i < old(self).comments@.len() ==> (#[trigger] old(
                            self,
                        ).comments@[i]).id != id
                },
                Err(e) => e == EngagementError::Storage && *final(self) == *old(self),
            },
    {
        if self.next_id == u128::MAX {
            return Err(EngagementError::Storage);
        }
        let id = self.next_id;
        self.next_id = self.next_id + 1;
        let c = Comment { id, resource_id, author_id };
        let ghost old_comments = self.comments@;
        self.comments.push(c);
        proof {
            assert forall|q: u128| q != id implies find_comment(self.comments@, q) == find_comment(
                old_comments,
                q,
            ) by {
                lemma_find_comment_push(old_comments, c, q);
            }
            lemma_find_comment_push(old_comments, c, id);
            assert(forall|k: int|
                0 <= k < old_comments.len() ==> #[trigger] self.comments@[k] == old_comments[k]);
        }
        Ok(id)
    }
}

/// The index of the rating row occupying the `(resource_id, user_id)` slot,
/// if any.
pub fn find_rating_index(ratings: &Vec<Rating>, resource_id: u128, user_id: u128) -> (result:
    Option<usize>)
    ensures
        match result {
            Some(i) => i < ratings@.len() && key_matches(ratings@[i as int], resource_id, user_id)
                && find_rating(ratings@, resource_id, user_id) == Some(ratings@[i as int]),
            None => find_rating(ratings@, resource_id, user_id) is None,
        },
{
    let ghost s = ratings@;
    let mut i: usize = ratings.len();
    proof {
        assert(s.take(s.len() as int) =~= s);
    }
    while i > 0
        invariant
            i <= s.len(),
            ratings@ == s,
            find_rating(s, resource_id, user_id) == find_rating(
                s.take(i as int),
                resource_id,
                user_id,
            ),
        decreases i,
    {
        i = i - 1;
        proof {
            assert(s.take(i as int + 1).last() == s[i as int]);
            assert(s.take(i as int + 1).drop_last() =~= s.take(i as int));
        }
        let r = ratings[i];
        if r.resource_id == resource_id && r.user_id == user_id {
            return Some(i);
        }
    }
    proof {
        assert(s.take(0) =~= Seq::<Rating>::empty());
    }
    None
}

/// The index of the statistics row of `resource_id`, if any.
pub fn find_stats_index(stats: &Vec<ResourceStats>, resource_id: u128) -> (result: Option<usize>)
    ensures
        match result {
            Some(i) => i < stats@.len() && stats@[i as int].resource_id == resource_id
                && find_stats(stats@, resource_id) == Some(stats@[i as int]),
            None => find_stats(stats@, resource_id) is None,
        },
{
    let ghost s = stats@;
    let mut i: usize = stats.len();
    proof {
        assert(s.take(s.len() as int) =~= s);
    }
    while i > 0
        invariant
            i <= s.len(),
            stats@ == s,
            find_stats(s, resource_id) == find_stats(s.take(i as int), resource_id),
        decreases i,
    {
        i = i - 1;
        proof {
            assert(s.take(i as int + 1).last() == s[i as int]);
            assert(s.take(i as int + 1).drop_last() =~= s.take(i as int));
        }
        if stats[i].resource_id == resource_id {
            return Some(i);
        }
    }
    proof {
        assert(s.take(0) =~= Seq::<ResourceStats>::empty());
    }
    None
}

/// The index of the comment row with identifier `comment_id`, if any.
pub fn find_comment_index(comments: &Vec<Comment>, comment_id: u128) -> (result: Option<usize>)
    ensures
        match result {
            Some(i) => i < comments@.len() && comments@[i as int].id == comment_id && find_comment(
                comments@,
                comment_id,
            ) == Some(comments@[i as int]),
            None => find_comment(comments@, comment_id) is None,
        },
{
    let ghost s = comments@;
    let mut i: usize = comments.len();
    proof {
        assert(s.take(s.len() as int) =~= s);
    }
    while i > 0
        invariant
            i <= s.len(),
            comments@ == s,
            find_comment(s, comment_id) == find_comment(s.take(i as int), comment_id),
        decreases i,
    {
        i = i - 1;
        proof {
            assert(s.take(i as int + 1).last() == s[i as int]);
            assert(s.take(i as int + 1).drop_last() =~= s.take(i as int));
        }
        if comments[i].id == comment_id {
            return Some(i);
        }
    }
    proof {
        assert(s.take(0) =~= Seq::<Comment>::empty());
    }
    None
}

/// Computes the aggregate of `resource_id`'s rating rows: the row count and
/// the exact sum of each component.
pub fn compute_agg(ratings: &Vec<Rating>, resource_id: u128) -> (result: (usize, i128, i128, i128))
    requires
        forall|i: int| 0 <= i < ratings@.len() ==> valid_rating(#[trigger] ratings@[i]),
    ensures
        ({
            let a = agg_for(ratings@, resource_id);
            &&& result.0 as int == a.count
            &&& result.1 as int == a.sum_difficulty
            &&& result.2 as int == a.sum_quality
            &&& result.3 as int == a.sum_detail
        }),
{
    let ghost s = ratings@;
    let n = ratings.len();
    let mut count: usize = 0;
    let mut sum_difficulty: i128 = 0;
    let mut sum_quality: i128 = 0;
    let mut sum_detail: i128 = 0;
    let mut i: usize = 0;
    proof {
        assert(s.take(0) =~= Seq::<Rating>::empty());
    }
    while i < n
        invariant
            i <= n,
            n == s.len(),
            ratings@ == s,
            forall|k: int| 0 <= k < s.len() ==> valid_rating(#[trigger] s[k]),
            count as int == agg_for(s.take(i as int), resource_id).count,
            sum_difficulty as int == agg_for(s.take(i as int), resource_id).sum_difficulty,
            sum_quality as int == agg_for(s.take(i as int), resource_id).sum_quality,
            sum_detail as int == agg_for(s.take(i as int), resource_id).sum_detail,
            count <= i,
            0 <= sum_difficulty as int <= 10 * i as int,
            0 <= sum_quality as int <= 10 * i as int,
            0 <= sum_detail as int <= 10 * i as int,
        decreases n - i,
    {
        proof {
            assert(s.take(i as int + 1).last() == s[i as int]);
            assert(s.take(i as int + 1).drop_last() =~= s.take(i as int));
        }
        let r = ratings[i];
        if r.resource_id == resource_id {
            count = count + 1;
            sum_difficulty = sum_difficulty + r.difficulty as i128;
            sum_quality = sum_quality + r.quality as i128;
            sum_detail = sum_detail + r.detail as i128;
        }
        i = i + 1;
    }
    proof {
        assert(s.take(n as int) =~= s);
    }
    (count, sum_difficulty, sum_quality, sum_detail)
}

} // verus!
