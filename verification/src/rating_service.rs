//! Rating operations: validated create-or-update (upsert), lookup, delete,
//! and summary, each followed by an atomic recomputation of the resource's
//! denormalized statistics row, so that aggregate consistency holds at every
//! return.

use vstd::prelude::*;
use vstd::pervasive::VecAdditionalExecFns;

use crate::models::CreateRatingRequest;
use crate::models::EngagementError;
use crate::models::Rating;
use crate::models::RatingResponse;
use crate::models::RatingSummary;
use crate::models::ResourceStats;
use crate::models::response_of;
use crate::models::valid_request;
use crate::relation::Agg;
use crate::relation::agg_for;
use crate::relation::agg_zero;
use crate::relation::find_rating;
use crate::relation::find_stats;
use crate::relation::lemma_agg_no_rows;
use crate::relation::lemma_agg_push;
use crate::relation::lemma_agg_remove_other;
use crate::relation::lemma_agg_remove_self;
use crate::relation::lemma_agg_update_other;
use crate::relation::lemma_agg_update_self;
use crate::relation::lemma_find_rating_none_covers;
use crate::relation::lemma_find_rating_push;
use crate::relation::lemma_find_rating_remove;
use crate::relation::lemma_find_rating_update;
use crate::relation::lemma_find_stats_none_covers;
use crate::relation::lemma_find_stats_push;
use crate::relation::lemma_find_stats_some;
use crate::relation::lemma_find_stats_update;
use crate::relation::stats_row_matches;
use crate::store::EngagementStore;
use crate::store::compute_agg;
use crate::store::find_rating_index;
use crate::store::find_stats_index;

verus! {

/// The caller-facing reading of a slot: the stored rating's view, or absence.
pub open spec fn get_result(s: EngagementStore, resource_id: u128, user_id: u128) -> Option<
    RatingResponse,
> {
    match find_rating(s.ratings@, resource_id, user_id) {
        Some(r) => Some(response_of(r)),
        None => None,
    }
}

/// The caller-facing summary of a resource: its statistics row, or the
/// zero-count view when the resource has never been rated.
pub open spec fn summary_of(s: EngagementStore, resource_id: u128) -> RatingSummary {
    match find_stats(s.stats@, resource_id) {
        Some(row) => RatingSummary {
            rating_count: row.rating_count,
            sum_difficulty: row.sum_difficulty,
            sum_quality: row.sum_quality,
            sum_detail: row.sum_detail,
        },
        None => RatingSummary { rating_count: 0, sum_difficulty: 0, sum_quality: 0, sum_detail: 0 },
    }
}

/// The row a successful submit leaves in the `(resource_id, user_id)` slot:
/// it carries the submitted components and the new `updated_at`; if the slot
/// was occupied, `id` and `created_at` are kept, otherwise `created_at` is
/// the submission instant and `id` is fresh.
pub open spec fn written_rating(
    pre: EngagementStore,
    resource_id: u128,
    user_id: u128,
    request: CreateRatingRequest,
    now: i64,
    r: Rating,
) -> bool {
    &&& r.resource_id == resource_id
    &&& r.user_id == user_id
    &&& r.difficulty == request.difficulty
    &&& r.quality == request.quality
    &&& r.detail == request.detail
    &&& r.updated_at == now
    &&& match find_rating(pre.ratings@, resource_id, user_id) {
        Some(o) => r.id == o.id && r.created_at == o.created_at,
        None => r.created_at == now && (forall|i: int|
            0 <= i < pre.ratings@.len() ==> (#[trigger] pre.ratings@[i]).id != r.id),
    }
}

/// What a successful submit leaves behind: its own slot holds exactly the
/// written row, every other slot and every other resource's aggregate are
/// untouched, the comments are untouched, and the resource now holds a
/// statistics row while every other resource's row is untouched.
pub open spec fn submit_ok(
    pre: EngagementStore,
    post: EngagementStore,
    resource_id: u128,
    user_id: u128,
    request: CreateRatingRequest,
    now: i64,
    response: RatingResponse,
) -> bool {
    &&& valid_request(request)
    &&& match find_rating(post.ratings@, resource_id, user_id) {
        Some(r) => written_rating(pre, resource_id, user_id, request, now, r) && response
            == response_of(r),
        None => false,
    }
    &&& forall|r2: u128, u2: u128|
        !(r2 == resource_id && u2 == user_id) ==> find_rating(post.ratings@, r2, u2)
            == find_rating(pre.ratings@, r2, u2)
    &&& forall|r2: u128|
        r2 != resource_id ==> agg_for(post.ratings@, r2) == agg_for(pre.ratings@, r2)
    &&& agg_for(post.ratings@, resource_id) == (match find_rating(
        pre.ratings@,
        resource_id,
        user_id,
    ) {
        Some(o) => (Agg {
            count: agg_for(pre.ratings@, resource_id).count,
            sum_difficulty: agg_for(pre.ratings@, resource_id).sum_difficulty
                - o.difficulty as int + request.difficulty as int,
            sum_quality: agg_for(pre.ratings@, resource_id).sum_quality - o.quality as int
                + request.quality as int,
            sum_detail: agg_for(pre.ratings@, resource_id).sum_detail - o.detail as int
                + request.detail as int,
        }),
        None => (Agg {
            count: agg_for(pre.ratings@, resource_id).count + 1,
            sum_difficulty: agg_for(pre.ratings@, resource_id).sum_difficulty
                + request.difficulty as int,
            sum_quality: agg_for(pre.ratings@, resource_id).sum_quality + request.quality as int,
            sum_detail: agg_for(pre.ratings@, resource_id).sum_detail + request.detail as int,
        }),
    })
    &&& post.comments@ == pre.comments@
    &&& find_stats(post.stats@, resource_id) is Some
    &&& forall|r2: u128|
        r2 != resource_id ==> find_stats(post.stats@, r2) == find_stats(pre.stats@, r2)
}

/// A submit is refused exactly when a component is out of range, or — with
/// the identifier space spent — when it would have to create a new row.
pub open spec fn submit_refused(
    pre: EngagementStore,
    resource_id: u128,
    user_id: u128,
    request: CreateRatingRequest,
) -> bool {
    ||| !valid_request(request)
    ||| ((find_rating(pre.ratings@, resource_id, user_id) is None) && pre.next_id == u128::MAX)
}

/// Public operations over the rating relation and its statistics.
pub struct RatingService;

impl RatingService {
    /// Recomputes and rewrites (insert-or-replace) the statistics row of
    /// `resource_id` from the current rating rows, restoring aggregate
    /// consistency after a rating mutation. Idempotent: it is a function of
    /// the current rows alone, so a retry rewrites the same values.
    pub fn update_resource_stats(store: &mut EngagementStore, resource_id: u128) -> (result: Result<
        (),
        EngagementError,
    >)
        requires
            old(store).ratings_ok(),
            old(store).comments_ok(),
            old(store).stats_keys_ok(),
            forall|j: int|
                0 <= j < old(store).stats@.len() && (#[trigger] old(store).stats@[j]).resource_id
                    != resource_id ==> stats_row_matches(
                    old(store).stats@[j],
                    agg_for(old(store).ratings@, old(store).stats@[j].resource_id),
                ),
            forall|i: int|
                0 <= i < old(store).ratings@.len() && (#[trigger] old(
                    store,
                ).ratings@[i]).resource_id != resource_id ==> (find_stats(
                    old(store).stats@,
                    old(store).ratings@[i].resource_id,
                ) is Some),
        ensures
            final(store).wf(),
            result == Ok::<(), EngagementError>(()),
            final(store).ratings@ == old(store).ratings@,
            final(store).comments@ == old(store).comments@,
            final(store).next_id == old(store).next_id,
            find_stats(final(store).stats@, resource_id) is Some,
            forall|r2: u128|
                r2 != resource_id ==> find_stats(final(store).stats@, r2) == find_stats(
                    old(store).stats@,
                    r2,
                ),
    {
        let (count, sum_difficulty, sum_quality, sum_detail) = compute_agg(
            &store.ratings,
            resource_id,
        );
        let row = ResourceStats { resource_id, rating_count: count, sum_difficulty, sum_quality, sum_detail };
        let ghost old_stats = store.stats@;
        let ghost ratings = store.ratings@;
        match find_stats_index(&store.stats, resource_id) {
            Some(j) => {
                store.stats.set(j, row);
                proof {
                    assert forall|r2: u128| r2 != resource_id implies find_stats(
                        store.stats@,
                        r2,
                    ) == find_stats(old_stats, r2) by {
                        lemma_find_stats_update(old_stats, j as int, row, r2);
                    }
                    lemma_find_stats_update(old_stats, j as int, row, resource_id);
                    assert forall|j2: int|
                        0 <= j2 < store.stats@.len() implies stats_row_matches(
                        #[trigger] store.stats@[j2],
                        agg_for(ratings, store.stats@[j2].resource_id),
                    ) by {
                        if j2 != j as int {
                            assert(store.stats@[j2] == old_stats[j2]);
                            assert(old_stats[j2].resource_id != old_stats[j as int].resource_id);
                        }
                    }
                    assert forall|i: int|
                        0 <= i < store.ratings@.len() implies (find_stats(
                        store.stats@,
                        (#[trigger] store.ratings@[i]).resource_id,
                    ) is Some) by {
                        lemma_find_stats_update(
                            old_stats,
                            j as int,
                            row,
                            store.ratings@[i].resource_id,
                        );
                    }
                }
            },
            None => {
                store.stats.push(row);
                proof {
                    lemma_find_stats_none_covers(old_stats, resource_id);
                    assert forall|r2: u128| r2 != resource_id implies find_stats(
                        store.stats@,
                        r2,
                    ) == find_stats(old_stats, r2) by {
                        lemma_find_stats_push(old_stats, row, r2);
                    }
                    lemma_find_stats_push(old_stats, row, resource_id);
                    assert(forall|k: int|
                        0 <= k < old_stats.len() ==> #[trigger] store.stats@[k] == old_stats[k]);
                    assert forall|j2: int|
                        0 <= j2 < store.stats@.len() implies stats_row_matches(
                        #[trigger] store.stats@[j2],
                        agg_for(ratings, store.stats@[j2].resource_id),
                    ) by {
                        if j2 < old_stats.len() {
                            assert(store.stats@[j2] == old_stats[j2]);
                        }
                    }
                    assert forall|i: int|
                        0 <= i < store.ratings@.len() implies (find_stats(
                        store.stats@,
                        (#[trigger] store.ratings@[i]).resource_id,
                    ) is Some) by {
                        lemma_find_stats_push(old_stats, row, store.ratings@[i].resource_id);
                    }
                }
            },
        }
        Ok(())
    }

    /// Validates the components, upserts the `(resource_id, user_id)` rating
    /// row, recomputes the resource's statistics, and returns the written
    /// rating's view. `now` is the caller's storage timestamp for this
    /// mutation.
    pub fn create_or_update_rating(
        store: &mut EngagementStore,
        resource_id: u128,
        user_id: u128,
        request: CreateRatingRequest,
        now: i64,
    ) -> (result: Result<RatingResponse, EngagementError>)
        requires
            old(store).wf(),
        ensures
            final(store).wf(),
            old(store).next_id <= final(store).next_id <= old(store).next_id + 1,
            match result {
                Ok(response) => submit_ok(
                    *old(store),
                    *final(store),
                    resource_id,
                    user_id,
                    request,
                    now,
                    response,
                ),
                Err(e) => *final(store) == *old(store) && ((e == EngagementError::OutOfRange
                    && !valid_request(request)) || (e == EngagementError::Storage && valid_request(
                    request,
                ) && (find_rating(old(store).ratings@, resource_id, user_id) is None) && old(
                    store,
                ).next_id == u128::MAX)),
            },
            (result is Err) <==> submit_refused(*old(store), resource_id, user_id, request),
    {
        if request.difficulty < 1 || request.difficulty > 10 || request.quality < 1
            || request.quality > 10 || request.detail < 1 || request.detail > 10 {
            return Err(EngagementError::OutOfRange);
        }
        let ghost old_ratings = store.ratings@;
        match find_rating_index(&store.ratings, resource_id, user_id) {
            Some(i) => {
                let existing = store.ratings[i];
                let written = Rating {
                    difficulty: request.difficulty,
                    quality: request.quality,
                    detail: request.detail,
                    updated_at: now,
                    ..existing
                };
                store.ratings.set(i, written);
                proof {
                    assert forall|r2: u128, u2: u128|
                        !(r2 == resource_id && u2 == user_id) implies find_rating(
                        store.ratings@,
                        r2,
                        u2,
                    ) == find_rating(old_ratings, r2, u2) by {
                        lemma_find_rating_update(
                            old_ratings,
                            i as int,
                            written,
                            resource_id,
                            user_id,
                            r2,
                            u2,
                        );
                    }
                    lemma_find_rating_update(
                        old_ratings,
                        i as int,
                        written,
                        resource_id,
                        user_id,
                        resource_id,
                        user_id,
                    );
                    assert forall|r2: u128| r2 != resource_id implies agg_for(
                        store.ratings@,
                        r2,
                    ) == agg_for(old_ratings, r2) by {
                        lemma_agg_update_other(old_ratings, i as int, written, r2);
                    }
                    lemma_agg_update_self(old_ratings, i as int, written, resource_id);
                    assert(forall|k: int|
                        0 <= k < old_ratings.len() && k != i as int
                            ==> #[trigger] store.ratings@[k] == old_ratings[k]);
                }
                Self::update_resource_stats(store, resource_id)?;
                Ok(RatingResponse::from(written))
            },
            None => {
                if store.next_id == u128::MAX {
                    return Err(EngagementError::Storage);
                }
                let id = store.next_id;
                store.next_id = store.next_id + 1;
                let written = Rating {
                    id,
                    resource_id,
                    user_id,
                    difficulty: request.difficulty,
                    quality: request.quality,
                    detail: request.detail,
                    created_at: now,
                    updated_at: now,
                };
                store.ratings.push(written);
                proof {
                    lemma_find_rating_none_covers(old_ratings, resource_id, user_id);
                    assert forall|r2: u128, u2: u128|
                        !(r2 == resource_id && u2 == user_id) implies find_rating(
                        store.ratings@,
                        r2,
                        u2,
                    ) == find_rating(old_ratings, r2, u2) by {
                        lemma_find_rating_push(old_ratings, written, r2, u2);
                    }
                    lemma_find_rating_push(old_ratings, written, resource_id, user_id);
                    assert forall|r2: u128| r2 != resource_id implies agg_for(
                        store.ratings@,
                        r2,
                    ) == agg_for(old_ratings, r2) by {
                        lemma_agg_push(old_ratings, written, r2);
                    }
                    lemma_agg_push(old_ratings, written, resource_id);
                    assert(forall|k: int|
                        0 <= k < old_ratings.len() ==> #[trigger] store.ratings@[k]
                            == old_ratings[k]);
                }
                Self::update_resource_stats(store, resource_id)?;
                Ok(RatingResponse::from(written))
            },
        }
    }

    /// The user's rating of the resource, or absence; absence is not an
    /// error.
    pub fn get_user_rating(store: &EngagementStore, resource_id: u128, user_id: u128) -> (result:
        Result<Option<RatingResponse>, EngagementError>)
        ensures
            result == Ok::<Option<RatingResponse>, EngagementError>(
                get_result(*store, resource_id, user_id),
            ),
    {
        match find_rating_index(&store.ratings, resource_id, user_id) {
            Some(i) => Ok(Some(RatingResponse::from(store.ratings[i]))),
            None => Ok(None),
        }
    }

    /// Deletes the user's rating of the resource — a no-op, not an error, if
    /// none exists — then recomputes the resource's statistics.
    pub fn delete_rating(store: &mut EngagementStore, resource_id: u128, user_id: u128) -> (result:
        Result<(), EngagementError>)
        requires
            old(store).wf(),
        ensures
            final(store).wf(),
            result == Ok::<(), EngagementError>(()),
            find_rating(final(store).ratings@, resource_id, user_id) is None,
            forall|r2: u128, u2: u128|
                !(r2 == resource_id && u2 == user_id) ==> find_rating(
                    final(store).ratings@,
                    r2,
                    u2,
                ) == find_rating(old(store).ratings@, r2, u2),
            forall|r2: u128|
                r2 != resource_id ==> agg_for(final(store).ratings@, r2) == agg_for(
                    old(store).ratings@,
                    r2,
                ),
            final(store).comments@ == old(store).comments@,
            final(store).next_id == old(store).next_id,
            find_stats(final(store).stats@, resource_id) is Some,
            forall|r2: u128|
                r2 != resource_id ==> find_stats(final(store).stats@, r2) == find_stats(
                    old(store).stats@,
                    r2,
                ),
            (find_rating(old(store).ratings@, resource_id, user_id) is None)
                ==> final(store).ratings@ == old(store).ratings@,
            find_rating(old(store).ratings@, resource_id, user_id) matches Some(o)
                ==> agg_for(final(store).ratings@, resource_id) == (Agg {
                count: agg_for(old(store).ratings@, resource_id).count - 1,
                sum_difficulty: agg_for(old(store).ratings@, resource_id).sum_difficulty
                    - o.difficulty as int,
                sum_quality: agg_for(old(store).ratings@, resource_id).sum_quality
                    - o.quality as int,
                sum_detail: agg_for(old(store).ratings@, resource_id).sum_detail
                    - o.detail as int,
            }),
    {
        let ghost old_ratings = store.ratings@;
        match find_rating_index(&store.ratings, resource_id, user_id) {
            Some(i) => {
                store.ratings.remove(i);
                proof {
                    assert forall|r2: u128, u2: u128|
                        !(r2 == resource_id && u2 == user_id) implies find_rating(
                        store.ratings@,
                        r2,
                        u2,
                    ) == find_rating(old_ratings, r2, u2) by {
                        lemma_find_rating_remove(old_ratings, i as int, r2, u2);
                    }
                    lemma_find_rating_remove(old_ratings, i as int, resource_id, user_id);
                    assert forall|r2: u128| r2 != resource_id implies agg_for(
                        store.ratings@,
                        r2,
                    ) == agg_for(old_ratings, r2) by {
                        lemma_agg_remove_other(old_ratings, i as int, r2);
                    }
                    lemma_agg_remove_self(old_ratings, i as int, resource_id);
                    old_ratings.remove_ensures(i as int);
                }
                Self::update_resource_stats(store, resource_id)
            },
            None => Self::update_resource_stats(store, resource_id),
        }
    }

    /// The resource's statistics: its row, or the zero-count view when the
    /// resource has never been rated. Always equal to the aggregate of the
    /// live rating rows.
    pub fn get_rating_summary(store: &EngagementStore, resource_id: u128) -> (result: Result<
        RatingSummary,
        EngagementError,
    >)
        requires
            store.wf(),
        ensures
            result == Ok::<RatingSummary, EngagementError>(summary_of(*store, resource_id)),
            summary_agrees(summary_of(*store, resource_id), agg_for(store.ratings@, resource_id)),
    {
        proof {
            lemma_summary_matches_agg(*store, resource_id);
        }
        match find_stats_index(&store.stats, resource_id) {
            Some(j) => {
                let row = store.stats[j];
                Ok(
                    RatingSummary {
                        rating_count: row.rating_count,
                        sum_difficulty: row.sum_difficulty,
                        sum_quality: row.sum_quality,
                        sum_detail: row.sum_detail,
                    },
                )
            },
            None => Ok(
                RatingSummary { rating_count: 0, sum_difficulty: 0, sum_quality: 0, sum_detail: 0 },
            ),
        }
    }
}

/// A caller-facing summary carries exactly an aggregate's count and sums.
pub open spec fn summary_agrees(summary: RatingSummary, a: Agg) -> bool {
    &&& summary.rating_count as int == a.count
    &&& summary.sum_difficulty as int == a.sum_difficulty
    &&& summary.sum_quality as int == a.sum_quality
    &&& summary.sum_detail as int == a.sum_detail
}

/// In a well-formed store the summary of any resource — present row or
/// zero-count view — equals the aggregate of its live rating rows.
pub proof fn lemma_summary_matches_agg(s: EngagementStore, resource_id: u128)
    requires
        s.wf(),
    ensures
        summary_agrees(summary_of(s, resource_id), agg_for(s.ratings@, resource_id)),
{
    if find_stats(s.stats@, resource_id) is Some {
        lemma_find_stats_some(s.stats@, resource_id);
    } else {
        lemma_find_stats_none_covers(s.stats@, resource_id);
        assert forall|i: int|
            0 <= i < s.ratings@.len() implies (#[trigger] s.ratings@[i]).resource_id
            != resource_id by {
            assert(find_stats(s.stats@, s.ratings@[i].resource_id) is Some);
        }
        lemma_agg_no_rows(s.ratings@, resource_id);
        assert(agg_for(s.ratings@, resource_id) == agg_zero());
    }
}

} // verus!
