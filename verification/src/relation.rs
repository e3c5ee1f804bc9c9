//! Spec-level reading of the three relations: slot lookup in the rating
//! relation, key lookup in the statistics and comment relations, and the
//! aggregate of a resource's rating rows, with the lemmas that say how each
//! reading moves under a row update, push, or removal.

use vstd::prelude::*;

use crate::models::Comment;
use crate::models::Rating;
use crate::models::ResourceStats;

verus! {

/// Whether a rating row occupies the `(resource_id, user_id)` slot.
pub open spec fn key_matches(r: Rating, resource_id: u128, user_id: u128) -> bool {
    r.resource_id == resource_id && r.user_id == user_id
}

/// The rating row occupying the `(resource_id, user_id)` slot, if any.
/// Reads from the back; with unique slots the direction is immaterial.
pub open spec fn find_rating(s: Seq<Rating>, resource_id: u128, user_id: u128) -> Option<Rating>
    decreases s.len(),
{
    if s.len() == 0 {
        None
    } else if key_matches(s.last(), resource_id, user_id) {
        Some(s.last())
    } else {
        find_rating(s.drop_last(), resource_id, user_id)
    }
}

/// The statistics row of `resource_id`, if any.
pub open spec fn find_stats(s: Seq<ResourceStats>, resource_id: u128) -> Option<ResourceStats>
    decreases s.len(),
{
    if s.len() == 0 {
        None
    } else if s.last().resource_id == resource_id {
        Some(s.last())
    } else {
        find_stats(s.drop_last(), resource_id)
    }
}

/// The comment row with identifier `id`, if any.
pub open spec fn find_comment(s: Seq<Comment>, id: u128) -> Option<Comment>
    decreases s.len(),
{
    if s.len() == 0 {
        None
    } else if s.last().id == id {
        Some(s.last())
    } else {
        find_comment(s.drop_last(), id)
    }
}

/// The aggregate of a resource's rating rows: how many there are, and the
/// exact sum of each component over them.
pub ghost struct Agg {
    pub count: int,
    pub sum_difficulty: int,
    pub sum_quality: int,
    pub sum_detail: int,
}

/// The empty aggregate.
pub open spec fn agg_zero() -> Agg {
    Agg { count: 0, sum_difficulty: 0, sum_quality: 0, sum_detail: 0 }
}

/// The aggregate of the rows of `s` whose resource is `resource_id`.
pub open spec fn agg_for(s: Seq<Rating>, resource_id: u128) -> Agg
    decreases s.len(),
{
    if s.len() == 0 {
        agg_zero()
    } else {
        let rest = agg_for(s.drop_last(), resource_id);
        let r = s.last();
        if r.resource_id == resource_id {
            Agg {
                count: rest.count + 1,
                sum_difficulty: rest.sum_difficulty + r.difficulty as int,
                sum_quality: rest.sum_quality + r.quality as int,
                sum_detail: rest.sum_detail + r.detail as int,
            }
        } else {
            rest
        }
    }
}

/// A stored statistics row agrees with an aggregate.
pub open spec fn stats_row_matches(row: ResourceStats, a: Agg) -> bool {
    &&& row.rating_count as int == a.count
    &&& row.sum_difficulty as int == a.sum_difficulty
    &&& row.sum_quality as int == a.sum_quality
    &&& row.sum_detail as int == a.sum_detail
}

/// No two rating rows occupy the same `(resource_id, user_id)` slot.
pub open spec fn unique_rating_keys(s: Seq<Rating>) -> bool {
    forall|i: int, j: int| #![trigger s[i], s[j]]
        0 <= i < j < s.len() ==> !key_matches(s[i], s[j].resource_id, s[j].user_id)
}

/// No two statistics rows describe the same resource.
pub open spec fn unique_stats_keys(s: Seq<ResourceStats>) -> bool {
    forall|i: int, j: int| #![trigger s[i], s[j]]
        0 <= i < j < s.len() ==> s[i].resource_id != s[j].resource_id
}

/// No two comment rows carry the same identifier.
pub open spec fn unique_comment_ids(s: Seq<Comment>) -> bool {
    forall|i: int, j: int| #![trigger s[i], s[j]]
        0 <= i < j < s.len() ==> s[i].id != s[j].id
}

/// The users holding a rating for `resource_id` in `s`.
pub open spec fn users_with_rating(s: Seq<Rating>, resource_id: u128) -> Set<u128>
    decreases s.len(),
{
    if s.len() == 0 {
        Set::empty()
    } else {
        let rest = users_with_rating(s.drop_last(), resource_id);
        if s.last().resource_id == resource_id {
            rest.insert(s.last().user_id)
        } else {
            rest
        }
    }
}

/// An empty slot means no row occupies it.
pub proof fn lemma_find_rating_none_covers(s: Seq<Rating>, resource_id: u128, user_id: u128)
    requires
        find_rating(s, resource_id, user_id) is None,
    ensures
        forall|i: int| 0 <= i < s.len() ==> !key_matches(#[trigger] s[i], resource_id, user_id),
    decreases s.len(),
{
    if s.len() == 0 {
    } else {
        lemma_find_rating_none_covers(s.drop_last(), resource_id, user_id);
        assert(s[s.len() - 1] == s.last());
        assert forall|i: int|
            0 <= i < s.len() implies !key_matches(#[trigger] s[i], resource_id, user_id) by {
            if i < s.len() - 1 {
                assert(s.drop_last()[i] == s[i]);
            }
        }
    }
}

/// A slot no row occupies is empty.
pub proof fn lemma_find_rating_from_no_match(s: Seq<Rating>, resource_id: u128, user_id: u128)
    requires
        forall|i: int| 0 <= i < s.len() ==> !key_matches(#[trigger] s[i], resource_id, user_id),
    ensures
        find_rating(s, resource_id, user_id) is None,
    decreases s.len(),
{
    if s.len() == 0 {
    } else {
        assert(s[s.len() - 1] == s.last());
        assert forall|i: int|
            0 <= i < s.drop_last().len() implies !key_matches(
            #[trigger] s.drop_last()[i],
            resource_id,
            user_id,
        ) by {
            assert(s.drop_last()[i] == s[i]);
        }
        lemma_find_rating_from_no_match(s.drop_last(), resource_id, user_id);
    }
}

/// An occupied slot is occupied by an actual row of the relation.
pub proof fn lemma_find_rating_some(s: Seq<Rating>, resource_id: u128, user_id: u128)
    requires
        find_rating(s, resource_id, user_id) is Some,
    ensures
        key_matches(find_rating(s, resource_id, user_id)->0, resource_id, user_id),
        exists|i: int|
            0 <= i < s.len() && #[trigger] s[i] == find_rating(s, resource_id, user_id)->0,
    decreases s.len(),
{
    if key_matches(s.last(), resource_id, user_id) {
        assert(s[s.len() - 1] == s.last());
    } else {
        lemma_find_rating_some(s.drop_last(), resource_id, user_id);
        let r = find_rating(s, resource_id, user_id)->0;
        let i = choose|i: int| 0 <= i < s.drop_last().len() && #[trigger] s.drop_last()[i] == r;
        assert(s[i] == r);
    }
}

/// Appending a row fills its own slot and leaves every other slot as it was.
pub proof fn lemma_find_rating_push(s: Seq<Rating>, v: Rating, resource_id: u128, user_id: u128)
    ensures
        find_rating(s.push(v), resource_id, user_id) == (if key_matches(v, resource_id, user_id) {
            Some(v)
        } else {
            find_rating(s, resource_id, user_id)
        }),
{
    assert(s.push(v).last() == v);
    assert(s.push(v).drop_last() =~= s);
}

/// Replacing the row of a slot in place refills that slot and leaves every
/// other slot as it was.
pub proof fn lemma_find_rating_update(
    s: Seq<Rating>,
    i: int,
    v: Rating,
    resource_id: u128,
    user_id: u128,
    q_resource: u128,
    q_user: u128,
)
    requires
        unique_rating_keys(s),
        0 <= i < s.len(),
        key_matches(s[i], resource_id, user_id),
        key_matches(v, resource_id, user_id),
    ensures
        find_rating(s.update(i, v), q_resource, q_user) == (if q_resource == resource_id
            && q_user == user_id {
            Some(v)
        } else {
            find_rating(s, q_resource, q_user)
        }),
    decreases s.len(),
{
    let t = s.update(i, v);
    assert(s[s.len() - 1] == s.last());
    if i == s.len() - 1 {
        assert(t.last() == v);
        assert(t.drop_last() =~= s.drop_last());
    } else {
        assert(t.last() == s.last());
        assert(t.drop_last() =~= s.drop_last().update(i, v));
        lemma_unique_rating_keys_drop_last(s);
        assert(s.drop_last()[i] == s[i]);
        lemma_find_rating_update(s.drop_last(), i, v, resource_id, user_id, q_resource, q_user);
        // `s[i]` and the last row occupy distinct slots, so the last row does
        // not occupy `(resource_id, user_id)`.
        assert(!key_matches(s[i], s.last().resource_id, s.last().user_id));
    }
}

/// With unique slots, dropping the last row keeps the slots unique.
pub proof fn lemma_unique_rating_keys_drop_last(s: Seq<Rating>)
    requires
        s.len() > 0,
        unique_rating_keys(s),
    ensures
        unique_rating_keys(s.drop_last()),
{
    assert forall|i: int, j: int| #![trigger s.drop_last()[i], s.drop_last()[j]]
        0 <= i < j < s.drop_last().len() implies !key_matches(
        s.drop_last()[i],
        s.drop_last()[j].resource_id,
        s.drop_last()[j].user_id,
    ) by {
        assert(s.drop_last()[i] == s[i]);
        assert(s.drop_last()[j] == s[j]);
    }
}

/// Removing the row of a slot empties that slot and leaves every other slot
/// as it was.
pub proof fn lemma_find_rating_remove(s: Seq<Rating>, i: int, q_resource: u128, q_user: u128)
    requires
        unique_rating_keys(s),
        0 <= i < s.len(),
    ensures
        find_rating(s.remove(i), q_resource, q_user) == (if key_matches(s[i], q_resource, q_user) {
            None::<Rating>
        } else {
            find_rating(s, q_resource, q_user)
        }),
    decreases s.len(),
{
    let t = s.remove(i);
    assert(s[s.len() - 1] == s.last());
    if i == s.len() - 1 {
        assert(t =~= s.drop_last());
        if key_matches(s[i], q_resource, q_user) {
            assert forall|k: int|
                0 <= k < s.drop_last().len() implies !key_matches(
                #[trigger] s.drop_last()[k],
                q_resource,
                q_user,
            ) by {
                assert(s.drop_last()[k] == s[k]);
                // Rows `k` and `i` would otherwise occupy the same slot.
                assert(!key_matches(s[k], s[i].resource_id, s[i].user_id));
            }
            lemma_find_rating_from_no_match(s.drop_last(), q_resource, q_user);
        }
    } else {
        assert(t.last() == s[s.len() - 1]);
        assert(t.drop_last() =~= s.drop_last().remove(i));
        lemma_unique_rating_keys_drop_last(s);
        assert(s.drop_last()[i] == s[i]);
        lemma_find_rating_remove(s.drop_last(), i, q_resource, q_user);
        assert(!key_matches(s[i], s.last().resource_id, s.last().user_id));
    }
}

/// A resource without a statistics row keys no row of the relation.
pub proof fn lemma_find_stats_none_covers(s: Seq<ResourceStats>, resource_id: u128)
    requires
        find_stats(s, resource_id) is None,
    ensures
        forall|i: int| 0 <= i < s.len() ==> #[trigger] s[i].resource_id != resource_id,
    decreases s.len(),
{
    if s.len() == 0 {
    } else {
        lemma_find_stats_none_covers(s.drop_last(), resource_id);
        assert(s[s.len() - 1] == s.last());
        assert forall|i: int|
            0 <= i < s.len() implies #[trigger] s[i].resource_id != resource_id by {
            if i < s.len() - 1 {
                assert(s.drop_last()[i] == s[i]);
            }
        }
    }
}

/// A present statistics row is an actual row of the relation.
pub proof fn lemma_find_stats_some(s: Seq<ResourceStats>, resource_id: u128)
    requires
        find_stats(s, resource_id) is Some,
    ensures
        find_stats(s, resource_id)->0.resource_id == resource_id,
        exists|i: int| 0 <= i < s.len() && #[trigger] s[i] == find_stats(s, resource_id)->0,
    decreases s.len(),
{
    if s.last().resource_id == resource_id {
        assert(s[s.len() - 1] == s.last());
    } else {
        lemma_find_stats_some(s.drop_last(), resource_id);
        let r = find_stats(s, resource_id)->0;
        let i = choose|i: int| 0 <= i < s.drop_last().len() && #[trigger] s.drop_last()[i] == r;
        assert(s[i] == r);
    }
}

/// Appending a statistics row binds its resource and leaves every other
/// resource's row as it was.
pub proof fn lemma_find_stats_push(s: Seq<ResourceStats>, v: ResourceStats, q: u128)
    ensures
        find_stats(s.push(v), q) == (if q == v.resource_id {
            Some(v)
        } else {
            find_stats(s, q)
        }),
{
    assert(s.push(v).last() == v);
    assert(s.push(v).drop_last() =~= s);
}

/// With unique resources, dropping the last statistics row keeps them
/// unique.
pub proof fn lemma_unique_stats_keys_drop_last(s: Seq<ResourceStats>)
    requires
        s.len() > 0,
        unique_stats_keys(s),
    ensures
        unique_stats_keys(s.drop_last()),
{
    assert forall|i: int, j: int| #![trigger s.drop_last()[i], s.drop_last()[j]]
        0 <= i < j < s.drop_last().len() implies s.drop_last()[i].resource_id
        != s.drop_last()[j].resource_id by {
        assert(s.drop_last()[i] == s[i]);
        assert(s.drop_last()[j] == s[j]);
    }
}

/// Rewriting a resource's statistics row in place rebinds that resource and
/// leaves every other resource's row as it was.
pub proof fn lemma_find_stats_update(s: Seq<ResourceStats>, i: int, v: ResourceStats, q: u128)
    requires
        unique_stats_keys(s),
        0 <= i < s.len(),
        s[i].resource_id == v.resource_id,
    ensures
        find_stats(s.update(i, v), q) == (if q == v.resource_id {
            Some(v)
        } else {
            find_stats(s, q)
        }),
    decreases s.len(),
{
    let t = s.update(i, v);
    assert(s[s.len() - 1] == s.last());
    if i == s.len() - 1 {
        assert(t.last() == v);
        assert(t.drop_last() =~= s.drop_last());
    } else {
        assert(t.last() == s.last());
        assert(t.drop_last() =~= s.drop_last().update(i, v));
        lemma_unique_stats_keys_drop_last(s);
        assert(s.drop_last()[i] == s[i]);
        lemma_find_stats_update(s.drop_last(), i, v, q);
        assert(s[i].resource_id != s.last().resource_id);
    }
}

/// An identifier no comment row carries names no row.
pub proof fn lemma_find_comment_from_no_match(s: Seq<Comment>, id: u128)
    requires
        forall|i: int| 0 <= i < s.len() ==> #[trigger] s[i].id != id,
    ensures
        find_comment(s, id) is None,
    decreases s.len(),
{
    if s.len() == 0 {
    } else {
        assert(s[s.len() - 1] == s.last());
        assert forall|i: int|
            0 <= i < s.drop_last().len() implies #[trigger] s.drop_last()[i].id != id by {
            assert(s.drop_last()[i] == s[i]);
        }
        lemma_find_comment_from_no_match(s.drop_last(), id);
    }
}

/// With unique identifiers, dropping the last comment row keeps them unique.
pub proof fn lemma_unique_comment_ids_drop_last(s: Seq<Comment>)
    requires
        s.len() > 0,
        unique_comment_ids(s),
    ensures
        unique_comment_ids(s.drop_last()),
{
    assert forall|i: int, j: int| #![trigger s.drop_last()[i], s.drop_last()[j]]
        0 <= i < j < s.drop_last().len() implies s.drop_last()[i].id != s.drop_last()[j].id by {
        assert(s.drop_last()[i] == s[i]);
        assert(s.drop_last()[j] == s[j]);
    }
}

/// Appending a comment binds its identifier and leaves every other
/// identifier's row as it was.
pub proof fn lemma_find_comment_push(s: Seq<Comment>, v: Comment, q: u128)
    ensures
        find_comment(s.push(v), q) == (if q == v.id {
            Some(v)
        } else {
            find_comment(s, q)
        }),
{
    assert(s.push(v).last() == v);
    assert(s.push(v).drop_last() =~= s);
}

/// Removing a comment row unbinds its identifier and leaves every other
/// identifier's row as it was.
pub proof fn lemma_find_comment_remove(s: Seq<Comment>, i: int, q: u128)
    requires
        unique_comment_ids(s),
        0 <= i < s.len(),
    ensures
        find_comment(s.remove(i), q) == (if s[i].id == q {
            None::<Comment>
        } else {
            find_comment(s, q)
        }),
    decreases s.len(),
{
    let t = s.remove(i);
    assert(s[s.len() - 1] == s.last());
    if i == s.len() - 1 {
        assert(t =~= s.drop_last());
        if s[i].id == q {
            assert forall|k: int|
                0 <= k < s.drop_last().len() implies #[trigger] s.drop_last()[k].id != q by {
                assert(s.drop_last()[k] == s[k]);
                assert(s[k].id != s[i].id);
            }
            lemma_find_comment_from_no_match(s.drop_last(), q);
        }
    } else {
        assert(t.last() == s[s.len() - 1]);
        assert(t.drop_last() =~= s.drop_last().remove(i));
        lemma_unique_comment_ids_drop_last(s);
        assert(s.drop_last()[i] == s[i]);
        lemma_find_comment_remove(s.drop_last(), i, q);
        assert(s[i].id != s.last().id);
    }
}

/// Appending a rating row adds its contribution to its own resource's
/// aggregate and leaves every other resource's aggregate as it was.
pub proof fn lemma_agg_push(s: Seq<Rating>, v: Rating, resource_id: u128)
    ensures
        agg_for(s.push(v), resource_id) == (if v.resource_id == resource_id {
            (Agg {
                count: agg_for(s, resource_id).count + 1,
                sum_difficulty: agg_for(s, resource_id).sum_difficulty + v.difficulty as int,
                sum_quality: agg_for(s, resource_id).sum_quality + v.quality as int,
                sum_detail: agg_for(s, resource_id).sum_detail + v.detail as int,
            })
        } else {
            agg_for(s, resource_id)
        }),
{
    assert(s.push(v).last() == v);
    assert(s.push(v).drop_last() =~= s);
}

/// Replacing a row of another resource leaves this resource's aggregate as
/// it was.
pub proof fn lemma_agg_update_other(s: Seq<Rating>, i: int, v: Rating, resource_id: u128)
    requires
        0 <= i < s.len(),
        s[i].resource_id != resource_id,
        v.resource_id != resource_id,
    ensures
        agg_for(s.update(i, v), resource_id) == agg_for(s, resource_id),
    decreases s.len(),
{
    let t = s.update(i, v);
    assert(s[s.len() - 1] == s.last());
    if i == s.len() - 1 {
        assert(t.last() == v);
        assert(t.drop_last() =~= s.drop_last());
    } else {
        assert(t.last() == s.last());
        assert(t.drop_last() =~= s.drop_last().update(i, v));
        assert(s.drop_last()[i] == s[i]);
        lemma_agg_update_other(s.drop_last(), i, v, resource_id);
    }
}

/// Replacing a row of this resource swaps its contribution in the
/// aggregate, keeping the count.
pub proof fn lemma_agg_update_self(s: Seq<Rating>, i: int, v: Rating, resource_id: u128)
    requires
        0 <= i < s.len(),
        s[i].resource_id == resource_id,
        v.resource_id == resource_id,
    ensures
        agg_for(s.update(i, v), resource_id) == (Agg {
            count: agg_for(s, resource_id).count,
            sum_difficulty: agg_for(s, resource_id).sum_difficulty - s[i].difficulty as int
                + v.difficulty as int,
            sum_quality: agg_for(s, resource_id).sum_quality - s[i].quality as int
                + v.quality as int,
            sum_detail: agg_for(s, resource_id).sum_detail - s[i].detail as int + v.detail as int,
        }),
    decreases s.len(),
{
    let t = s.update(i, v);
    assert(s[s.len() - 1] == s.last());
    if i == s.len() - 1 {
        assert(t.last() == v);
        assert(t.drop_last() =~= s.drop_last());
    } else {
        assert(t.last() == s.last());
        assert(t.drop_last() =~= s.drop_last().update(i, v));
        assert(s.drop_last()[i] == s[i]);
        lemma_agg_update_self(s.drop_last(), i, v, resource_id);
    }
}

/// Removing a row of this resource subtracts its contribution from the
/// aggregate.
pub proof fn lemma_agg_remove_self(s: Seq<Rating>, i: int, resource_id: u128)
    requires
        0 <= i < s.len(),
        s[i].resource_id == resource_id,
    ensures
        agg_for(s.remove(i), resource_id) == (Agg {
            count: agg_for(s, resource_id).count - 1,
            sum_difficulty: agg_for(s, resource_id).sum_difficulty - s[i].difficulty as int,
            sum_quality: agg_for(s, resource_id).sum_quality - s[i].quality as int,
            sum_detail: agg_for(s, resource_id).sum_detail - s[i].detail as int,
        }),
    decreases s.len(),
{
    let t = s.remove(i);
    assert(s[s.len() - 1] == s.last());
    if i == s.len() - 1 {
        assert(t =~= s.drop_last());
    } else {
        assert(t.last() == s[s.len() - 1]);
        assert(t.drop_last() =~= s.drop_last().remove(i));
        assert(s.drop_last()[i] == s[i]);
        lemma_agg_remove_self(s.drop_last(), i, resource_id);
    }
}

/// Removing a row of another resource leaves this resource's aggregate as
/// it was.
pub proof fn lemma_agg_remove_other(s: Seq<Rating>, i: int, resource_id: u128)
    requires
        0 <= i < s.len(),
        s[i].resource_id != resource_id,
    ensures
        agg_for(s.remove(i), resource_id) == agg_for(s, resource_id),
    decreases s.len(),
{
    let t = s.remove(i);
    assert(s[s.len() - 1] == s.last());
    if i == s.len() - 1 {
        assert(t =~= s.drop_last());
    } else {
        assert(t.last() == s[s.len() - 1]);
        assert(t.drop_last() =~= s.drop_last().remove(i));
        assert(s.drop_last()[i] == s[i]);
        lemma_agg_remove_other(s.drop_last(), i, resource_id);
    }
}

/// A resource no row names has the empty aggregate.
pub proof fn lemma_agg_no_rows(s: Seq<Rating>, resource_id: u128)
    requires
        forall|i: int| 0 <= i < s.len() ==> #[trigger] s[i].resource_id != resource_id,
    ensures
        agg_for(s, resource_id) == agg_zero(),
    decreases s.len(),
{
    if s.len() == 0 {
    } else {
        assert(s[s.len() - 1] == s.last());
        assert(forall|i: int| 0 <= i < s.len() - 1 ==> #[trigger] s.drop_last()[i] == s[i]);
        lemma_agg_no_rows(s.drop_last(), resource_id);
    }
}

/// A user holds a rating for a resource exactly when that slot is occupied.
pub proof fn lemma_users_contains(s: Seq<Rating>, resource_id: u128, user_id: u128)
    ensures
        users_with_rating(s, resource_id).contains(user_id) <==> (find_rating(
            s,
            resource_id,
            user_id,
        ) is Some),
    decreases s.len(),
{
    if s.len() == 0 {
        assert(!Set::<u128>::empty().contains(user_id));
    } else {
        lemma_users_contains(s.drop_last(), resource_id, user_id);
    }
}

/// With unique slots, the aggregate's count is the number of users holding
/// a rating for the resource.
pub proof fn lemma_agg_count_is_users(s: Seq<Rating>, resource_id: u128)
    requires
        unique_rating_keys(s),
    ensures
        users_with_rating(s, resource_id).finite(),
        agg_for(s, resource_id).count == users_with_rating(s, resource_id).len(),
    decreases s.len(),
{
    if s.len() == 0 {
    } else {
        lemma_unique_rating_keys_drop_last(s);
        lemma_agg_count_is_users(s.drop_last(), resource_id);
        let last = s.last();
        assert(s[s.len() - 1] == s.last());
        if last.resource_id == resource_id {
            let rest = users_with_rating(s.drop_last(), resource_id);
            if rest.contains(last.user_id) {
                lemma_users_contains(s.drop_last(), resource_id, last.user_id);
                lemma_find_rating_some(s.drop_last(), resource_id, last.user_id);
                let r = find_rating(s.drop_last(), resource_id, last.user_id)->0;
                let i = choose|i: int|
                    0 <= i < s.drop_last().len() && #[trigger] s.drop_last()[i] == r;
                // Row `i` and the last row would occupy the same slot.
                assert(key_matches(s[i], s[s.len() - 1].resource_id, s[s.len() - 1].user_id));
                assert(false);
            }
            vstd::set::axiom_set_insert_len(rest, last.user_id);
        }
    }
}

} // verus!
