use engagement::comment_service::CommentService;
use engagement::models::CommentOutcome;
use engagement::models::CreateRatingRequest;
use engagement::models::EngagementError;
use engagement::models::Rating;
use engagement::models::RatingResponse;
use engagement::rating_service::RatingService;
use engagement::store::EngagementStore;

fn request(difficulty: i32, quality: i32, detail: i32) -> CreateRatingRequest {
    CreateRatingRequest { difficulty, quality, detail }
}

#[test]
fn submit_then_get_returns_submitted_values() {
    let mut store = EngagementStore::new();
    let written = RatingService::create_or_update_rating(&mut store, 7, 1, request(3, 5, 9), 50)
        .unwrap();
    assert_eq!(written.resource_id, 7);
    assert_eq!(written.user_id, 1);
    assert_eq!(written.difficulty, 3);
    assert_eq!(written.quality, 5);
    assert_eq!(written.detail, 9);
    assert_eq!(written.created_at, 50);

    let got = RatingService::get_user_rating(&store, 7, 1).unwrap().unwrap();
    assert_eq!(got, written);
}

#[test]
fn resubmit_replaces_values_and_keeps_identity() {
    let mut store = EngagementStore::new();
    let first = RatingService::create_or_update_rating(&mut store, 7, 1, request(2, 2, 2), 100)
        .unwrap();
    let second = RatingService::create_or_update_rating(&mut store, 7, 1, request(9, 8, 7), 200)
        .unwrap();

    assert_eq!(store.ratings.len(), 1);
    assert_eq!(second.id, first.id);
    assert_eq!(second.created_at, 100);

    let got = RatingService::get_user_rating(&store, 7, 1).unwrap().unwrap();
    assert_eq!(got.difficulty, 9);
    assert_eq!(got.quality, 8);
    assert_eq!(got.detail, 7);
    assert_eq!(got.created_at, 100);
}

#[test]
fn summary_example_scenario() {
    let mut store = EngagementStore::new();
    let user_a: u128 = 1;
    let user_b: u128 = 2;
    RatingService::create_or_update_rating(&mut store, 7, user_a, request(8, 6, 7), 10).unwrap();
    RatingService::create_or_update_rating(&mut store, 7, user_b, request(4, 4, 5), 20).unwrap();

    let summary = RatingService::get_rating_summary(&store, 7).unwrap();
    assert_eq!(summary.rating_count, 2);
    assert_eq!(summary.sum_difficulty, 12);
    assert_eq!(summary.sum_quality, 10);
    assert_eq!(summary.sum_detail, 12);
    let count = summary.rating_count as f64;
    assert_eq!(summary.sum_difficulty as f64 / count, 6.0);
    assert_eq!(summary.sum_quality as f64 / count, 5.0);
    assert_eq!(summary.sum_detail as f64 / count, 6.0);

    RatingService::delete_rating(&mut store, 7, user_a).unwrap();
    let after = RatingService::get_rating_summary(&store, 7).unwrap();
    assert_eq!(after.rating_count, 1);
    assert_eq!(after.sum_difficulty as f64 / after.rating_count as f64, 4.0);
    assert_eq!(after.sum_quality as f64 / after.rating_count as f64, 4.0);
    assert_eq!(after.sum_detail as f64 / after.rating_count as f64, 5.0);
}

#[test]
fn summary_counts_only_the_requested_resource() {
    let mut store = EngagementStore::new();
    RatingService::create_or_update_rating(&mut store, 1, 1, request(10, 10, 10), 5).unwrap();
    RatingService::create_or_update_rating(&mut store, 2, 1, request(1, 1, 1), 6).unwrap();

    let one = RatingService::get_rating_summary(&store, 1).unwrap();
    assert_eq!(one.rating_count, 1);
    assert_eq!(one.sum_difficulty, 10);
    let two = RatingService::get_rating_summary(&store, 2).unwrap();
    assert_eq!(two.rating_count, 1);
    assert_eq!(two.sum_difficulty, 1);
}

#[test]
fn out_of_range_component_is_rejected_without_effect() {
    let mut store = EngagementStore::new();
    for bad in [
        request(0, 5, 5),
        request(11, 5, 5),
        request(5, 0, 5),
        request(5, 11, 5),
        request(5, 5, 0),
        request(5, 5, 11),
    ] {
        let result = RatingService::create_or_update_rating(&mut store, 7, 1, bad, 30);
        assert_eq!(result, Err(EngagementError::OutOfRange));
    }
    assert_eq!(store.ratings.len(), 0);
    assert_eq!(RatingService::get_user_rating(&store, 7, 1).unwrap(), None);
    let summary = RatingService::get_rating_summary(&store, 7).unwrap();
    assert_eq!(summary.rating_count, 0);
    assert_eq!(summary.sum_difficulty, 0);
}

#[test]
fn out_of_range_resubmission_keeps_the_stored_rating() {
    let mut store = EngagementStore::new();
    RatingService::create_or_update_rating(&mut store, 7, 1, request(6, 6, 6), 40).unwrap();
    let result = RatingService::create_or_update_rating(&mut store, 7, 1, request(0, 6, 6), 41);
    assert_eq!(result, Err(EngagementError::OutOfRange));

    let got = RatingService::get_user_rating(&store, 7, 1).unwrap().unwrap();
    assert_eq!(got.difficulty, 6);
    let summary = RatingService::get_rating_summary(&store, 7).unwrap();
    assert_eq!(summary.rating_count, 1);
    assert_eq!(summary.sum_difficulty, 6);
}

#[test]
fn delete_missing_rating_is_a_noop() {
    let mut store = EngagementStore::new();
    RatingService::create_or_update_rating(&mut store, 1, 1, request(7, 7, 7), 15).unwrap();

    RatingService::delete_rating(&mut store, 2, 9).unwrap();

    assert_eq!(store.ratings.len(), 1);
    let untouched = RatingService::get_rating_summary(&store, 1).unwrap();
    assert_eq!(untouched.rating_count, 1);
    assert_eq!(untouched.sum_difficulty, 7);
    let missing = RatingService::get_rating_summary(&store, 2).unwrap();
    assert_eq!(missing.rating_count, 0);
}

#[test]
fn summary_of_never_rated_resource_is_the_zero_view() {
    let store = EngagementStore::new();
    let summary = RatingService::get_rating_summary(&store, 42).unwrap();
    assert_eq!(summary.rating_count, 0);
    assert_eq!(summary.sum_difficulty, 0);
    assert_eq!(summary.sum_quality, 0);
    assert_eq!(summary.sum_detail, 0);
}

#[test]
fn comment_deleted_by_its_author() {
    let mut store = EngagementStore::new();
    let comment_id = store.add_comment(7, 1).unwrap();
    let outcome = CommentService::delete_comment(&mut store, comment_id, 1, false).unwrap();
    assert_eq!(outcome, CommentOutcome::Deleted);
    assert_eq!(store.comments.len(), 0);
}

#[test]
fn comment_deletion_by_stranger_is_forbidden_without_effect() {
    let mut store = EngagementStore::new();
    let comment_id = store.add_comment(7, 1).unwrap();
    let outcome = CommentService::delete_comment(&mut store, comment_id, 2, false).unwrap();
    assert_eq!(outcome, CommentOutcome::Forbidden);
    assert_eq!(store.comments.len(), 1);
    assert_eq!(store.comments[0].id, comment_id);
}

#[test]
fn comment_deleted_by_admin_who_is_not_the_author() {
    let mut store = EngagementStore::new();
    let comment_id = store.add_comment(7, 1).unwrap();
    let outcome = CommentService::delete_comment(&mut store, comment_id, 2, true).unwrap();
    assert_eq!(outcome, CommentOutcome::Deleted);
    assert_eq!(store.comments.len(), 0);
}

#[test]
fn deleting_a_missing_comment_is_not_found() {
    let mut store = EngagementStore::new();
    let result = CommentService::delete_comment(&mut store, 99, 1, true);
    assert_eq!(result, Err(EngagementError::NotFound));
}

#[test]
fn deleting_one_comment_leaves_the_others() {
    let mut store = EngagementStore::new();
    let first = store.add_comment(7, 1).unwrap();
    let second = store.add_comment(7, 2).unwrap();
    assert_ne!(first, second);
    CommentService::delete_comment(&mut store, first, 1, false).unwrap();
    assert_eq!(store.comments.len(), 1);
    assert_eq!(store.comments[0].id, second);
}

#[test]
fn rating_response_keeps_every_field_of_the_row() {
    let row = Rating {
        id: 3,
        resource_id: 7,
        user_id: 1,
        difficulty: 8,
        quality: 6,
        detail: 7,
        created_at: 10,
        updated_at: 20,
    };
    let view = RatingResponse::from(row);
    assert_eq!(view.id, 3);
    assert_eq!(view.resource_id, 7);
    assert_eq!(view.user_id, 1);
    assert_eq!(view.difficulty, 8);
    assert_eq!(view.quality, 6);
    assert_eq!(view.detail, 7);
    assert_eq!(view.created_at, 10);
}
