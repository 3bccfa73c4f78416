use boosty_gate::decision::{
    chunk_ids, evaluate_search, join_verdict, page_has_paid, process_link, profile_status,
    should_kick, sweep_lapsed, DeclineReason, MemberRole, ProfileStatus, Verdict,
    THIRTY_DAYS_SECS,
};
use boosty_gate::subscribers::{ApiError, BasicSubscriber, Subscriber, SubscriptionLevel};
use boosty_gate::users::{LinkError, LinkStore, User};

fn record(boosty_id: u64, email: &str, subscribed: bool, price: u64, on_time: u64) -> Subscriber {
    Subscriber {
        can_write: true,
        is_black_listed: false,
        level: SubscriptionLevel {
            created_at: 0,
            currency_prices: vec![],
            deleted: false,
            id: 1,
            is_archived: false,
            name: "Tier".to_string(),
            owner_id: 2,
            price,
        },
        on_time,
        payments: 0,
        price,
        subscribed,
        basic_info: BasicSubscriber {
            avatar_url: "".to_string(),
            email: email.to_string(),
            has_avatar: false,
            id: boosty_id,
            name: "Name".to_string(),
        },
    }
}

fn candidate(id: u64, email: &str) -> BasicSubscriber {
    BasicSubscriber {
        avatar_url: "".to_string(),
        email: email.to_string(),
        has_avatar: false,
        id,
        name: "Name".to_string(),
    }
}

fn linked_store(pairs: &[(i64, u64)]) -> LinkStore {
    let mut store = LinkStore::new();
    for &(id, boosty_id) in pairs {
        store.create_user(User { id, boosty_id, expires_at: 0 }).unwrap();
    }
    store
}

#[test]
fn unlinked_join_is_declined_even_with_paid_page() {
    let store = LinkStore::new();
    let page = vec![record(7, "a@b.com", true, 500, 0)];
    assert_eq!(
        join_verdict(&store, 1, Ok(&page)),
        Verdict::Decline(DeclineReason::NotLinked)
    );
    assert_eq!(join_verdict(&store, 1, Err(ApiError::Transport)), Verdict::Decline(DeclineReason::NotLinked));
}

#[test]
fn failed_lookup_declines_join() {
    let store = linked_store(&[(1, 7)]);
    assert_eq!(join_verdict(&store, 1, Err(ApiError::Transport)), Verdict::Decline(DeclineReason::LookupFailed));
}

#[test]
fn empty_page_declines_join() {
    let store = linked_store(&[(1, 7)]);
    let page: Vec<Subscriber> = vec![];
    assert_eq!(
        join_verdict(&store, 1, Ok(&page)),
        Verdict::Decline(DeclineReason::LookupFailed)
    );
}

#[test]
fn lapsed_subscription_declines_join() {
    let store = linked_store(&[(1, 7)]);
    let page = vec![record(7, "a@b.com", true, 0, 0)];
    assert_eq!(join_verdict(&store, 1, Ok(&page)), Verdict::Decline(DeclineReason::Lapsed));
}

#[test]
fn paid_linked_join_is_approved() {
    let store = linked_store(&[(1, 7)]);
    let page = vec![record(7, "a@b.com", true, 500, 0)];
    assert_eq!(join_verdict(&store, 1, Ok(&page)), Verdict::Approve);
}

#[test]
fn search_matches_exact_last_candidate() {
    let query = "a@b.com".to_string();
    let candidates = vec![candidate(3, "other@b.com"), candidate(7, "a@b.com")];
    assert_eq!(evaluate_search(&query, &candidates), Some(7));
}

#[test]
fn search_without_verbatim_match_yields_none() {
    let query = "A@b.com".to_string();
    let candidates = vec![candidate(7, "a@b.com")];
    assert_eq!(evaluate_search(&query, &candidates), None);
}

#[test]
fn search_with_no_candidates_yields_none() {
    let query = "a@b.com".to_string();
    assert_eq!(evaluate_search(&query, &vec![]), None);
}

#[test]
fn exact_match_paid_subscriber_links_and_approves() {
    let mut store = LinkStore::new();
    let page = vec![record(7, "a@b.com", true, 500, 1_000)];
    let verdict = process_link(&mut store, 42, Ok(&page));
    assert_eq!(verdict, Verdict::Approve);
    let link = store.get_user(42).unwrap();
    assert_eq!(link.boosty_id, 7);
    assert_eq!(link.expires_at, 1_000 + THIRTY_DAYS_SECS);
}

#[test]
fn relinking_updates_own_link() {
    let mut store = linked_store(&[(42, 7)]);
    let page = vec![record(7, "a@b.com", true, 500, 2_000)];
    assert_eq!(process_link(&mut store, 42, Ok(&page)), Verdict::Approve);
    assert_eq!(store.links.len(), 1);
    assert_eq!(store.get_user(42).unwrap().expires_at, 2_000 + THIRTY_DAYS_SECS);
}

#[test]
fn link_rejected_when_subscriber_taken_by_other_user() {
    let mut store = linked_store(&[(1, 7)]);
    let page = vec![record(7, "a@b.com", true, 500, 0)];
    let verdict = process_link(&mut store, 2, Ok(&page));
    assert_eq!(verdict, Verdict::Decline(DeclineReason::AlreadyLinked));
    assert_eq!(store.links.len(), 1);
    assert_eq!(store.get_user(1).unwrap().boosty_id, 7);
    assert_eq!(store.get_user(2), Err(LinkError::NotFound));
}

#[test]
fn unpaid_subscriber_is_not_linked() {
    let mut store = LinkStore::new();
    let page = vec![record(7, "a@b.com", true, 0, 0)];
    assert_eq!(
        process_link(&mut store, 42, Ok(&page)),
        Verdict::Decline(DeclineReason::NotSubscribed)
    );
    assert_eq!(store.links.len(), 0);
}

#[test]
fn link_fails_closed_on_empty_or_failed_fetch() {
    let mut store = LinkStore::new();
    assert_eq!(
        process_link(&mut store, 42, Err(ApiError::Unauthorized)),
        Verdict::Decline(DeclineReason::LookupFailed)
    );
    let empty: Vec<Subscriber> = vec![];
    assert_eq!(
        process_link(&mut store, 42, Ok(&empty)),
        Verdict::Decline(DeclineReason::LookupFailed)
    );
    assert_eq!(store.links.len(), 0);
}

#[test]
fn sweep_revokes_exactly_the_lapsed() {
    let mut store = linked_store(&[(1, 10), (2, 20), (3, 30), (4, 40)]);
    let page = vec![
        record(10, "a@b.com", true, 500, 0),
        record(20, "b@b.com", true, 0, 0),
        record(30, "c@b.com", true, 500, 0),
        record(40, "d@b.com", false, 500, 0),
    ];
    let revoked = sweep_lapsed(&mut store, &page);
    let revoked_ids: Vec<i64> = revoked.iter().map(|u| u.id).collect();
    assert_eq!(revoked_ids, vec![2, 4]);
    let kept_ids: Vec<i64> = store.links.iter().map(|u| u.id).collect();
    assert_eq!(kept_ids, vec![1, 3]);
    assert_eq!(store.get_user(1).unwrap().boosty_id, 10);
    assert_eq!(store.get_user(3).unwrap().boosty_id, 30);
}

#[test]
fn sweep_revokes_subscriber_missing_from_page() {
    let mut store = linked_store(&[(1, 10), (2, 20)]);
    let page = vec![record(10, "a@b.com", true, 500, 0)];
    let revoked = sweep_lapsed(&mut store, &page);
    assert_eq!(revoked.len(), 1);
    assert_eq!(revoked[0].id, 2);
    assert_eq!(store.links.len(), 1);
    assert_eq!(store.links[0].id, 1);
}

#[test]
fn sweep_of_all_paid_revokes_nobody() {
    let mut store = linked_store(&[(1, 10)]);
    let page = vec![record(10, "a@b.com", true, 500, 0)];
    let revoked = sweep_lapsed(&mut store, &page);
    assert!(revoked.is_empty());
    assert_eq!(store.links.len(), 1);
}

#[test]
fn page_has_paid_distinguishes_records() {
    let page = vec![record(10, "a@b.com", true, 500, 0), record(20, "b@b.com", true, 0, 0)];
    assert!(page_has_paid(&page, 10));
    assert!(!page_has_paid(&page, 20));
    assert!(!page_has_paid(&page, 30));
}

#[test]
fn only_plain_members_are_kicked() {
    assert!(should_kick(MemberRole::Member));
    assert!(!should_kick(MemberRole::Administrator));
    assert!(!should_kick(MemberRole::Absent));
}

#[test]
fn chunking_respects_the_batch_limit() {
    let ids: Vec<u64> = vec![1, 2, 3, 4, 5];
    let chunks = chunk_ids(&ids, 2);
    assert_eq!(chunks, vec![vec![1u64, 2], vec![3, 4], vec![5]]);
    let one = chunk_ids(&ids, 10);
    assert_eq!(one, vec![vec![1u64, 2, 3, 4, 5]]);
    let singles = chunk_ids(&ids, 1);
    assert_eq!(singles.len(), 5);
    let none = chunk_ids(&vec![], 3);
    assert!(none.is_empty());
}

#[test]
fn profile_status_reflects_link_and_lookup() {
    let store = linked_store(&[(1, 7)]);
    let paid = vec![record(7, "a@b.com", true, 500, 0)];
    let free = vec![record(7, "a@b.com", true, 0, 0)];
    assert_eq!(profile_status(&store, 1, Ok(&paid)), ProfileStatus::Available);
    assert_eq!(profile_status(&store, 1, Ok(&free)), ProfileStatus::NoSubscription);
    assert_eq!(profile_status(&store, 1, Err(ApiError::Malformed)), ProfileStatus::ApiError);
    assert_eq!(profile_status(&store, 9, Ok(&paid)), ProfileStatus::NotLinked);
}

#[test]
fn every_lookup_error_declines_a_linked_join() {
    let store = linked_store(&[(1, 7)]);
    for err in [ApiError::Transport, ApiError::Unauthorized, ApiError::Malformed] {
        assert_eq!(
            join_verdict(&store, 1, Err(err)),
            Verdict::Decline(DeclineReason::LookupFailed)
        );
    }
}
