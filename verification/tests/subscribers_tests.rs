use boosty_gate::subscribers::{
    BasicSubscriber, Order, SortBy, Subscriber, SubscribersVec, SubscriptionLevel,
};

fn level() -> SubscriptionLevel {
    SubscriptionLevel {
        created_at: 0,
        currency_prices: vec![("RUB".to_string(), 50000)],
        deleted: false,
        id: 1,
        is_archived: false,
        name: "Tier".to_string(),
        owner_id: 2,
        price: 500,
    }
}

fn subscriber(subscribed: bool, price: u64) -> Subscriber {
    Subscriber {
        can_write: true,
        is_black_listed: false,
        level: level(),
        on_time: 1_700_000_000,
        payments: 0,
        price,
        subscribed,
        basic_info: BasicSubscriber {
            avatar_url: "".to_string(),
            email: "a@b.com".to_string(),
            has_avatar: false,
            id: 7,
            name: "Name".to_string(),
        },
    }
}

#[test]
fn is_paid_requires_subscribed_and_positive_price() {
    assert!(subscriber(true, 500).is_paid());
    assert!(!subscriber(true, 0).is_paid());
    assert!(!subscriber(false, 500).is_paid());
    assert!(!subscriber(false, 0).is_paid());
}

#[test]
fn sort_by_defaults_to_on_time() {
    let s: SortBy = Default::default();
    assert_eq!(s.0, "on_time");
}

#[test]
fn order_defaults_to_gt() {
    let o: Order = Default::default();
    assert_eq!(o.0, "gt");
}

#[test]
fn user_ids_join_with_commas() {
    let ids: SubscribersVec = vec![1u64, 23, 456].into();
    assert_eq!(ids.query_value(), "1,23,456");
}

#[test]
fn single_id_has_no_comma() {
    let ids: SubscribersVec = vec![90210u64].into();
    assert_eq!(ids.query_value(), "90210");
}

#[test]
fn empty_id_list_is_empty_parameter() {
    let ids: SubscribersVec = vec![].into();
    assert_eq!(ids.query_value(), "");
}

#[test]
fn extreme_ids_render_in_full() {
    let ids: SubscribersVec = vec![0u64, u64::MAX].into();
    assert_eq!(ids.query_value(), "0,18446744073709551615");
}
