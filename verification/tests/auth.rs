use sundries::auth::{RefreshAction, Token};

fn token(refresh: Option<&str>) -> Token {
    Token {
        expires_in: 100,
        access_token: "token-value".to_string(),
        refresh_token: refresh.map(|s| s.to_string()),
        created_at: 0,
    }
}

#[test]
fn freshness_threshold_is_three_quarters_of_the_lifetime() {
    let t = token(None);
    // 100 s lifetime: fresh until 75 s past creation, to the nanosecond
    assert!(t.is_fresh_at(74_999_999_999));
    assert!(!t.is_fresh_at(75_000_000_000));
    assert!(!t.is_fresh_at(80_000_000_000));
}

#[test]
fn refresh_action_depends_on_freshness_and_refresh_token() {
    let fresh = token(Some("r"));
    assert_eq!(fresh.refresh_action_at(0), RefreshAction::AlreadyFresh);

    let stale_with = token(Some("r"));
    assert_eq!(
        stale_with.refresh_action_at(75_000_000_000),
        RefreshAction::Refresh,
    );

    let stale_without = token(None);
    assert_eq!(
        stale_without.refresh_action_at(75_000_000_000),
        RefreshAction::NoRefreshToken,
    );
}

#[test]
fn getters_hand_the_fields_back() {
    let t = token(Some("again"));
    assert_eq!(t.access_token(), "token-value");
    assert_eq!(t.refresh_token().map(|s| s.as_str()), Some("again"));
    assert_eq!(token(None).refresh_token(), None);
    assert_eq!(t.expires_in_duration().num_seconds(), 100);
}

#[test]
fn wall_clock_freshness_is_consistent_with_the_instant_form() {
    // a token minted long ago is stale against the real clock
    let t = token(None);
    assert!(!t.is_fresh());
    assert_eq!(t.refresh_action(), RefreshAction::NoRefreshToken);
}
