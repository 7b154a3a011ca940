use top_doggo::magic_link::{MagicLinkError, RedeemOutcome};
use top_doggo::pick::PickResult;
use top_doggo::MatchOutcome;
use top_doggo::store::Store;
use top_doggo::RatingType;

fn store_with_dogs(n: usize) -> (Store, Vec<i64>) {
    let mut store = Store::new();
    let mut ids = Vec::new();
    for k in 0..n {
        let id = store.add_dog(format!("/images/{}.jpg", k), true, None);
        ids.push(id);
    }
    (store, ids)
}

fn guest(store: &mut Store) -> (i64, String) {
    let (ctx, token) = store
        .resolve_session(&String::new(), 0)
        .expect("fresh session");
    (ctx.user_id, token.expect("a new token"))
}

fn unordered(a: i64, b: i64) -> (i64, i64) {
    if a <= b {
        (a, b)
    } else {
        (b, a)
    }
}

#[test]
fn matchmaker_proposes_each_pair_once_then_exhausts() {
    let (mut store, ids) = store_with_dogs(3);
    let (user, _) = guest(&mut store);

    let mut seen: Vec<(i64, i64)> = Vec::new();
    let mut now: i64 = 10;
    loop {
        match store.get_dog_match(user, now) {
            Some((a, b)) => {
                assert!(a != b);
                assert!(ids.contains(&a) && ids.contains(&b));
                let pair = unordered(a, b);
                assert!(!seen.contains(&pair), "pair proposed twice");
                seen.push(pair);
                let winner = a.to_string();
                let result = store.decide_winner(user, &winner, now + 1);
                assert!(matches!(result, PickResult::Applied { .. }));
                now += 10;
            }
            None => break,
        }
        assert!(seen.len() <= 3, "more pairs than exist");
    }
    assert_eq!(seen.len(), 3, "all three pairs should be played");
    for id in ids.iter() {
        assert!(store.is_finished(user, *id));
    }
}

#[test]
fn matchmaker_returns_pending_match_unchanged() {
    let (mut store, _ids) = store_with_dogs(2);
    let (user, _) = guest(&mut store);
    let first = store.get_dog_match(user, 5).expect("a match");
    let second = store.get_dog_match(user, 99).expect("the same match");
    assert_eq!(first, second);
}

#[test]
fn matchmaker_exhausts_a_single_lonely_candidate() {
    let (mut store, ids) = store_with_dogs(1);
    let (user, _) = guest(&mut store);
    // One approved candidate has nobody to face: it is exhausted at once.
    assert!(store.get_dog_match(user, 1).is_none());
    assert!(store.is_finished(user, ids[0]));
}

#[test]
fn matchmaker_ignores_unapproved_candidates() {
    let mut store = Store::new();
    let (user, _) = guest(&mut store);
    let _hidden = store.add_dog(String::from("/images/a.jpg"), false, None);
    assert!(store.get_dog_match(user, 1).is_none());
}

#[test]
fn clearing_exhaustion_makes_a_candidate_eligible_again() {
    let (mut store, ids) = store_with_dogs(2);
    let (user, _) = guest(&mut store);
    let (a, _b) = store.get_dog_match(user, 1).expect("a match");
    let winner = a.to_string();
    store.decide_winner(user, &winner, 2);
    assert!(store.get_dog_match(user, 3).is_none());
    assert!(store.is_finished(user, ids[0]));

    store.finished = Vec::new();
    assert!(!store.is_finished(user, ids[0]));
    assert!(!store.is_finished(user, ids[1]));
    // The pair was still already played, so matchmaking exhausts again
    // rather than repeating it.
    assert!(store.get_dog_match(user, 4).is_none());
}

#[test]
fn deciding_updates_both_tracks_and_grants_xp() {
    let (mut store, _ids) = store_with_dogs(2);
    let (user, _) = guest(&mut store);
    let (a, b) = store.get_dog_match(user, 0).expect("a match");
    let winner = a.to_string();
    match store.decide_winner(user, &winner, 3) {
        PickResult::Applied { xp_increase, .. } => {
            // three seconds of deliberation: a drawn reward in [18, 42]
            assert!(xp_increase >= 18 && xp_increase <= 42);
            assert_eq!(store.get_xp(user), xp_increase);
        }
        other => panic!("expected an applied pick, got {:?}", other),
    }
    // Fresh ratings, zero prior matches: K = 128, equal seeds move 64, and
    // the signed deltas are recorded on the match row for both tracks.
    assert_eq!(store.matches.len(), 1);
    assert_eq!(store.matches[0].status, Some(MatchOutcome::AWins));
    assert_eq!(store.matches[0].updated_at, 3);
    assert_eq!(store.matches[0].elo_change_overall_a, 64);
    assert_eq!(store.matches[0].elo_change_overall_b, -64);
    assert_eq!(store.matches[0].elo_change_personal_a, 64);
    assert_eq!(store.matches[0].elo_change_personal_b, -64);
    let overall = store.leaderboard_rows(RatingType::Overall, user);
    assert_eq!(overall.len(), 2);
    assert_eq!(overall[0], (a, 1064));
    assert_eq!(overall[1], (b, 936));
    let personal = store.leaderboard_rows(RatingType::Personal, user);
    assert_eq!(personal[0], (a, 1064));
    assert_eq!(personal[1], (b, 936));
}

#[test]
fn deciding_with_nonsense_winner_is_a_soft_no_op() {
    let (mut store, _ids) = store_with_dogs(2);
    let (user, _) = guest(&mut store);
    store.get_dog_match(user, 0).expect("a match");
    let bogus = String::from("999777");
    assert!(matches!(
        store.decide_winner(user, &bogus, 1),
        PickResult::InvalidWinner
    ));
    let tie = String::from("tie");
    assert!(matches!(
        store.decide_winner(user, &tie, 1),
        PickResult::Applied { .. }
    ));
    assert!(matches!(
        store.decide_winner(user, &tie, 2),
        PickResult::NoPendingMatch
    ));
}

#[test]
fn session_with_unknown_token_creates_one_user_and_one_session() {
    let mut store = Store::new();
    let (ctx, new_token) = store
        .resolve_session(&String::from("nobody-knows-this"), 0)
        .expect("session resolution");
    assert_eq!(store.users.len(), 1);
    assert_eq!(store.sessions.len(), 1);
    assert!(ctx.user_email.is_none());
    let minted = new_token.expect("a new token");
    assert_eq!(minted.chars().count(), 36);

    let (ctx2, none_token) = store.resolve_session(&minted, 1).expect("known token");
    assert_eq!(ctx2.user_id, ctx.user_id);
    assert!(none_token.is_none());
    assert_eq!(store.users.len(), 1);
    assert_eq!(store.sessions.len(), 1);
}

#[test]
fn magic_link_rejects_an_invalid_address() {
    let mut store = Store::new();
    let (user, _) = guest(&mut store);
    let bad = String::from("not an email at all");
    match store.issue_magic_link(&bad, user, 0) {
        Err(MagicLinkError::InvalidEmail) => {}
        other => panic!("expected an invalid-email error, got {:?}", other),
    }
    assert!(store.email_tokens.is_empty());
}

#[test]
fn magic_link_signup_promotes_the_guest_in_place() {
    let mut store = Store::new();
    let (user, _) = guest(&mut store);
    let email = String::from("dogfan@example.com");
    let token = store.issue_magic_link(&email, user, 100).expect("a token");
    match store
        .redeem_magic_link(&token, user, None, 130)
        .expect("redemption")
    {
        RedeemOutcome::SignedUp => {}
        other => panic!("expected a signup, got {:?}", other),
    }
    let idx = store.find_user(user).expect("user row");
    assert_eq!(store.users[idx].email.as_deref(), Some("dogfan@example.com"));
    assert_eq!(store.users[idx].total_xp, 2000);
    assert_eq!(store.users.len(), 1, "signup must not mint a second user");
    let log = store.logs.last().expect("an audit row");
    assert_eq!(log.action, "sign-up");
    assert_eq!(log.user_id, user);
    assert_eq!(log.notes, "dogfan@example.com");
}

#[test]
fn magic_link_expires_after_thirty_minutes() {
    let mut store = Store::new();
    let (user, _) = guest(&mut store);
    let email = String::from("dogfan@example.com");
    let token = store.issue_magic_link(&email, user, 1000).expect("a token");
    match store
        .redeem_magic_link(&token, user, None, 1000 + 1801)
        .expect("redemption")
    {
        RedeemOutcome::ExpiredOrMissing => {}
        other => panic!("expected the expiry path, got {:?}", other),
    }
    let missing = String::from("no-such-token");
    assert!(matches!(
        store.redeem_magic_link(&missing, user, None, 0).unwrap(),
        RedeemOutcome::ExpiredOrMissing
    ));
}

#[test]
fn magic_link_is_single_use() {
    let mut store = Store::new();
    let (guest_a, _) = guest(&mut store);
    let (guest_b, _) = guest(&mut store);
    let email = String::from("owner@example.com");
    // guest_a signs up and owns the email.
    let t1 = store.issue_magic_link(&email, guest_a, 0).expect("a token");
    assert!(matches!(
        store.redeem_magic_link(&t1, guest_a, None, 1).unwrap(),
        RedeemOutcome::SignedUp
    ));
    // guest_b logs in with a fresh token; re-using it hits the expiry path.
    let t2 = store.issue_magic_link(&email, guest_b, 2).expect("a token");
    assert!(matches!(
        store.redeem_magic_link(&t2, guest_b, None, 3).unwrap(),
        RedeemOutcome::LoggedIn(_)
    ));
    let log = store.logs.last().expect("an audit row");
    assert_eq!(log.action, "log-in");
    assert_eq!(log.user_id, guest_a);
    assert_eq!(log.notes, format!("owner@example.com {}", guest_b));
    assert!(matches!(
        store.redeem_magic_link(&t2, guest_b, None, 4).unwrap(),
        RedeemOutcome::ExpiredOrMissing
    ));
}

#[test]
fn magic_link_refuses_a_session_with_another_email() {
    let mut store = Store::new();
    let (user_a, _) = guest(&mut store);
    let email_a = String::from("a@example.com");
    let t = store.issue_magic_link(&email_a, user_a, 0).expect("a token");
    store.redeem_magic_link(&t, user_a, None, 1).unwrap();

    let email_b = String::from("b@example.com");
    let t2 = store.issue_magic_link(&email_b, user_a, 2).expect("a token");
    assert!(matches!(
        store.redeem_magic_link(&t2, user_a, None, 3).unwrap(),
        RedeemOutcome::AlreadyLoggedIn
    ));

    let t3 = store.issue_magic_link(&email_a, user_a, 4).expect("a token");
    assert!(matches!(
        store.redeem_magic_link(&t3, user_a, None, 5).unwrap(),
        RedeemOutcome::AlreadyOwn
    ));
}

#[test]
fn stale_session_converges_to_the_logged_in_account() {
    let mut store = Store::new();
    // The account that owns the email.
    let (owner, _) = guest(&mut store);
    let email = String::from("owner@example.com");
    let t = store.issue_magic_link(&email, owner, 0).expect("a token");
    store.redeem_magic_link(&t, owner, None, 1).unwrap();

    // A second device starts as a guest, then completes a login.
    let (second, second_token) = guest(&mut store);
    let t2 = store.issue_magic_link(&email, second, 10).expect("a token");
    match store.redeem_magic_link(&t2, second, None, 11).unwrap() {
        RedeemOutcome::LoggedIn(_) => {}
        other => panic!("expected a login, got {:?}", other),
    }

    // The second device's original stale session self-heals on its next
    // request: the effective user is the email's owner.
    let (ctx, reissued) = store
        .resolve_session(&second_token, 12)
        .expect("session resolution");
    assert_eq!(ctx.user_id, owner);
    assert!(reissued.is_some());
    assert_eq!(ctx.user_email.as_deref(), Some("owner@example.com"));
}
