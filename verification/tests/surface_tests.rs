use top_doggo::cookie::{create_new_auth_cookie, extract_auth_token};
use top_doggo::decimal::u64_to_string;
use top_doggo::name_dog::{FormField, NameDogError, NameDogFormParams};
use top_doggo::store::Store;
use top_doggo::upload::is_image_content_type;
use top_doggo::{NavLink, RatingType};

fn guest(store: &mut Store) -> i64 {
    store
        .resolve_session(&String::new(), 0)
        .expect("fresh session")
        .0
        .user_id
}

#[test]
fn cookie_header_yields_the_session_token() {
    let token = extract_auth_token("best_doggo_auth_token=abc-123");
    assert_eq!(token, "abc-123");
    let token = extract_auth_token("theme=dark; best_doggo_auth_token=tok42; lang=en");
    assert_eq!(token, "tok42");
    let token = extract_auth_token("  best_doggo_auth_token=padded  ; x=y");
    assert_eq!(token, "padded");
}

#[test]
fn cookie_header_without_the_session_cookie_yields_empty() {
    assert_eq!(extract_auth_token(""), "");
    assert_eq!(extract_auth_token("theme=dark; lang=en"), "");
    assert_eq!(extract_auth_token("husky"), "");
    assert_eq!(extract_auth_token("best_doggo_auth_token"), "");
}

#[test]
fn auth_cookie_directive_is_assembled_exactly() {
    let c = create_new_auth_cookie("tok", "Mon, 01 Jan 2035 00:00:00 GMT");
    assert_eq!(
        c,
        "best_doggo_auth_token=tok; Path=/; HttpOnly; Secure; SameSite=Strict; \
         Expires=Mon, 01 Jan 2035 00:00:00 GMT"
    );
}

#[test]
fn decimal_rendering_matches_std() {
    assert_eq!(u64_to_string(0), "0");
    assert_eq!(u64_to_string(7), "7");
    assert_eq!(u64_to_string(12345), "12345");
    assert_eq!(u64_to_string(u64::MAX), u64::MAX.to_string());
}

#[test]
fn naming_a_dog_is_one_time_and_original() {
    let mut store = Store::new();
    let user = guest(&mut store);
    let rex = store.add_dog(String::from("/images/rex.jpg"), true, None);
    let pal = store.add_dog(String::from("/images/pal.jpg"), true, None);

    let confirmed = store
        .name_dog_request(user, rex, "  Rex  ", None, 1)
        .expect("naming should succeed");
    assert_eq!(confirmed, "Rex");

    match store.name_dog_request(user, rex, "Other", None, 2) {
        Err(NameDogError::AlreadyNamed(old)) => assert_eq!(old, "Rex"),
        other => panic!("expected already-named, got {:?}", other),
    }
    assert!(matches!(
        store.name_dog_request(user, pal, "Rex", None, 3),
        Err(NameDogError::NotOriginal)
    ));
    assert!(matches!(
        store.name_dog_request(user, pal, "Jeff", None, 4),
        Err(NameDogError::Forbidden)
    ));
    assert!(matches!(
        store.name_dog_request(user, pal, "   ", None, 5),
        Err(NameDogError::EmptyName)
    ));
    assert!(matches!(
        store.name_dog_request(user, 424242, "Ghost", None, 6),
        Err(NameDogError::NotFound)
    ));

    let idx = store.find_user(user).expect("user row");
    assert_eq!(store.users[idx].total_xp, 200, "naming grants its bonus once");
    let dog_idx = store.find_dog(rex).expect("dog row");
    assert_eq!(store.dogs[dog_idx].namer_id, Some(user));
}

#[test]
fn name_dog_error_messages_render() {
    assert_eq!(
        NameDogError::Forbidden.message(),
        "NO, don't name him Jeff >:("
    );
    assert_eq!(
        NameDogError::AlreadyNamed(String::from("Rex")).message(),
        "Rex already has a name, silly."
    );
    assert_eq!(
        NameDogError::EmptyName.message(),
        "^ Type this dog's new name right up here :)"
    );
}

#[test]
fn form_field_starts_empty() {
    let f = FormField::<String>::empty();
    assert_eq!(f.value, "");
    assert_eq!(f.error, "");
    let params = NameDogFormParams {
        dog_id: 1,
        new_name: String::from("Rex"),
    };
    assert_eq!(params.dog_id, 1);
}

#[test]
fn upload_flow_creates_then_retargets_the_pending_dog() {
    let mut store = Store::new();
    let user = guest(&mut store);
    assert!(store.find_latest_pending_dog(user).is_none());

    let first = store.add_dog(String::from("temp"), false, Some(user));
    let second = store.add_dog(String::from("temp"), false, Some(user));
    assert_eq!(store.find_latest_pending_dog(user), Some(second));

    store.set_dog_image(second, String::from("/images/2.jpg"));
    let idx = store.find_dog(second).expect("dog row");
    assert_eq!(store.dogs[idx].image_url, "/images/2.jpg");

    // Naming the latest upload removes it from the pending pool.
    store
        .name_dog_request(user, second, "Biscuit", None, 1)
        .expect("naming should succeed");
    assert_eq!(store.find_latest_pending_dog(user), Some(first));

    // Approval opens the matchmaking gate.
    store.set_dog_approved(first, true);
    let idx = store.find_dog(first).expect("dog row");
    assert!(store.dogs[idx].approved);
}

#[test]
fn only_images_pass_the_upload_content_check() {
    assert!(is_image_content_type("image/png"));
    assert!(is_image_content_type("image/jpeg"));
    assert!(!is_image_content_type("text/html"));
    assert!(!is_image_content_type("imag"));
    assert!(!is_image_content_type(""));
}

#[test]
fn leaderboard_sorts_by_rating_descending() {
    let (mut store, user) = {
        let mut s = Store::new();
        let u = guest(&mut s);
        (s, u)
    };
    for k in 0..3 {
        store.add_dog(format!("/images/{}.jpg", k), true, None);
    }
    // Play all pairs so every candidate holds a rating on both tracks.
    let mut now = 0i64;
    while let Some((a, _b)) = store.get_dog_match(user, now) {
        let winner = a.to_string();
        store.decide_winner(user, &winner, now + 1);
        now += 10;
    }
    for rating_type in [RatingType::Overall, RatingType::Personal] {
        let rows = store.leaderboard_rows(rating_type, user);
        assert_eq!(rows.len(), 3);
        for w in rows.windows(2) {
            assert!(w[0].1 >= w[1].1);
        }
    }
}

#[test]
fn rating_type_slugs_and_labels() {
    assert_eq!(RatingType::Overall.as_slug(), "overall");
    assert_eq!(RatingType::Personal.as_slug(), "personal");
    assert_eq!(RatingType::Overall.label(), "Overall");
    assert_eq!(RatingType::Personal.label(), "Personal");
    assert_eq!(NavLink::Root, NavLink::Root);
    assert!(NavLink::Root != NavLink::Leaderboard);
}
