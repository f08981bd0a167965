use tweetbook::auth::{signin, signup, AuthCredentials, Authorization};
use tweetbook::error::UserError;
use tweetbook::messages::MessageUpdate;
use tweetbook::search::{matches_folded, matches_ignoring_case};
use tweetbook::store::Tweetbook;
use tweetbook::users::{follow_user, unfollow_user, user_search, UserQuery, UserUpdate};
use tweetbook::views::{Message, User};

const SECRET: &[u8] = b"test-signing-key";
const NOW: i64 = 1_700_000_000;
const MONTH: i64 = 30 * 24 * 3600;

fn creds(username: &str, email: &str, password: &str) -> AuthCredentials {
    AuthCredentials {
        username: Some(username.to_string()),
        email: email.to_string(),
        password: password.to_string(),
    }
}

fn new_user(db: &mut Tweetbook, name: &str) -> u64 {
    let email = format!("{}@example.com", name.to_lowercase());
    signup(db, &creds(name, &email, "pw"), "127.0.0.1", NOW, SECRET).unwrap().id
}

#[test]
fn status_codes_and_messages() {
    assert_eq!(UserError::Unauthorised.status_code(), 401);
    assert_eq!(UserError::UserNotExists.status_code(), 400);
    assert_eq!(UserError::UserAlreadyExists.status_code(), 406);
    assert_eq!(UserError::InternalServerError.status_code(), 500);
    assert_eq!(UserError::WrongEmailOrPassword.status_code(), 400);
    assert_eq!(UserError::WrongInfo.status_code(), 406);
    assert_eq!(UserError::UserNotExists.message(), "User doesn't exist!");
    assert_eq!(UserError::UserAlreadyExists.message(), "User already exists!");
}

#[test]
fn init_is_empty() {
    let db = Tweetbook::init();
    assert!(User::get_collection(&db).is_empty());
    assert!(Message::get_collection(&db).is_empty());
}

#[test]
fn signup_then_signin_token_verifies() {
    let mut db = Tweetbook::init();
    let c = creds("Alice99", "alice@example.com", "s3cret");
    let up = signup(&mut db, &c, "10.0.0.1", NOW, SECRET).unwrap();
    assert_eq!(up.username, "Alice99");
    assert_eq!(up.profile_img_url, "");
    assert_eq!(Authorization::verify_request(Some(&up.token), SECRET, NOW, &db), Ok(up.id));
    let ip = "10.0.0.2".to_string();
    let inp = signin(&mut db, &c, &ip, NOW, SECRET).unwrap();
    assert_eq!(inp.id, up.id);
    assert_eq!(Authorization::verify_request(Some(&inp.token), SECRET, NOW, &db), Ok(up.id));
    let rec = &User::get_collection(&db)[0];
    assert_ne!(rec.password, "s3cret");
    assert_eq!(rec.active_ips, vec!["10.0.0.1".to_string(), "10.0.0.2".to_string()]);
}

#[test]
fn signup_refuses_duplicates_and_missing_username() {
    let mut db = Tweetbook::init();
    let c = creds("bob", "bob@example.com", "pw");
    assert!(signup(&mut db, &c, "1.1.1.1", NOW, SECRET).is_ok());
    assert_eq!(
        signup(&mut db, &creds("other", "bob@example.com", "x"), "1.1.1.1", NOW, SECRET).err(),
        Some(UserError::UserAlreadyExists)
    );
    let anonymous = AuthCredentials { username: None, email: "z@example.com".to_string(), password: "pw".to_string() };
    assert_eq!(signup(&mut db, &anonymous, "1.1.1.1", NOW, SECRET).err(), Some(UserError::WrongInfo));
    assert_eq!(User::get_collection(&db).len(), 1);
}

#[test]
fn signin_refuses_wrong_password_and_unknown_email() {
    let mut db = Tweetbook::init();
    signup(&mut db, &creds("carol", "carol@example.com", "right"), "1.1.1.1", NOW, SECRET).unwrap();
    let ip = "1.1.1.1".to_string();
    assert_eq!(
        signin(&mut db, &creds("carol", "carol@example.com", "wrong"), &ip, NOW, SECRET).err(),
        Some(UserError::WrongEmailOrPassword)
    );
    assert_eq!(
        signin(&mut db, &creds("carol", "nobody@example.com", "right"), &ip, NOW, SECRET).err(),
        Some(UserError::WrongEmailOrPassword)
    );
}

#[test]
fn expired_token_is_refused() {
    let mut db = Tweetbook::init();
    let up = signup(&mut db, &creds("dave", "dave@example.com", "pw"), "1.1.1.1", NOW, SECRET).unwrap();
    assert_eq!(Authorization::verify_request(Some(&up.token), SECRET, NOW + 11 * MONTH, &db), Ok(up.id));
    assert_eq!(
        Authorization::verify_request(Some(&up.token), SECRET, NOW + 13 * MONTH, &db),
        Err(UserError::Unauthorised)
    );
}

#[test]
fn bad_tokens_are_refused() {
    let mut db = Tweetbook::init();
    let up = signup(&mut db, &creds("erin", "erin@example.com", "pw"), "1.1.1.1", NOW, SECRET).unwrap();
    assert_eq!(Authorization::verify_request(None, SECRET, NOW, &db), Err(UserError::Unauthorised));
    assert_eq!(Authorization::verify_request(Some("not.a.token"), SECRET, NOW, &db), Err(UserError::Unauthorised));
    assert_eq!(
        Authorization::verify_request(Some(&up.token), b"another-key", NOW, &db),
        Err(UserError::Unauthorised)
    );
    let empty = Tweetbook::init();
    assert_eq!(Authorization::verify_request(Some(&up.token), SECRET, NOW, &empty), Err(UserError::Unauthorised));
}

#[test]
fn bound_verification_checks_the_address() {
    let mut db = Tweetbook::init();
    let up = signup(&mut db, &creds("fay", "fay@example.com", "pw"), "10.1.1.1", NOW, SECRET).unwrap();
    let known = "10.1.1.1".to_string();
    let unknown = "10.9.9.9".to_string();
    assert_eq!(Authorization::verify_request_from(Some(&up.token), SECRET, NOW, &known, &db), Ok(up.id));
    assert_eq!(
        Authorization::verify_request_from(Some(&up.token), SECRET, NOW, &unknown, &db),
        Err(UserError::Unauthorised)
    );
}

#[test]
fn check_claims_decides_on_expiry_and_subject() {
    let mut db = Tweetbook::init();
    let id = new_user(&mut db, "gus");
    let live = Authorization { sub: id, company: "TweetBook".to_string(), exp: (NOW + 10) as u64 };
    assert_eq!(Authorization::check_claims(Some(live), NOW, &db), Ok(id));
    let dead = Authorization { sub: id, company: "TweetBook".to_string(), exp: NOW as u64 };
    assert_eq!(Authorization::check_claims(Some(dead), NOW, &db), Err(UserError::Unauthorised));
    let ghost = Authorization { sub: id + 100, company: "TweetBook".to_string(), exp: (NOW + 10) as u64 };
    assert_eq!(Authorization::check_claims(Some(ghost), NOW, &db), Err(UserError::Unauthorised));
    assert_eq!(Authorization::check_claims(None, NOW, &db), Err(UserError::Unauthorised));
}

#[test]
fn follow_is_idempotent_and_unfollow_restores() {
    let mut db = Tweetbook::init();
    let a = new_user(&mut db, "ann");
    let b = new_user(&mut db, "ben");
    let details = follow_user(&mut db, a, b).unwrap();
    assert_eq!(details.followers.len(), 1);
    assert_eq!(details.followers[0].id, a);
    assert_eq!(User::get_collection(&db)[0].following, vec![b]);
    assert_eq!(User::get_collection(&db)[1].followers, vec![a]);
    follow_user(&mut db, a, b).unwrap();
    assert_eq!(User::get_collection(&db)[0].following, vec![b]);
    assert_eq!(User::get_collection(&db)[1].followers, vec![a]);
    unfollow_user(&mut db, a, b).unwrap();
    assert!(User::get_collection(&db)[0].following.is_empty());
    assert!(User::get_collection(&db)[1].followers.is_empty());
    assert_eq!(follow_user(&mut db, a, 999).err().map(|e| e.status_code()), Some(400));
    assert!(User::get_collection(&db)[0].following.is_empty());
}

#[test]
fn like_then_unlike_restores_the_like_set() {
    let mut db = Tweetbook::init();
    let a = new_user(&mut db, "amy");
    let u = new_user(&mut db, "uma");
    let post = Message::insert_message(&mut db, "hello".to_string(), a, NOW).unwrap();
    let liked = Message::update_message(&mut db, post.id, &MessageUpdate::Like(u)).unwrap();
    assert_eq!(liked.likes.len(), 1);
    assert_eq!(liked.likes[0].id, u);
    let twice = Message::update_message(&mut db, post.id, &MessageUpdate::Like(u)).unwrap();
    assert_eq!(twice.likes.len(), 1);
    let unliked = Message::update_message(&mut db, post.id, &MessageUpdate::Unlike(u)).unwrap();
    assert!(unliked.likes.is_empty());
    let again = Message::update_message(&mut db, post.id, &MessageUpdate::Unlike(u)).unwrap();
    assert!(again.likes.is_empty());
    assert_eq!(
        Message::update_message(&mut db, 999, &MessageUpdate::Like(u)).err(),
        Some(UserError::InternalServerError)
    );
}

#[test]
fn username_search_ignores_case_and_matches_substrings() {
    let mut db = Tweetbook::init();
    new_user(&mut db, "Alice99");
    new_user(&mut db, "bob");
    let hits = user_search(&db, "ali".to_string());
    assert_eq!(hits.len(), 1);
    assert_eq!(hits[0].username, "Alice99");
    assert_eq!(user_search(&db, "CE9".to_string()).len(), 1);
    assert_eq!(user_search(&db, "".to_string()).len(), 2);
    assert!(user_search(&db, "carol".to_string()).is_empty());
    let by_email = User::get_user_by_query(&db, &UserQuery::ByEmail("bob@example.com".to_string()));
    assert_eq!(by_email.len(), 1);
    assert_eq!(by_email[0].username, "bob");
}

#[test]
fn substring_matching() {
    assert!(matches_folded("ali", "alice99"));
    assert!(!matches_folded("ALI", "alice99"));
    assert!(matches_ignoring_case("ALI", "alice99"));
    assert!(matches_ignoring_case("ali", "ALICE99"));
    assert!(!matches_folded("alice999", "alice99"));
    assert!(matches_folded("", ""));
}

#[test]
fn delete_as_owner_and_as_stranger() {
    let mut db = Tweetbook::init();
    let owner = new_user(&mut db, "olga");
    let other = new_user(&mut db, "otto");
    let p1 = Message::insert_message(&mut db, "first".to_string(), owner, NOW).unwrap();
    let p2 = Message::insert_message(&mut db, "second".to_string(), owner, NOW).unwrap();
    assert_eq!(User::get_collection(&db)[0].messages, vec![p1.id, p2.id]);
    assert_eq!(Message::delete_message(&mut db, p1.id, other), Err(UserError::Unauthorised));
    assert_eq!(Message::get_message_by_query(&db, None).len(), 2);
    assert_eq!(User::get_collection(&db)[0].messages, vec![p1.id, p2.id]);
    assert_eq!(Message::delete_message(&mut db, p1.id, owner), Ok(()));
    let listing = Message::get_message_by_query(&db, None);
    assert_eq!(listing.len(), 1);
    assert_eq!(listing[0].id, p2.id);
    assert_eq!(User::get_collection(&db)[0].messages, vec![p2.id]);
    assert_eq!(Message::delete_message(&mut db, p1.id, owner), Err(UserError::InternalServerError));
}

#[test]
fn insert_message_checks_and_hydrates() {
    let mut db = Tweetbook::init();
    let a = new_user(&mut db, "ivy");
    assert_eq!(Message::insert_message(&mut db, "".to_string(), a, NOW).err(), Some(UserError::WrongInfo));
    assert_eq!(
        Message::insert_message(&mut db, "hi".to_string(), a + 50, NOW).err(),
        Some(UserError::UserNotExists)
    );
    let m = Message::insert_message(&mut db, "hi".to_string(), a, NOW).unwrap();
    assert_eq!(m.text, "hi");
    assert_eq!(m.created_at, NOW);
    assert_eq!(m.user.as_ref().map(|u| u.id), Some(a));
    let got = Message::get_tweet(&db, m.id).unwrap();
    assert_eq!(got.user.map(|u| u.username), Some("ivy".to_string()));
    assert_eq!(Message::get_tweet(&db, m.id + 7).err(), Some(UserError::InternalServerError));
    assert_eq!(Message::get_message_by_query(&db, Some(m.id)).len(), 1);
    assert!(Message::get_message_by_query(&db, Some(m.id + 7)).is_empty());
}

#[test]
fn user_details_hydrate_posts_and_edges() {
    let mut db = Tweetbook::init();
    let a = new_user(&mut db, "jo");
    let b = new_user(&mut db, "kim");
    Message::insert_message(&mut db, "post".to_string(), b, NOW).unwrap();
    follow_user(&mut db, a, b).unwrap();
    let d = User::get_user_details(&db, b).unwrap();
    assert_eq!(d.username, "kim");
    assert_eq!(d.messages.len(), 1);
    assert_eq!(d.messages[0].text, "post");
    assert_eq!(d.messages[0].user.as_ref().map(|u| u.id), Some(b));
    assert_eq!(d.followers.len(), 1);
    assert_eq!(d.followers[0].username, "jo");
    assert!(d.following.is_empty());
    assert_eq!(User::get_user_details(&db, 77).err(), Some(UserError::UserNotExists));
}

#[test]
fn update_user_sets_profile() {
    let mut db = Tweetbook::init();
    let a = new_user(&mut db, "lea");
    let update = UserUpdate::SetProfile { bio: "hi there".to_string(), profile_img_url: "img.png".to_string() };
    let m = User::update_user(&mut db, a, &update).unwrap();
    assert_eq!(m.bio, Some("hi there".to_string()));
    assert_eq!(m.profile_img_url, Some("img.png".to_string()));
    assert_eq!(User::update_user(&mut db, a + 9, &update).err(), Some(UserError::UserNotExists));
}

#[test]
fn token_carries_a_twelve_month_expiry() {
    let mut db = Tweetbook::init();
    let a = new_user(&mut db, "max");
    let user = User::get_user_by_query(&db, &UserQuery::ById(a)).remove(0);
    let t = Authorization::get_token(&user, NOW, SECRET).unwrap();
    assert_eq!(Authorization::verify_request(Some(&t), SECRET, NOW + 364 * 24 * 3600, &db), Ok(a));
    assert_eq!(
        Authorization::verify_request(Some(&t), SECRET, NOW + 366 * 24 * 3600, &db),
        Err(UserError::Unauthorised)
    );
}

#[test]
fn signup_checks_the_email_before_the_username() {
    let mut db = Tweetbook::init();
    signup(&mut db, &creds("nia", "nia@example.com", "pw"), "1.1.1.1", NOW, SECRET).unwrap();
    let anonymous = AuthCredentials { username: None, email: "nia@example.com".to_string(), password: "x".to_string() };
    assert_eq!(signup(&mut db, &anonymous, "1.1.1.1", NOW, SECRET).err(), Some(UserError::UserAlreadyExists));
    assert_eq!(User::add_user(&mut db, &anonymous, "1.1.1.1").err(), Some(UserError::UserAlreadyExists));
}

#[test]
fn signup_without_a_representable_expiry_changes_nothing() {
    let mut db = Tweetbook::init();
    assert_eq!(
        signup(&mut db, &creds("omar", "omar@example.com", "pw"), "1.1.1.1", i64::MAX, SECRET).err(),
        Some(UserError::InternalServerError)
    );
    assert!(User::get_collection(&db).is_empty());
    assert_eq!(Authorization::expiry(i64::MAX), None);
    assert!(Authorization::expiry(NOW).unwrap() > NOW as u64);
}

#[test]
fn add_user_with_hash_stores_the_given_hash() {
    let mut db = Tweetbook::init();
    let c = creds("pia", "pia@example.com", "pw");
    let m = User::add_user_with_hash(&mut db, &c, "pia".to_string(), "$2b$10$stored".to_string(), "2.2.2.2").unwrap();
    assert_eq!(m.username, "pia");
    assert_eq!(m.email, "pia@example.com");
    let rec = &User::get_collection(&db)[0];
    assert_eq!(rec.id, m.id);
    assert_eq!(rec.password, "$2b$10$stored");
    assert_eq!(rec.active_ips, vec!["2.2.2.2".to_string()]);
}

#[test]
fn from_records_rebuilds_a_store() {
    let mut db = Tweetbook::init();
    let a = new_user(&mut db, "quin");
    Message::insert_message(&mut db, "kept".to_string(), a, NOW).unwrap();
    let Tweetbook { users, messages, next_id } = db;
    let rebuilt = Tweetbook::from_records(users, messages).unwrap();
    assert_eq!(rebuilt.next_id, next_id);
    assert_eq!(Message::get_message_by_query(&rebuilt, None)[0].text, "kept");
    let dup = |name: &str| tweetbook::store::UserRecord {
        id: 3,
        email: format!("{name}@example.com"),
        username: name.to_string(),
        password: String::new(),
        bio: None,
        profile_img_url: None,
        active_ips: vec![],
        messages: vec![],
        followers: vec![],
        following: vec![],
    };
    assert!(Tweetbook::from_records(vec![dup("r"), dup("s")], vec![]).is_none());
}
