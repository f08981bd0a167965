use vstd::prelude::*;
use crate::error::UserError;
use crate::sets::{
    add_to_set, added, lemma_add_idempotent, lemma_added_contains, lemma_pull_undoes_add,
    lemma_pulled_contains, pull_from_set, pulled,
};
use crate::search::{is_substring, lower_of, matches_ignoring_case};
use crate::auth::AuthCredentials;
use crate::password::{hash_password, password_matches};
use crate::store::{
    closed, graph_ok, has_email, has_user, lemma_ownership_same_lists, mirrored, ownership_ok, same_keys, Tweetbook,
    UserRecord,
};
use crate::views::{details, min_spec, min_user, user_details, MinUser, User};

verus! {

/// A single-document field update on an account.
pub enum UserUpdate {
    /// Sets the bio and the profile image reference.
    SetProfile { bio: String, profile_img_url: String },
    AddFollowing(u64),
    PullFollowing(u64),
    AddFollower(u64),
    PullFollower(u64),
    /// Appends a post id to the account's post list.
    PushMessage(u64),
    PullMessage(u64),
    /// Adds a client address to the known-address set.
    AddActiveIp(String),
}

/// A filter on the account collection.
pub enum UserQuery {
    ById(u64),
    ByEmail(String),
    /// Case-insensitive substring match on the username.
    UsernameContains(String),
}

/// Whether the account `u` passes the filter `q`.
pub open spec fn query_matches(q: UserQuery, u: UserRecord) -> bool {
    match q {
        UserQuery::ById(id) => u.id == id,
        UserQuery::ByEmail(e) => u.email@ == e@,
        UserQuery::UsernameContains(s) => is_substring(lower_of(s@), lower_of(u.username@)),
    }
}

/// The projections of the accounts that pass `q`, in the order of the
/// collection.
pub open spec fn users_matching(users: Seq<UserRecord>, q: UserQuery) -> Seq<MinUser>
    decreases users.len(),
{
    if users.len() == 0 {
        Seq::empty()
    } else if query_matches(q, users.last()) {
        users_matching(users.drop_last(), q).push(min_spec(users.last()))
    } else {
        users_matching(users.drop_last(), q)
    }
}

/// The views of a list of strings.
pub open spec fn views_of(s: Seq<String>) -> Seq<Seq<char>> {
    s.map_values(|x: String| x@)
}

/// Adding an address with set semantics, compared by its text.
pub open spec fn ip_added(s: Seq<String>, ip: String) -> Seq<String> {
    if views_of(s).contains(ip@) {
        s
    } else {
        s.push(ip)
    }
}

/// What `u` makes of the followee list `s`.
pub open spec fn following_after(s: Seq<u64>, u: UserUpdate) -> Seq<u64> {
    match u {
        UserUpdate::AddFollowing(x) => added(s, x),
        UserUpdate::PullFollowing(x) => pulled(s, x),
        _ => s,
    }
}

/// What `u` makes of the follower list `s`.
pub open spec fn followers_after(s: Seq<u64>, u: UserUpdate) -> Seq<u64> {
    match u {
        UserUpdate::AddFollower(x) => added(s, x),
        UserUpdate::PullFollower(x) => pulled(s, x),
        _ => s,
    }
}

/// What `u` makes of the post list `s`.
pub open spec fn messages_after(s: Seq<u64>, u: UserUpdate) -> Seq<u64> {
    match u {
        UserUpdate::PushMessage(x) => s.push(x),
        UserUpdate::PullMessage(x) => pulled(s, x),
        _ => s,
    }
}

/// `new` is the account `old` after the update `u`.
pub open spec fn applied(old: UserRecord, new: UserRecord, u: UserUpdate) -> bool {
    &&& new.id == old.id
    &&& new.email == old.email
    &&& new.username == old.username
    &&& new.password == old.password
    &&& new.bio == (match u {
        UserUpdate::SetProfile { bio, profile_img_url } => Some(bio),
        _ => old.bio,
    })
    &&& new.profile_img_url == (match u {
        UserUpdate::SetProfile { bio, profile_img_url } => Some(profile_img_url),
        _ => old.profile_img_url,
    })
    &&& new.active_ips@ == (match u {
        UserUpdate::AddActiveIp(ip) => ip_added(old.active_ips@, ip),
        _ => old.active_ips@,
    })
    &&& new.messages@ == messages_after(old.messages@, u)
    &&& new.followers@ == followers_after(old.followers@, u)
    &&& new.following@ == following_after(old.following@, u)
}

/// `new` is `old` with nothing changed but its follower and followee lists.
pub open spec fn same_profile(old: UserRecord, new: UserRecord) -> bool {
    &&& new.id == old.id
    &&& new.email == old.email
    &&& new.username == old.username
    &&& new.password == old.password
    &&& new.bio == old.bio
    &&& new.profile_img_url == old.profile_img_url
    &&& new.active_ips@ == old.active_ips@
    &&& new.messages@ == old.messages@
}

/// `new` is the account `old` once `a` follows `b`.
pub open spec fn follow_step(old: UserRecord, new: UserRecord, a: u64, b: u64) -> bool {
    &&& same_profile(old, new)
    &&& new.following@ == (if old.id == a { added(old.following@, b) } else { old.following@ })
    &&& new.followers@ == (if old.id == b { added(old.followers@, a) } else { old.followers@ })
}

/// `new` is the account `old` once `a` no longer follows `b`.
pub open spec fn unfollow_step(old: UserRecord, new: UserRecord, a: u64, b: u64) -> bool {
    &&& same_profile(old, new)
    &&& new.following@ == (if old.id == a { pulled(old.following@, b) } else { old.following@ })
    &&& new.followers@ == (if old.id == b { pulled(old.followers@, a) } else { old.followers@ })
}

/// Following keeps the mirrored-edge invariant.
pub proof fn lemma_follow_mirrored(old: Seq<UserRecord>, new: Seq<UserRecord>, a: u64, b: u64)
    requires
        mirrored(old),
        new.len() == old.len(),
        forall|i: int| 0 <= i < old.len() ==> follow_step(#[trigger] old[i], new[i], a, b),
    ensures
        mirrored(new),
{
    assert forall|i: int, j: int| 0 <= i < new.len() && 0 <= j < new.len() implies (
    #[trigger] new[i].following@.contains(new[j].id) <==> #[trigger] new[j].followers@.contains(new[i].id)) by {
        assert(follow_step(old[i], new[i], a, b));
        assert(follow_step(old[j], new[j], a, b));
        lemma_added_contains(old[i].following@, b, old[j].id);
        lemma_added_contains(old[j].followers@, a, old[i].id);
        assert(old[i].following@.contains(old[j].id) <==> old[j].followers@.contains(old[i].id));
    }
}

/// Following and unfollowing between known accounts keep every edge on
/// known accounts.
proof fn lemma_steps_closed(old: Seq<UserRecord>, new: Seq<UserRecord>, a: u64, b: u64, follow: bool)
    requires
        closed(old),
        has_user(old, a),
        has_user(old, b),
        new.len() == old.len(),
        follow ==> forall|i: int| 0 <= i < old.len() ==> follow_step(#[trigger] old[i], new[i], a, b),
        !follow ==> forall|i: int| 0 <= i < old.len() ==> unfollow_step(#[trigger] old[i], new[i], a, b),
    ensures
        closed(new),
{
    assert forall|x: u64| has_user(old, x) implies has_user(new, x) by {
        let k = choose|k: int| 0 <= k < old.len() && old[k].id == x;
        if follow {
            assert(follow_step(old[k], new[k], a, b));
        } else {
            assert(unfollow_step(old[k], new[k], a, b));
        }
        assert(new[k].id == x);
    }
    assert forall|i: int, x: u64| 0 <= i < new.len() && #[trigger] new[i].following@.contains(x) implies has_user(
        new,
        x,
    ) by {
        if follow {
            assert(follow_step(old[i], new[i], a, b));
            lemma_added_contains(old[i].following@, b, x);
        } else {
            assert(unfollow_step(old[i], new[i], a, b));
            lemma_pulled_contains(old[i].following@, b, x);
        }
    }
    assert forall|i: int, x: u64| 0 <= i < new.len() && #[trigger] new[i].followers@.contains(x) implies has_user(
        new,
        x,
    ) by {
        if follow {
            assert(follow_step(old[i], new[i], a, b));
            lemma_added_contains(old[i].followers@, a, x);
        } else {
            assert(unfollow_step(old[i], new[i], a, b));
            lemma_pulled_contains(old[i].followers@, a, x);
        }
    }
}

/// Unfollowing keeps the mirrored-edge invariant.
pub proof fn lemma_unfollow_mirrored(old: Seq<UserRecord>, new: Seq<UserRecord>, a: u64, b: u64)
    requires
        mirrored(old),
        new.len() == old.len(),
        forall|i: int| 0 <= i < old.len() ==> unfollow_step(#[trigger] old[i], new[i], a, b),
    ensures
        mirrored(new),
{
    assert forall|i: int, j: int| 0 <= i < new.len() && 0 <= j < new.len() implies (
    #[trigger] new[i].following@.contains(new[j].id) <==> #[trigger] new[j].followers@.contains(new[i].id)) by {
        assert(unfollow_step(old[i], new[i], a, b));
        assert(unfollow_step(old[j], new[j], a, b));
        lemma_pulled_contains(old[i].following@, b, old[j].id);
        lemma_pulled_contains(old[j].followers@, a, old[i].id);
        assert(old[i].following@.contains(old[j].id) <==> old[j].followers@.contains(old[i].id));
    }
}

/// Following is idempotent: when `a` follows `b` twice, the second time
/// leaves every account's follower and followee lists as the first left them.
pub proof fn law_follow_idempotent(s0: Seq<UserRecord>, s1: Seq<UserRecord>, s2: Seq<UserRecord>, a: u64, b: u64)
    requires
        s1.len() == s0.len(),
        s2.len() == s1.len(),
        forall|i: int| 0 <= i < s0.len() ==> follow_step(#[trigger] s0[i], s1[i], a, b),
        forall|i: int| 0 <= i < s1.len() ==> follow_step(#[trigger] s1[i], s2[i], a, b),
    ensures
        forall|i: int|
            0 <= i < s2.len() ==> same_profile(s1[i], #[trigger] s2[i]) && s2[i].following@ == s1[i].following@
                && s2[i].followers@ == s1[i].followers@,
{
    assert forall|i: int| 0 <= i < s2.len() implies same_profile(s1[i], #[trigger] s2[i]) && s2[i].following@
        == s1[i].following@ && s2[i].followers@ == s1[i].followers@ by {
        assert(follow_step(s0[i], s1[i], a, b));
        assert(follow_step(s1[i], s2[i], a, b));
        lemma_add_idempotent(s0[i].following@, b);
        lemma_add_idempotent(s0[i].followers@, a);
    }
}

/// Unfollowing right after following restores every account exactly, when
/// `a` did not follow `b` before.
pub proof fn law_unfollow_undoes_follow(s0: Seq<UserRecord>, s1: Seq<UserRecord>, s2: Seq<UserRecord>, a: u64, b: u64)
    requires
        s1.len() == s0.len(),
        s2.len() == s1.len(),
        forall|i: int| 0 <= i < s0.len() && s0[i].id == a ==> !(#[trigger] s0[i].following@).contains(b),
        forall|i: int| 0 <= i < s0.len() && s0[i].id == b ==> !(#[trigger] s0[i].followers@).contains(a),
        forall|i: int| 0 <= i < s0.len() ==> follow_step(#[trigger] s0[i], s1[i], a, b),
        forall|i: int| 0 <= i < s1.len() ==> unfollow_step(#[trigger] s1[i], s2[i], a, b),
    ensures
        forall|i: int|
            0 <= i < s2.len() ==> same_profile(s0[i], #[trigger] s2[i]) && s2[i].following@ == s0[i].following@
                && s2[i].followers@ == s0[i].followers@,
{
    assert forall|i: int| 0 <= i < s2.len() implies same_profile(s0[i], #[trigger] s2[i]) && s2[i].following@
        == s0[i].following@ && s2[i].followers@ == s0[i].followers@ by {
        assert(follow_step(s0[i], s1[i], a, b));
        assert(unfollow_step(s1[i], s2[i], a, b));
        if s0[i].id == a {
            assert(!s0[i].following@.contains(b));
            lemma_pull_undoes_add(s0[i].following@, b);
        }
        if s0[i].id == b {
            assert(!s0[i].followers@.contains(a));
            lemma_pull_undoes_add(s0[i].followers@, a);
        }
    }
}

/// Adds `ip` to the address list unless a string with the same text is there.
fn add_ip(v: &mut Vec<String>, ip: &String)
    ensures
        final(v)@ == ip_added(old(v)@, *ip),
{
    let mut i: usize = 0;
    let mut found = false;
    while i < v.len()
        invariant
            0 <= i <= v@.len(),
            found <==> exists|k: int| 0 <= k < i && v@[k]@ == ip@,
        decreases v@.len() - i,
    {
        if v[i] == *ip {
            found = true;
        }
        i = i + 1;
    }
    proof {
        if found {
            let k = choose|k: int| 0 <= k < i && v@[k]@ == ip@;
            assert(views_of(v@)[k] == ip@);
        } else {
            if views_of(v@).contains(ip@) {
                let k = choose|k: int| 0 <= k < views_of(v@).len() && views_of(v@)[k] == ip@;
                assert(v@[k]@ == ip@);
            }
        }
    }
    if !found {
        v.push(ip.clone());
    }
}

/// Applies the update `u` to one account record.
fn apply_update(rec: &mut UserRecord, u: &UserUpdate)
    ensures
        applied(*old(rec), *final(rec), *u),
{
    match u {
        UserUpdate::SetProfile { bio, profile_img_url } => {
            rec.bio = Some(bio.clone());
            rec.profile_img_url = Some(profile_img_url.clone());
        },
        UserUpdate::AddFollowing(x) => add_to_set(&mut rec.following, *x),
        UserUpdate::PullFollowing(x) => pull_from_set(&mut rec.following, *x),
        UserUpdate::AddFollower(x) => add_to_set(&mut rec.followers, *x),
        UserUpdate::PullFollower(x) => pull_from_set(&mut rec.followers, *x),
        UserUpdate::PushMessage(x) => rec.messages.push(*x),
        UserUpdate::PullMessage(x) => pull_from_set(&mut rec.messages, *x),
        UserUpdate::AddActiveIp(ip) => add_ip(&mut rec.active_ips, ip),
    }
}

impl User {
    /// The account collection.
    pub fn get_collection(data: &Tweetbook) -> (r: &Vec<UserRecord>)
        ensures
            r == data.users,
    {
        &data.users
    }

    /// The account with id `id`, hydrated with its posts (each with its owner
    /// and likers), its followers and its followees; never the password hash.
    pub fn get_user_details(data: &Tweetbook, id: u64) -> (r: Result<User, UserError>)
        requires
            data.wf(),
        ensures
            r == Err::<User, UserError>(UserError::UserNotExists) <==> !has_user(data.users@, id),
            r is Ok <==> has_user(data.users@, id),
            r matches Ok(u) ==> forall|i: int|
                0 <= i < data.users@.len() && data.users@[i].id == id ==> details(
                    u,
                    #[trigger] data.users@[i],
                    data.users@,
                    data.messages@,
                ),
    {
        match data.find_user(id) {
            None => Err(UserError::UserNotExists),
            Some(i) => {
                let u = user_details(&data.users[i], &data.users, &data.messages);
                proof {
                    data.lemma_user_index_unique(i as int);
                }
                Ok(u)
            },
        }
    }
}

impl User {
    /// The projections of the accounts that pass `query`; no nested posts,
    /// followers or followees, and never the password hash.
    pub fn get_user_by_query(data: &Tweetbook, query: &UserQuery) -> (r: Vec<MinUser>)
        ensures
            r@ == users_matching(data.users@, *query),
    {
        let mut out: Vec<MinUser> = Vec::new();
        let mut i: usize = 0;
        while i < data.users.len()
            invariant
                0 <= i <= data.users@.len(),
                out@ == users_matching(data.users@.subrange(0, i as int), *query),
            decreases data.users@.len() - i,
        {
            assert(data.users@.subrange(0, i as int + 1).drop_last() == data.users@.subrange(0, i as int));
            let rec = &data.users[i];
            let hit = match query {
                UserQuery::ById(id) => rec.id == *id,
                UserQuery::ByEmail(e) => rec.email == *e,
                UserQuery::UsernameContains(s) => matches_ignoring_case(s.as_str(), rec.username.as_str()),
            };
            if hit {
                out.push(min_user(rec));
            }
            i = i + 1;
        }
        assert(data.users@.subrange(0, data.users@.len() as int) == data.users@);
        out
    }

    /// Applies `update` to the account with id `user_id` and returns its
    /// projection after the update.
    pub fn update_user(data: &mut Tweetbook, user_id: u64, update: &UserUpdate) -> (r: Result<MinUser, UserError>)
        requires
            old(data).wf(),
        ensures
            final(data).wf(),
            r is Err <==> !has_user(old(data).users@, user_id),
            r is Err ==> r == Err::<MinUser, UserError>(UserError::UserNotExists) && *final(data) == *old(data),
            final(data).messages == old(data).messages,
            final(data).next_id == old(data).next_id,
            final(data).users@.len() == old(data).users@.len(),
            forall|i: int|
                0 <= i < old(data).users@.len() ==> if old(data).users@[i].id == user_id {
                    applied(#[trigger] old(data).users@[i], final(data).users@[i], *update)
                } else {
                    final(data).users@[i] == old(data).users@[i]
                },
            r matches Ok(m) ==> forall|i: int|
                0 <= i < old(data).users@.len() && #[trigger] old(data).users@[i].id == user_id ==> m
                    == min_spec(final(data).users@[i]),
    {
        match data.find_user(user_id) {
            None => Err(UserError::UserNotExists),
            Some(i) => {
                proof {
                    data.lemma_user_index_unique(i as int);
                }
                let ghost before = *data;
                let mut rec = data.users.remove(i);
                apply_update(&mut rec, update);
                data.users.insert(i, rec);
                assert(data.users@ == before.users@.update(i as int, data.users@[i as int]));
                proof {
                    assert(same_keys(before.users@, data.users@));
                    before.lemma_wf_same_keys(data);
                }
                let m = min_user(&data.users[i]);
                Ok(m)
            },
        }
    }
}

/// `new` is `old` with one account appended for `creds`: a fresh id, the
/// password hashed, `ip` as its only known address and empty lists.
pub open spec fn user_added(old: Tweetbook, new: Tweetbook, creds: AuthCredentials, ip: Seq<char>) -> bool {
    let rec = new.users@.last();
    &&& new.users@ == old.users@.push(rec)
    &&& new.messages == old.messages
    &&& new.next_id == old.next_id + 1
    &&& rec.id == old.next_id
    &&& rec.email@ == creds.email@
    &&& creds.username == Some(rec.username)
    &&& password_matches(creds.password@, rec.password@)
    &&& rec.bio is None
    &&& rec.profile_img_url is None
    &&& rec.active_ips@.len() == 1
    &&& rec.active_ips@[0]@ == ip
    &&& rec.messages@.len() == 0
    &&& rec.followers@.len() == 0
    &&& rec.following@.len() == 0
}

/// Rewriting accounts without touching ids or follow lists keeps the follow
/// graph as consistent as it was.
pub proof fn lemma_graph_same_edges(old: Seq<UserRecord>, new: Seq<UserRecord>)
    requires
        graph_ok(old),
        new.len() == old.len(),
        forall|i: int|
            0 <= i < old.len() ==> (#[trigger] new[i]).id == old[i].id && new[i].following@ == old[i].following@
                && new[i].followers@ == old[i].followers@,
    ensures
        graph_ok(new),
{
    assert forall|x: u64| has_user(old, x) implies has_user(new, x) by {
        let k = choose|k: int| 0 <= k < old.len() && old[k].id == x;
        assert(new[k].id == x);
    }
    assert forall|i: int, j: int| 0 <= i < new.len() && 0 <= j < new.len() implies (
    #[trigger] new[i].following@.contains(new[j].id) <==> #[trigger] new[j].followers@.contains(new[i].id)) by {
        assert(new[i].id == old[i].id);
        assert(new[j].id == old[j].id);
        assert(old[i].following@.contains(old[j].id) <==> old[j].followers@.contains(old[i].id));
    }
    assert forall|i: int, x: u64| 0 <= i < new.len() && #[trigger] new[i].following@.contains(x) implies has_user(
        new,
        x,
    ) by {
        assert(new[i].id == old[i].id);
    }
    assert forall|i: int, x: u64| 0 <= i < new.len() && #[trigger] new[i].followers@.contains(x) implies has_user(
        new,
        x,
    ) by {
        assert(new[i].id == old[i].id);
    }
}

/// The bcrypt cost with which passwords are hashed.
pub const HASH_COST: u32 = 10;

/// `new` is `old` with one account appended: a fresh id, the given email,
/// username and password hash, `ip` as its only known address and empty
/// lists.
pub open spec fn record_added(
    old: Tweetbook,
    new: Tweetbook,
    email: Seq<char>,
    username: String,
    password: String,
    ip: Seq<char>,
) -> bool {
    let rec = new.users@.last();
    &&& new.users@ == old.users@.push(rec)
    &&& new.messages == old.messages
    &&& new.next_id == old.next_id + 1
    &&& rec.id == old.next_id
    &&& rec.email@ == email
    &&& rec.username == username
    &&& rec.password == password
    &&& rec.bio is None
    &&& rec.profile_img_url is None
    &&& rec.active_ips@.len() == 1
    &&& rec.active_ips@[0]@ == ip
    &&& rec.messages@.len() == 0
    &&& rec.followers@.len() == 0
    &&& rec.following@.len() == 0
}

impl User {
    /// Stores a new account for `creds` with the given username and password
    /// hash and `ip` as its only known address, and returns its projection.
    /// Fails only when no fresh id is left.
    pub fn add_user_with_hash(
        data: &mut Tweetbook,
        creds: &AuthCredentials,
        username: String,
        hash: String,
        ip: &str,
    ) -> (r: Result<MinUser, UserError>)
        requires
            old(data).wf(),
            !has_email(old(data).users@, creds.email@),
        ensures
            final(data).wf(),
            graph_ok(old(data).users@) ==> graph_ok(final(data).users@),
            ownership_ok(*old(data)) ==> ownership_ok(*final(data)),
            r is Ok <==> old(data).next_id < u64::MAX,
            r is Err ==> r == Err::<MinUser, UserError>(UserError::InternalServerError) && *final(data) == *old(
                data,
            ),
            r matches Ok(m) ==> record_added(*old(data), *final(data), creds.email@, username, hash, ip@) && m
                == min_spec(final(data).users@.last()),
    {
        if data.next_id == u64::MAX {
            return Err(UserError::InternalServerError);
        }
        let ghost username_in = username;
        let ghost hash_in = hash;
        let mut ips: Vec<String> = Vec::new();
        ips.push(ip.to_string());
        let id = data.next_id;
        let rec = UserRecord {
            id,
            email: creds.email.clone(),
            username,
            password: hash,
            bio: None,
            profile_img_url: None,
            active_ips: ips,
            messages: Vec::new(),
            followers: Vec::new(),
            following: Vec::new(),
        };
        let ghost before = *data;
        data.users.push(rec);
        data.next_id = id + 1;
        proof {
            let n = before.users@.len() as int;
            assert(data.users@[n].id == id);
            assert forall|i: int, j: int| 0 <= i < j < data.users@.len() implies #[trigger] data.users@[i].id
                != #[trigger] data.users@[j].id by {
                if j < n {
                    assert(before.users@[i].id != before.users@[j].id);
                } else {
                    assert(before.users@[i].id < before.next_id);
                }
            }
            assert forall|i: int, j: int| 0 <= i < j < data.users@.len() implies #[trigger] data.users@[i].email@
                != #[trigger] data.users@[j].email@ by {
                if j < n {
                    assert(before.users@[i].email@ != before.users@[j].email@);
                } else {
                    assert(!has_email(before.users@, creds.email@));
                    assert(before.users@[i].email@ != creds.email@);
                }
            }
            assert forall|i: int| 0 <= i < data.users@.len() implies #[trigger] data.users@[i].id < data.next_id by {
                if i < n {
                    assert(before.users@[i].id < before.next_id);
                }
            }
            assert forall|i: int| 0 <= i < data.messages@.len() implies #[trigger] data.messages@[i].id
                < data.next_id by {
                assert(before.messages@[i].id < before.next_id);
            }
            if graph_ok(before.users@) {
                lemma_add_keeps_graph(before.users@, data.users@, before.next_id);
            }
            if ownership_ok(before) {
                lemma_add_keeps_ownership(before, *data);
            }
        }
        let m = min_user(&data.users[data.users.len() - 1]);
        Ok(m)
    }

    /// Creates an account from `creds`, with the password hashed and `ip` as
    /// its only known address, and returns its projection. An email that an
    /// account already has is refused first; then a missing username.
    pub fn add_user(data: &mut Tweetbook, creds: &AuthCredentials, ip: &str) -> (r: Result<MinUser, UserError>)
        requires
            old(data).wf(),
        ensures
            final(data).wf(),
            graph_ok(old(data).users@) ==> graph_ok(final(data).users@),
            ownership_ok(*old(data)) ==> ownership_ok(*final(data)),
            r == Err::<MinUser, UserError>(UserError::UserAlreadyExists) <==> has_email(old(data).users@, creds.email@),
            r == Err::<MinUser, UserError>(UserError::WrongInfo) <==> creds.username is None && !has_email(
                old(data).users@,
                creds.email@,
            ),
            r == Err::<MinUser, UserError>(UserError::InternalServerError) ==> creds.username is Some
                && !has_email(old(data).users@, creds.email@),
            creds.username is Some && !has_email(old(data).users@, creds.email@) && old(data).next_id == u64::MAX
                ==> r == Err::<MinUser, UserError>(UserError::InternalServerError),
            r is Err ==> *final(data) == *old(data),
            r matches Err(e) ==> e == UserError::WrongInfo || e == UserError::UserAlreadyExists || e
                == UserError::InternalServerError,
            r matches Ok(m) ==> user_added(*old(data), *final(data), *creds, ip@) && m == min_spec(
                final(data).users@.last(),
            ),
    {
        if data.find_email(&creds.email).is_some() {
            return Err(UserError::UserAlreadyExists);
        }
        let username = match &creds.username {
            None => {
                return Err(UserError::WrongInfo);
            },
            Some(u) => u.clone(),
        };
        if data.next_id == u64::MAX {
            return Err(UserError::InternalServerError);
        }
        let hash = match hash_password(creds.password.as_str(), HASH_COST) {
            None => {
                return Err(UserError::InternalServerError);
            },
            Some(h) => h,
        };
        User::add_user_with_hash(data, creds, username, hash, ip)
    }
}

/// A new account with a fresh id and an empty post list keeps post
/// ownership consistent.
proof fn lemma_add_keeps_ownership(old: Tweetbook, new: Tweetbook)
    requires
        old.wf(),
        ownership_ok(old),
        new.users@.len() == old.users@.len() + 1,
        forall|i: int| 0 <= i < old.users@.len() ==> #[trigger] new.users@[i] == old.users@[i],
        new.users@.last().id == old.next_id,
        new.users@.last().messages@.len() == 0,
        new.messages == old.messages,
        new.next_id == old.next_id + 1,
    ensures
        ownership_ok(new),
{
    let n = old.users@.len() as int;
    assert forall|k: int| 0 <= k < new.messages@.len() implies has_user(new.users@, #[trigger] new.messages@[k].user) by {
        assert(has_user(old.users@, old.messages@[k].user));
        let i = choose|i: int| 0 <= i < old.users@.len() && old.users@[i].id == old.messages@[k].user;
        assert(new.users@[i].id == old.users@[i].id);
    }
    assert forall|k: int, i: int|
        0 <= k < new.messages@.len() && 0 <= i < new.users@.len() && #[trigger] new.users@[i].id
            == #[trigger] new.messages@[k].user implies new.users@[i].messages@.contains(new.messages@[k].id) by {
        if i < n {
            assert(new.users@[i] == old.users@[i]);
        } else {
            assert(has_user(old.users@, old.messages@[k].user));
            let j = choose|j: int| 0 <= j < old.users@.len() && old.users@[j].id == old.messages@[k].user;
            assert(old.users@[j].id < old.next_id);
        }
    }
    assert forall|i: int| 0 <= i < new.users@.len() implies (#[trigger] new.users@[i].messages@).no_duplicates() by {
        if i < n {
            assert(new.users@[i] == old.users@[i]);
        }
    }
    assert forall|i: int, x: u64|
        0 <= i < new.users@.len() && #[trigger] new.users@[i].messages@.contains(x) implies x < new.next_id by {
        if i < n {
            assert(new.users@[i] == old.users@[i]);
        }
    }
}

/// A new account with a fresh id and empty lists keeps the follow graph
/// consistent.
proof fn lemma_add_keeps_graph(old: Seq<UserRecord>, new: Seq<UserRecord>, fresh: u64)
    requires
        graph_ok(old),
        forall|i: int| 0 <= i < old.len() ==> #[trigger] old[i].id < fresh,
        new.len() == old.len() + 1,
        forall|i: int| 0 <= i < old.len() ==> #[trigger] new[i] == old[i],
        new.last().id == fresh,
        new.last().followers@.len() == 0,
        new.last().following@.len() == 0,
    ensures
        graph_ok(new),
{
    let n = old.len() as int;
    assert forall|x: u64| has_user(old, x) implies has_user(new, x) by {
        let k = choose|k: int| 0 <= k < old.len() && old[k].id == x;
        assert(new[k].id == x);
    }
    assert(!has_user(old, fresh)) by {
        if has_user(old, fresh) {
            let k = choose|k: int| 0 <= k < old.len() && old[k].id == fresh;
            assert(old[k].id < fresh);
        }
    }
    assert forall|i: int, j: int| 0 <= i < new.len() && 0 <= j < new.len() implies (
    #[trigger] new[i].following@.contains(new[j].id) <==> #[trigger] new[j].followers@.contains(new[i].id)) by {
        if i < n && j < n {
            assert(new[i] == old[i]);
            assert(new[j] == old[j]);
        } else if i < n {
            assert(new[i] == old[i]);
            assert(!old[i].following@.contains(fresh));
        } else if j < n {
            assert(new[j] == old[j]);
            assert(!old[j].followers@.contains(fresh));
        }
    }
    assert forall|i: int, x: u64| 0 <= i < new.len() && #[trigger] new[i].following@.contains(x) implies has_user(
        new,
        x,
    ) by {
        if i < n {
            assert(new[i] == old[i]);
        }
    }
    assert forall|i: int, x: u64| 0 <= i < new.len() && #[trigger] new[i].followers@.contains(x) implies has_user(
        new,
        x,
    ) by {
        if i < n {
            assert(new[i] == old[i]);
        }
    }
}

/// Username search: the accounts whose username contains `search`, ignoring
/// case.
pub fn user_search(data: &Tweetbook, search: String) -> (r: Vec<MinUser>)
    ensures
        r@ == users_matching(data.users@, UserQuery::UsernameContains(search)),
{
    User::get_user_by_query(data, &UserQuery::UsernameContains(search))
}

/// `a` follows `b`: `b` joins `a`'s followees and `a` joins `b`'s followers,
/// both with set semantics. Returns `b`'s hydrated view afterwards.
pub fn follow_user(data: &mut Tweetbook, a: u64, b: u64) -> (r: Result<User, UserError>)
    requires
        old(data).wf(),
    ensures
        final(data).wf(),
        r is Err <==> !(has_user(old(data).users@, a) && has_user(old(data).users@, b)),
        r is Err ==> r == Err::<User, UserError>(UserError::UserNotExists) && *final(data) == *old(data),
        final(data).messages == old(data).messages,
        final(data).next_id == old(data).next_id,
        final(data).users@.len() == old(data).users@.len(),
        r is Ok ==> forall|i: int|
            0 <= i < old(data).users@.len() ==> follow_step(#[trigger] old(data).users@[i], final(data).users@[i], a, b),
        graph_ok(old(data).users@) ==> graph_ok(final(data).users@),
        ownership_ok(*old(data)) ==> ownership_ok(*final(data)),
        r matches Ok(u) ==> forall|i: int|
            0 <= i < final(data).users@.len() && #[trigger] final(data).users@[i].id == b ==> details(
                u,
                final(data).users@[i],
                final(data).users@,
                final(data).messages@,
            ),
{
    if data.find_user(b).is_none() || data.find_user(a).is_none() {
        return Err(UserError::UserNotExists);
    }
    let ghost start = *data;
    let first = User::update_user(data, a, &UserUpdate::AddFollowing(b));
    if first.is_err() {
        return Err(UserError::UserNotExists);
    }
    let ghost middle = *data;
    let second = User::update_user(data, b, &UserUpdate::AddFollower(a));
    if second.is_err() {
        return Err(UserError::UserNotExists);
    }
    assert forall|i: int| 0 <= i < start.users@.len() implies follow_step(
        #[trigger] start.users@[i],
        data.users@[i],
        a,
        b,
    ) by {
        if start.users@[i].id == a {
            assert(applied(start.users@[i], middle.users@[i], UserUpdate::AddFollowing(b)));
        } else {
            assert(middle.users@[i] == start.users@[i]);
        }
        if middle.users@[i].id == b {
            assert(applied(middle.users@[i], data.users@[i], UserUpdate::AddFollower(a)));
        } else {
            assert(data.users@[i] == middle.users@[i]);
        }
    }
    proof {
        if ownership_ok(start) {
            assert forall|i: int| 0 <= i < start.users@.len() implies (#[trigger] data.users@[i]).id
                == start.users@[i].id && data.users@[i].messages@ == start.users@[i].messages@ by {
                assert(follow_step(start.users@[i], data.users@[i], a, b));
            }
            lemma_ownership_same_lists(start, *data);
        }
        if graph_ok(start.users@) {
            lemma_follow_mirrored(start.users@, data.users@, a, b);
            lemma_steps_closed(start.users@, data.users@, a, b, true);
        }
    }
    User::get_user_details(data, b)
}

/// `a` stops following `b`: each id is pulled from the other's list.
/// Returns `b`'s hydrated view afterwards.
pub fn unfollow_user(data: &mut Tweetbook, a: u64, b: u64) -> (r: Result<User, UserError>)
    requires
        old(data).wf(),
    ensures
        final(data).wf(),
        r is Err <==> !(has_user(old(data).users@, a) && has_user(old(data).users@, b)),
        r is Err ==> r == Err::<User, UserError>(UserError::UserNotExists) && *final(data) == *old(data),
        final(data).messages == old(data).messages,
        final(data).next_id == old(data).next_id,
        final(data).users@.len() == old(data).users@.len(),
        r is Ok ==> forall|i: int|
            0 <= i < old(data).users@.len() ==> unfollow_step(#[trigger] old(data).users@[i], final(data).users@[i], a, b),
        graph_ok(old(data).users@) ==> graph_ok(final(data).users@),
        ownership_ok(*old(data)) ==> ownership_ok(*final(data)),
        r matches Ok(u) ==> forall|i: int|
            0 <= i < final(data).users@.len() && #[trigger] final(data).users@[i].id == b ==> details(
                u,
                final(data).users@[i],
                final(data).users@,
                final(data).messages@,
            ),
{
    if data.find_user(b).is_none() || data.find_user(a).is_none() {
        return Err(UserError::UserNotExists);
    }
    let ghost start = *data;
    let first = User::update_user(data, a, &UserUpdate::PullFollowing(b));
    if first.is_err() {
        return Err(UserError::UserNotExists);
    }
    let ghost middle = *data;
    let second = User::update_user(data, b, &UserUpdate::PullFollower(a));
    if second.is_err() {
        return Err(UserError::UserNotExists);
    }
    assert forall|i: int| 0 <= i < start.users@.len() implies unfollow_step(
        #[trigger] start.users@[i],
        data.users@[i],
        a,
        b,
    ) by {
        if start.users@[i].id == a {
            assert(applied(start.users@[i], middle.users@[i], UserUpdate::PullFollowing(b)));
        } else {
            assert(middle.users@[i] == start.users@[i]);
        }
        if middle.users@[i].id == b {
            assert(applied(middle.users@[i], data.users@[i], UserUpdate::PullFollower(a)));
        } else {
            assert(data.users@[i] == middle.users@[i]);
        }
    }
    proof {
        if ownership_ok(start) {
            assert forall|i: int| 0 <= i < start.users@.len() implies (#[trigger] data.users@[i]).id
                == start.users@[i].id && data.users@[i].messages@ == start.users@[i].messages@ by {
                assert(unfollow_step(start.users@[i], data.users@[i], a, b));
            }
            lemma_ownership_same_lists(start, *data);
        }
        if graph_ok(start.users@) {
            lemma_unfollow_mirrored(start.users@, data.users@, a, b);
            lemma_steps_closed(start.users@, data.users@, a, b, false);
        }
    }
    User::get_user_details(data, b)
}

} // verus!
