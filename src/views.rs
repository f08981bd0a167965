use vstd::prelude::*;
use crate::store::{MessageRecord, UserRecord};

verus! {

/// The reduced view of an account: never carries the password hash or the
/// relationship lists.
pub struct MinUser {
    pub id: u64,
    pub email: String,
    pub username: String,
    pub bio: Option<String>,
    pub profile_img_url: Option<String>,
}

/// A post reduced to its id and text.
pub struct MinMessage {
    pub id: u64,
    pub text: String,
}

/// A post hydrated with its owner and the accounts that like it.
pub struct Message {
    pub id: u64,
    pub text: String,
    pub user: Option<MinUser>,
    pub created_at: i64,
    pub updated_at: i64,
    pub likes: Vec<MinUser>,
}

/// An account hydrated with its posts, followers and followees.
pub struct User {
    pub id: u64,
    pub email: String,
    pub username: String,
    pub bio: Option<String>,
    pub profile_img_url: Option<String>,
    pub messages: Vec<Message>,
    pub followers: Vec<MinUser>,
    pub following: Vec<MinUser>,
}

/// The projection of an account record.
pub open spec fn min_spec(r: UserRecord) -> MinUser {
    MinUser {
        id: r.id,
        email: r.email,
        username: r.username,
        bio: r.bio,
        profile_img_url: r.profile_img_url,
    }
}

/// Equality join: the projections of the accounts whose id is in `ids`, in
/// the order of the collection.
pub open spec fn joined(users: Seq<UserRecord>, ids: Seq<u64>) -> Seq<MinUser>
    decreases users.len(),
{
    if users.len() == 0 {
        Seq::empty()
    } else if ids.contains(users.last().id) {
        joined(users.drop_last(), ids).push(min_spec(users.last()))
    } else {
        joined(users.drop_last(), ids)
    }
}

/// Join and flatten: the projection of the first account with id `id`.
pub open spec fn first_joined(users: Seq<UserRecord>, id: u64) -> Option<MinUser>
    decreases users.len(),
{
    if users.len() == 0 {
        None
    } else if users[0].id == id {
        Some(min_spec(users[0]))
    } else {
        first_joined(users.drop_first(), id)
    }
}

/// The posts whose id is in `ids`, in the order of the collection.
pub open spec fn posts_in(msgs: Seq<MessageRecord>, ids: Seq<u64>) -> Seq<MessageRecord>
    decreases msgs.len(),
{
    if msgs.len() == 0 {
        Seq::empty()
    } else if ids.contains(msgs.last().id) {
        posts_in(msgs.drop_last(), ids).push(msgs.last())
    } else {
        posts_in(msgs.drop_last(), ids)
    }
}

/// `m` is the post record `rec` hydrated against the accounts `users`.
pub open spec fn hydrated(m: Message, rec: MessageRecord, users: Seq<UserRecord>) -> bool {
    &&& m.id == rec.id
    &&& m.text == rec.text
    &&& m.user == first_joined(users, rec.user)
    &&& m.created_at == rec.created_at
    &&& m.updated_at == rec.updated_at
    &&& m.likes@ == joined(users, rec.likes@)
}

/// `ms` are the records `recs` hydrated one by one.
pub open spec fn all_hydrated(ms: Seq<Message>, recs: Seq<MessageRecord>, users: Seq<UserRecord>) -> bool {
    &&& ms.len() == recs.len()
    &&& forall|i: int| 0 <= i < ms.len() ==> #[trigger] hydrated(ms[i], recs[i], users)
}

/// `u` is the account record `rec` hydrated against the store.
pub open spec fn details(u: User, rec: UserRecord, users: Seq<UserRecord>, msgs: Seq<MessageRecord>) -> bool {
    &&& u.id == rec.id
    &&& u.email == rec.email
    &&& u.username == rec.username
    &&& u.bio == rec.bio
    &&& u.profile_img_url == rec.profile_img_url
    &&& all_hydrated(u.messages@, posts_in(msgs, rec.messages@), users)
    &&& u.followers@ == joined(users, rec.followers@)
    &&& u.following@ == joined(users, rec.following@)
}

fn clone_opt(s: &Option<String>) -> (r: Option<String>)
    ensures
        r == *s,
{
    match s {
        Some(v) => Some(v.clone()),
        None => None,
    }
}

/// Projects an account record.
pub fn min_user(r: &UserRecord) -> (m: MinUser)
    ensures
        m == min_spec(*r),
{
    MinUser {
        id: r.id,
        email: r.email.clone(),
        username: r.username.clone(),
        bio: clone_opt(&r.bio),
        profile_img_url: clone_opt(&r.profile_img_url),
    }
}

/// The join of `ids` against the accounts.
pub fn join_users(users: &Vec<UserRecord>, ids: &Vec<u64>) -> (r: Vec<MinUser>)
    ensures
        r@ == joined(users@, ids@),
{
    let mut out: Vec<MinUser> = Vec::new();
    let mut i: usize = 0;
    while i < users.len()
        invariant
            0 <= i <= users@.len(),
            out@ == joined(users@.subrange(0, i as int), ids@),
        decreases users@.len() - i,
    {
        assert(users@.subrange(0, i as int + 1).drop_last() == users@.subrange(0, i as int));
        if crate::sets::contains_id(ids, users[i].id) {
            out.push(min_user(&users[i]));
        }
        i = i + 1;
    }
    assert(users@.subrange(0, users@.len() as int) == users@);
    out
}

/// The first account with id `id`, projected.
pub fn first_user(users: &Vec<UserRecord>, id: u64) -> (r: Option<MinUser>)
    ensures
        r == first_joined(users@, id),
{
    let mut i: usize = 0;
    assert(users@.subrange(0, users@.len() as int) == users@);
    while i < users.len()
        invariant
            0 <= i <= users@.len(),
            first_joined(users@, id) == first_joined(users@.subrange(i as int, users@.len() as int), id),
        decreases users@.len() - i,
    {
        let ghost rest = users@.subrange(i as int, users@.len() as int);
        assert(rest.drop_first() == users@.subrange(i as int + 1, users@.len() as int));
        if users[i].id == id {
            return Some(min_user(&users[i]));
        }
        i = i + 1;
    }
    None
}

/// Hydrates one post record.
pub fn hydrate(rec: &MessageRecord, users: &Vec<UserRecord>) -> (m: Message)
    ensures
        hydrated(m, *rec, users@),
{
    Message {
        id: rec.id,
        text: rec.text.clone(),
        user: first_user(users, rec.user),
        created_at: rec.created_at,
        updated_at: rec.updated_at,
        likes: join_users(users, &rec.likes),
    }
}

/// Hydrates the posts whose id is in `ids`, in the order of the collection.
pub fn hydrate_posts(msgs: &Vec<MessageRecord>, ids: &Vec<u64>, users: &Vec<UserRecord>) -> (r: Vec<Message>)
    ensures
        all_hydrated(r@, posts_in(msgs@, ids@), users@),
{
    let mut out: Vec<Message> = Vec::new();
    let mut i: usize = 0;
    while i < msgs.len()
        invariant
            0 <= i <= msgs@.len(),
            all_hydrated(out@, posts_in(msgs@.subrange(0, i as int), ids@), users@),
        decreases msgs@.len() - i,
    {
        assert(msgs@.subrange(0, i as int + 1).drop_last() == msgs@.subrange(0, i as int));
        if crate::sets::contains_id(ids, msgs[i].id) {
            let m = hydrate(&msgs[i], users);
            out.push(m);
        }
        i = i + 1;
    }
    assert(msgs@.subrange(0, msgs@.len() as int) == msgs@);
    out
}

/// Hydrates the account record `rec`.
pub fn user_details(rec: &UserRecord, users: &Vec<UserRecord>, msgs: &Vec<MessageRecord>) -> (u: User)
    ensures
        details(u, *rec, users@, msgs@),
{
    User {
        id: rec.id,
        email: rec.email.clone(),
        username: rec.username.clone(),
        bio: clone_opt(&rec.bio),
        profile_img_url: clone_opt(&rec.profile_img_url),
        messages: hydrate_posts(msgs, &rec.messages, users),
        followers: join_users(users, &rec.followers),
        following: join_users(users, &rec.following),
    }
}

} // verus!
