use vstd::prelude::*;
use crate::error::UserError;
use crate::sets::{
    add_to_set, added, lemma_pull_undoes_add, lemma_pulled_contains, lemma_pulled_no_duplicates, pull_from_set,
    pulled,
};
use crate::store::{has_message, has_user, lemma_ownership_same_lists, ownership_ok, MessageRecord, Tweetbook};
use crate::users::{applied, UserUpdate};
use crate::views::{all_hydrated, hydrate, hydrated, Message};

verus! {

/// An update of a post's like-set.
pub enum MessageUpdate {
    Like(u64),
    Unlike(u64),
}

/// What `u` makes of the like-set `s`.
pub open spec fn likes_after(s: Seq<u64>, u: MessageUpdate) -> Seq<u64> {
    match u {
        MessageUpdate::Like(x) => added(s, x),
        MessageUpdate::Unlike(x) => pulled(s, x),
    }
}

/// The posts that a query selects, in the order of the collection: all of
/// them, or those with the given id.
pub open spec fn posts_matching(msgs: Seq<MessageRecord>, query: Option<u64>) -> Seq<MessageRecord>
    decreases msgs.len(),
{
    if msgs.len() == 0 {
        Seq::empty()
    } else if query is None || query == Some(msgs.last().id) {
        posts_matching(msgs.drop_last(), query).push(msgs.last())
    } else {
        posts_matching(msgs.drop_last(), query)
    }
}

/// Every post that a query selects comes from the collection.
pub proof fn lemma_matching_from(msgs: Seq<MessageRecord>, query: Option<u64>)
    ensures
        forall|k: int|
            0 <= k < posts_matching(msgs, query).len() ==> msgs.contains(#[trigger] posts_matching(msgs, query)[k]),
    decreases msgs.len(),
{
    if msgs.len() > 0 {
        lemma_matching_from(msgs.drop_last(), query);
        let p = posts_matching(msgs.drop_last(), query);
        assert forall|k: int| 0 <= k < posts_matching(msgs, query).len() implies msgs.contains(
            #[trigger] posts_matching(msgs, query)[k],
        ) by {
            if k < p.len() {
                assert(msgs.drop_last().contains(p[k]));
                let j = choose|j: int| 0 <= j < msgs.drop_last().len() && msgs.drop_last()[j] == p[k];
                assert(msgs[j] == p[k]);
            } else {
                assert(msgs[msgs.len() - 1] == msgs.last());
            }
        }
    }
}

/// The post record `new` is `old` after the like update `u`.
pub open spec fn like_applied(old: MessageRecord, new: MessageRecord, u: MessageUpdate) -> bool {
    &&& new.id == old.id
    &&& new.text == old.text
    &&& new.user == old.user
    &&& new.created_at == old.created_at
    &&& new.updated_at == old.updated_at
    &&& new.likes@ == likes_after(old.likes@, u)
}

/// A like followed by an unlike of the same account leaves the like-set as it
/// was, when the account did not like the post before.
pub proof fn law_unlike_undoes_like(s0: MessageRecord, s1: MessageRecord, s2: MessageRecord, u: u64)
    requires
        !s0.likes@.contains(u),
        like_applied(s0, s1, MessageUpdate::Like(u)),
        like_applied(s1, s2, MessageUpdate::Unlike(u)),
    ensures
        s2.likes@ == s0.likes@,
{
    lemma_pull_undoes_add(s0.likes@, u);
}

/// A deleted post is gone from the global listing: no post that the listing
/// of all posts selects carries its id.
pub proof fn law_deleted_post_unlisted(msgs: Seq<MessageRecord>, id: u64)
    requires
        !has_message(msgs, id),
    ensures
        forall|k: int|
            0 <= k < posts_matching(msgs, None).len() ==> (#[trigger] posts_matching(msgs, None)[k]).id != id,
{
    lemma_matching_from(msgs, None);
    assert forall|k: int| 0 <= k < posts_matching(msgs, None).len() implies (#[trigger] posts_matching(
        msgs,
        None,
    )[k]).id != id by {
        let p = posts_matching(msgs, None)[k];
        assert(msgs.contains(p));
        let j = choose|j: int| 0 <= j < msgs.len() && msgs[j] == p;
        assert(msgs[j].id != id);
    }
}

/// Linking a post with a fresh id into its owner's list keeps post
/// ownership consistent.
proof fn lemma_insert_keeps_ownership(old: Tweetbook, new: Tweetbook, owner: u64)
    requires
        ownership_ok(old),
        has_user(old.users@, owner),
        new.next_id == old.next_id + 1,
        new.messages@.len() == old.messages@.len() + 1,
        forall|k: int| 0 <= k < old.messages@.len() ==> #[trigger] new.messages@[k] == old.messages@[k],
        new.messages@.last().id == old.next_id,
        new.messages@.last().user == owner,
        new.users@.len() == old.users@.len(),
        forall|i: int|
            0 <= i < old.users@.len() ==> if old.users@[i].id == owner {
                applied(#[trigger] old.users@[i], new.users@[i], UserUpdate::PushMessage(old.next_id))
            } else {
                new.users@[i] == old.users@[i]
            },
    ensures
        ownership_ok(new),
{
    let n = old.messages@.len() as int;
    assert forall|i: int| 0 <= i < old.users@.len() implies (#[trigger] new.users@[i]).id == old.users@[i].id by {
        if old.users@[i].id == owner {
            assert(applied(old.users@[i], new.users@[i], UserUpdate::PushMessage(old.next_id)));
        }
    }
    assert forall|k: int| 0 <= k < new.messages@.len() implies has_user(new.users@, #[trigger] new.messages@[k].user) by {
        let u = new.messages@[k].user;
        if k < n {
            assert(new.messages@[k] == old.messages@[k]);
        }
        assert(has_user(old.users@, u));
        let i = choose|i: int| 0 <= i < old.users@.len() && old.users@[i].id == u;
        assert(new.users@[i].id == old.users@[i].id);
    }
    assert forall|k: int, i: int|
        0 <= k < new.messages@.len() && 0 <= i < new.users@.len() && #[trigger] new.users@[i].id
            == #[trigger] new.messages@[k].user implies new.users@[i].messages@.contains(new.messages@[k].id) by {
        assert(new.users@[i].id == old.users@[i].id);
        if old.users@[i].id == owner {
            assert(applied(old.users@[i], new.users@[i], UserUpdate::PushMessage(old.next_id)));
            let s = old.users@[i].messages@;
            if k < n {
                assert(new.messages@[k] == old.messages@[k]);
                assert(s.contains(old.messages@[k].id));
                let j = choose|j: int| 0 <= j < s.len() && s[j] == old.messages@[k].id;
                assert(s.push(old.next_id)[j] == s[j]);
            } else {
                assert(s.push(old.next_id)[s.len() as int] == old.next_id);
            }
        } else {
            assert(new.users@[i] == old.users@[i]);
            if k < n {
                assert(new.messages@[k] == old.messages@[k]);
            }
        }
    }
    assert forall|i: int| 0 <= i < new.users@.len() implies (#[trigger] new.users@[i].messages@).no_duplicates() by {
        if old.users@[i].id == owner {
            assert(applied(old.users@[i], new.users@[i], UserUpdate::PushMessage(old.next_id)));
            let s = old.users@[i].messages@;
            assert(s.no_duplicates());
            assert(!s.contains(old.next_id)) by {
                if s.contains(old.next_id) {
                    assert(old.users@[i].messages@.contains(old.next_id));
                }
            }
            assert forall|a: int, b: int| 0 <= a < s.push(old.next_id).len() && 0 <= b < s.push(old.next_id).len()
                && a != b implies s.push(old.next_id)[a] != s.push(old.next_id)[b] by {
                if a < s.len() && b == s.len() {
                    assert(s.contains(s[a]));
                } else if b < s.len() && a == s.len() {
                    assert(s.contains(s[b]));
                }
            }
        } else {
            assert(new.users@[i] == old.users@[i]);
        }
    }
    assert forall|i: int, x: u64|
        0 <= i < new.users@.len() && #[trigger] new.users@[i].messages@.contains(x) implies x < new.next_id by {
        if old.users@[i].id == owner {
            assert(applied(old.users@[i], new.users@[i], UserUpdate::PushMessage(old.next_id)));
            let s = old.users@[i].messages@;
            let j = choose|j: int| 0 <= j < s.push(old.next_id).len() && s.push(old.next_id)[j] == x;
            if j < s.len() {
                assert(s.contains(s[j]));
                assert(old.users@[i].messages@.contains(x));
            }
        } else {
            assert(new.users@[i] == old.users@[i]);
            assert(old.users@[i].messages@.contains(x));
        }
    }
}

/// Removing an owned post and pulling its id from the owner's list keeps
/// post ownership consistent.
proof fn lemma_delete_keeps_ownership(old: Tweetbook, new: Tweetbook, k: int, owner: u64, id: u64)
    requires
        old.wf(),
        ownership_ok(old),
        0 <= k < old.messages@.len(),
        old.messages@[k].id == id,
        old.messages@[k].user == owner,
        new.messages@ == old.messages@.remove(k),
        new.next_id == old.next_id,
        new.users@.len() == old.users@.len(),
        forall|i: int|
            0 <= i < old.users@.len() ==> if old.users@[i].id == owner {
                applied(#[trigger] old.users@[i], new.users@[i], UserUpdate::PullMessage(id))
            } else {
                new.users@[i] == old.users@[i]
            },
    ensures
        ownership_ok(new),
{
    assert forall|i: int| 0 <= i < old.users@.len() implies (#[trigger] new.users@[i]).id == old.users@[i].id by {
        if old.users@[i].id == owner {
            assert(applied(old.users@[i], new.users@[i], UserUpdate::PullMessage(id)));
        }
    }
    assert forall|m: int| 0 <= m < new.messages@.len() implies has_user(new.users@, #[trigger] new.messages@[m].user) by {
        let m0 = if m < k { m } else { m + 1 };
        assert(new.messages@[m] == old.messages@[m0]);
        assert(has_user(old.users@, old.messages@[m0].user));
        let i = choose|i: int| 0 <= i < old.users@.len() && old.users@[i].id == old.messages@[m0].user;
        assert(new.users@[i].id == old.users@[i].id);
    }
    assert forall|m: int, i: int|
        0 <= m < new.messages@.len() && 0 <= i < new.users@.len() && #[trigger] new.users@[i].id
            == #[trigger] new.messages@[m].user implies new.users@[i].messages@.contains(new.messages@[m].id) by {
        let m0 = if m < k { m } else { m + 1 };
        assert(new.messages@[m] == old.messages@[m0]);
        assert(old.messages@[m0].id != id) by {
            if m0 < k {
                assert(old.messages@[m0].id != old.messages@[k].id);
            } else {
                assert(old.messages@[k].id != old.messages@[m0].id);
            }
        }
        assert(new.users@[i].id == old.users@[i].id);
        assert(old.users@[i].messages@.contains(old.messages@[m0].id));
        if old.users@[i].id == owner {
            assert(applied(old.users@[i], new.users@[i], UserUpdate::PullMessage(id)));
            lemma_pulled_contains(old.users@[i].messages@, id, old.messages@[m0].id);
        } else {
            assert(new.users@[i] == old.users@[i]);
        }
    }
    assert forall|i: int| 0 <= i < new.users@.len() implies (#[trigger] new.users@[i].messages@).no_duplicates() by {
        assert(old.users@[i].messages@.no_duplicates());
        if old.users@[i].id == owner {
            assert(applied(old.users@[i], new.users@[i], UserUpdate::PullMessage(id)));
            lemma_pulled_no_duplicates(old.users@[i].messages@, id);
        } else {
            assert(new.users@[i] == old.users@[i]);
        }
    }
    assert forall|i: int, x: u64|
        0 <= i < new.users@.len() && #[trigger] new.users@[i].messages@.contains(x) implies x < new.next_id by {
        if old.users@[i].id == owner {
            assert(applied(old.users@[i], new.users@[i], UserUpdate::PullMessage(id)));
            lemma_pulled_contains(old.users@[i].messages@, id, x);
        } else {
            assert(new.users@[i] == old.users@[i]);
        }
        assert(old.users@[i].messages@.contains(x));
    }
}

impl Message {
    /// The post collection.
    pub fn get_collection(data: &Tweetbook) -> (r: &Vec<MessageRecord>)
        ensures
            r == data.messages,
    {
        &data.messages
    }

    /// The posts that `query` selects (all of them for `None`), each hydrated
    /// with its owner and its likers.
    pub fn get_message_by_query(data: &Tweetbook, query: Option<u64>) -> (r: Vec<Message>)
        ensures
            all_hydrated(r@, posts_matching(data.messages@, query), data.users@),
    {
        let mut out: Vec<Message> = Vec::new();
        let mut i: usize = 0;
        while i < data.messages.len()
            invariant
                0 <= i <= data.messages@.len(),
                all_hydrated(out@, posts_matching(data.messages@.subrange(0, i as int), query), data.users@),
            decreases data.messages@.len() - i,
        {
            assert(data.messages@.subrange(0, i as int + 1).drop_last() == data.messages@.subrange(0, i as int));
            let selected = match query {
                None => true,
                Some(id) => data.messages[i].id == id,
            };
            if selected {
                let m = hydrate(&data.messages[i], &data.users);
                out.push(m);
            }
            i = i + 1;
        }
        assert(data.messages@.subrange(0, data.messages@.len() as int) == data.messages@);
        out
    }

    /// The post `tweet_id`, hydrated; `InternalServerError` when there is none.
    pub fn get_tweet(data: &Tweetbook, tweet_id: u64) -> (r: Result<Message, UserError>)
        requires
            data.wf(),
        ensures
            r is Err <==> !has_message(data.messages@, tweet_id),
            r is Err ==> r == Err::<Message, UserError>(UserError::InternalServerError),
            r matches Ok(m) ==> forall|i: int|
                0 <= i < data.messages@.len() && #[trigger] data.messages@[i].id == tweet_id ==> hydrated(
                    m,
                    data.messages@[i],
                    data.users@,
                ),
    {
        match data.find_message(tweet_id) {
            None => Err(UserError::InternalServerError),
            Some(i) => {
                proof {
                    data.lemma_message_index_unique(i as int);
                }
                Ok(hydrate(&data.messages[i], &data.users))
            },
        }
    }

    /// Creates a post with text `text` owned by `user_id`, stamped `now`, and
    /// appends its id to the owner's post list.
    pub fn insert_message(data: &mut Tweetbook, text: String, user_id: u64, now: i64) -> (r: Result<
        Message,
        UserError,
    >)
        requires
            old(data).wf(),
        ensures
            final(data).wf(),
            ownership_ok(*old(data)) ==> ownership_ok(*final(data)),
            r == Err::<Message, UserError>(UserError::WrongInfo) <==> text@.len() == 0,
            r == Err::<Message, UserError>(UserError::UserNotExists) <==> text@.len() > 0 && !has_user(
                old(data).users@,
                user_id,
            ),
            r == Err::<Message, UserError>(UserError::InternalServerError) <==> text@.len() > 0 && has_user(
                old(data).users@,
                user_id,
            ) && old(data).next_id == u64::MAX,
            r matches Err(e) ==> e == UserError::WrongInfo || e == UserError::UserNotExists || e
                == UserError::InternalServerError,
            r is Err ==> *final(data) == *old(data),
            r matches Ok(m) ==> {
                let rec = final(data).messages@.last();
                &&& final(data).next_id == old(data).next_id + 1
                &&& final(data).messages@ == old(data).messages@.push(rec)
                &&& rec.id == old(data).next_id
                &&& rec.text == text
                &&& rec.user == user_id
                &&& rec.created_at == now
                &&& rec.updated_at == now
                &&& rec.likes@.len() == 0
                &&& final(data).users@.len() == old(data).users@.len()
                &&& forall|i: int|
                    0 <= i < old(data).users@.len() ==> if old(data).users@[i].id == user_id {
                        applied(#[trigger] old(data).users@[i], final(data).users@[i], UserUpdate::PushMessage(rec.id))
                    } else {
                        final(data).users@[i] == old(data).users@[i]
                    }
                &&& hydrated(m, rec, final(data).users@)
            },
    {
        if text.as_str().unicode_len() == 0 {
            return Err(UserError::WrongInfo);
        }
        if data.find_user(user_id).is_none() {
            return Err(UserError::UserNotExists);
        }
        if data.next_id == u64::MAX {
            return Err(UserError::InternalServerError);
        }
        let id = data.next_id;
        let ghost start = *data;
        let linked = crate::views::User::update_user(data, user_id, &UserUpdate::PushMessage(id));
        if linked.is_err() {
            return Err(UserError::UserNotExists);
        }
        let ghost mid = *data;
        let rec = MessageRecord { id, text, user: user_id, created_at: now, updated_at: now, likes: Vec::new() };
        data.messages.push(rec);
        data.next_id = id + 1;
        proof {
            assert(mid.wf());
            assert forall|i: int, j: int|
                0 <= i < j < data.messages@.len() implies #[trigger] data.messages@[i].id
                    != #[trigger] data.messages@[j].id by {
                if j < mid.messages@.len() {
                    assert(mid.messages@[i].id != mid.messages@[j].id);
                } else {
                    assert(mid.messages@[i].id < mid.next_id);
                }
            }
            assert forall|i: int| 0 <= i < data.users@.len() implies #[trigger] data.users@[i].id < data.next_id by {
                assert(mid.users@[i].id < mid.next_id);
            }
            assert forall|i: int| 0 <= i < data.messages@.len() implies #[trigger] data.messages@[i].id
                < data.next_id by {
                if i < mid.messages@.len() {
                    assert(mid.messages@[i].id < mid.next_id);
                }
            }
            if ownership_ok(start) {
                lemma_insert_keeps_ownership(start, *data, user_id);
            }
        }
        let n = data.messages.len() - 1;
        let m = hydrate(&data.messages[n], &data.users);
        Ok(m)
    }

    /// Applies the like update `update` to the post with id `message_id` and
    /// returns the post hydrated afterwards. Liking twice and unliking a post
    /// that one does not like change nothing.
    pub fn update_message(data: &mut Tweetbook, message_id: u64, update: &MessageUpdate) -> (r: Result<
        Message,
        UserError,
    >)
        requires
            old(data).wf(),
        ensures
            final(data).wf(),
            r is Err <==> !has_message(old(data).messages@, message_id),
            r is Err ==> r == Err::<Message, UserError>(UserError::InternalServerError) && *final(data) == *old(
                data,
            ),
            ownership_ok(*old(data)) ==> ownership_ok(*final(data)),
            final(data).users == old(data).users,
            final(data).next_id == old(data).next_id,
            final(data).messages@.len() == old(data).messages@.len(),
            forall|i: int|
                0 <= i < old(data).messages@.len() ==> if old(data).messages@[i].id == message_id {
                    like_applied(#[trigger] old(data).messages@[i], final(data).messages@[i], *update)
                } else {
                    final(data).messages@[i] == old(data).messages@[i]
                },
            r matches Ok(m) ==> forall|i: int|
                0 <= i < final(data).messages@.len() && #[trigger] final(data).messages@[i].id == message_id
                    ==> hydrated(m, final(data).messages@[i], final(data).users@),
    {
        match data.find_message(message_id) {
            None => Err(UserError::InternalServerError),
            Some(i) => {
                proof {
                    data.lemma_message_index_unique(i as int);
                }
                let ghost before = *data;
                let mut rec = data.messages.remove(i);
                match update {
                    MessageUpdate::Like(x) => add_to_set(&mut rec.likes, *x),
                    MessageUpdate::Unlike(x) => pull_from_set(&mut rec.likes, *x),
                }
                data.messages.insert(i, rec);
                assert(data.messages@ == before.messages@.update(i as int, data.messages@[i as int]));
                proof {
                    assert forall|a: int, b: int|
                        0 <= a < b < data.messages@.len() implies #[trigger] data.messages@[a].id
                            != #[trigger] data.messages@[b].id by {
                        assert(before.messages@[a].id != before.messages@[b].id);
                    }
                    assert forall|a: int| 0 <= a < data.messages@.len() implies #[trigger] data.messages@[a].id
                        < data.next_id by {
                        assert(before.messages@[a].id < before.next_id);
                    }
                    if ownership_ok(before) {
                        assert forall|k: int| 0 <= k < before.messages@.len() implies (
                        #[trigger] data.messages@[k]).id == before.messages@[k].id && data.messages@[k].user
                            == before.messages@[k].user by {
                            if k != i as int {
                                assert(data.messages@[k] == before.messages@[k]);
                            }
                        }
                        lemma_ownership_same_lists(before, *data);
                    }
                }
                let m = hydrate(&data.messages[i], &data.users);
                Ok(m)
            },
        }
    }

    /// Deletes the post `tweet_id` when `user_id` owns it, then pulls its id
    /// from the owner's post list. A non-owner gets `Unauthorised` and
    /// nothing changes.
    pub fn delete_message(data: &mut Tweetbook, tweet_id: u64, user_id: u64) -> (r: Result<(), UserError>)
        requires
            old(data).wf(),
        ensures
            final(data).wf(),
            ownership_ok(*old(data)) ==> ownership_ok(*final(data)),
            r == Err::<(), UserError>(UserError::InternalServerError) <==> !has_message(old(data).messages@, tweet_id),
            r == Err::<(), UserError>(UserError::Unauthorised) <==> exists|k: int|
                0 <= k < old(data).messages@.len() && #[trigger] old(data).messages@[k].id == tweet_id
                    && old(data).messages@[k].user != user_id,
            r is Ok <==> exists|k: int|
                0 <= k < old(data).messages@.len() && #[trigger] old(data).messages@[k].id == tweet_id
                    && old(data).messages@[k].user == user_id,
            r is Err ==> *final(data) == *old(data),
            r is Ok ==> {
                &&& !has_message(final(data).messages@, tweet_id)
                &&& exists|k: int|
                    0 <= k < old(data).messages@.len() && #[trigger] old(data).messages@[k].id == tweet_id
                        && old(data).messages@[k].user == user_id && final(data).messages@
                        == old(data).messages@.remove(k)
                &&& has_user(old(data).users@, user_id) ==> forall|i: int|
                    0 <= i < old(data).users@.len() ==> if old(data).users@[i].id == user_id {
                        applied(
                            #[trigger] old(data).users@[i],
                            final(data).users@[i],
                            UserUpdate::PullMessage(tweet_id),
                        )
                    } else {
                        final(data).users@[i] == old(data).users@[i]
                    }
                &&& forall|i: int|
                    0 <= i < final(data).users@.len() && #[trigger] final(data).users@[i].id == user_id
                        ==> !final(data).users@[i].messages@.contains(tweet_id)
                &&& !has_user(old(data).users@, user_id) ==> final(data).users == old(data).users
                &&& final(data).next_id == old(data).next_id
            },
    {
        let k = match data.find_message(tweet_id) {
            None => {
                return Err(UserError::InternalServerError);
            },
            Some(k) => k,
        };
        proof {
            data.lemma_message_index_unique(k as int);
        }
        if data.messages[k].user != user_id {
            return Err(UserError::Unauthorised);
        }
        let ghost before = *data;
        let _removed = data.messages.remove(k);
        proof {
            assert forall|a: int, b: int|
                0 <= a < b < data.messages@.len() implies #[trigger] data.messages@[a].id
                    != #[trigger] data.messages@[b].id by {
                let a0 = if a < k { a } else { a + 1 };
                let b0 = if b < k { b } else { b + 1 };
                assert(data.messages@[a] == before.messages@[a0]);
                assert(data.messages@[b] == before.messages@[b0]);
                assert(before.messages@[a0].id != before.messages@[b0].id);
            }
            assert forall|a: int| 0 <= a < data.messages@.len() implies #[trigger] data.messages@[a].id
                < data.next_id by {
                let a0 = if a < k { a } else { a + 1 };
                assert(data.messages@[a] == before.messages@[a0]);
                assert(before.messages@[a0].id < before.next_id);
            }
            if has_message(data.messages@, tweet_id) {
                let a = choose|a: int| 0 <= a < data.messages@.len() && data.messages@[a].id == tweet_id;
                let a0 = if a < k { a } else { a + 1 };
                assert(data.messages@[a] == before.messages@[a0]);
            }
        }
        let ghost mid = *data;
        let _unlinked = crate::views::User::update_user(data, user_id, &UserUpdate::PullMessage(tweet_id));
        proof {
            assert forall|i: int|
                0 <= i < data.users@.len() && #[trigger] data.users@[i].id == user_id implies !data.users@[i].messages@.contains(
                tweet_id,
            ) by {
                assert(has_user(mid.users@, user_id));
                assert(applied(mid.users@[i], data.users@[i], UserUpdate::PullMessage(tweet_id)));
                lemma_pulled_contains(mid.users@[i].messages@, tweet_id, tweet_id);
            }
            if ownership_ok(before) {
                assert(has_user(before.users@, before.messages@[k as int].user));
                lemma_delete_keeps_ownership(before, *data, k as int, user_id, tweet_id);
            }
        }
        Ok(())
    }
}

} // verus!
