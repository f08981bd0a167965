use vstd::prelude::*;

verus! {

/// An account as the store holds it.
pub struct UserRecord {
    pub id: u64,
    pub email: String,
    pub username: String,
    /// The password hash; it never leaves the store.
    pub password: String,
    pub bio: Option<String>,
    pub profile_img_url: Option<String>,
    /// The client addresses that this account signed in from.
    pub active_ips: Vec<String>,
    /// The ids of the posts that this account owns, oldest first.
    pub messages: Vec<u64>,
    pub followers: Vec<u64>,
    pub following: Vec<u64>,
}

/// A post as the store holds it.
pub struct MessageRecord {
    pub id: u64,
    pub text: String,
    /// The id of the owning account.
    pub user: u64,
    pub created_at: i64,
    pub updated_at: i64,
    /// The ids of the accounts that like this post.
    pub likes: Vec<u64>,
}

/// The two collections of the service, accounts and posts, and the next
/// fresh id.
pub struct Tweetbook {
    pub users: Vec<UserRecord>,
    pub messages: Vec<MessageRecord>,
    pub next_id: u64,
}

/// Whether some account has id `id`.
pub open spec fn has_user(users: Seq<UserRecord>, id: u64) -> bool {
    exists|i: int| 0 <= i < users.len() && users[i].id == id
}

/// Whether some account has email `email`.
pub open spec fn has_email(users: Seq<UserRecord>, email: Seq<char>) -> bool {
    exists|i: int| 0 <= i < users.len() && users[i].email@ == email
}

/// Whether some post has id `id`.
pub open spec fn has_message(msgs: Seq<MessageRecord>, id: u64) -> bool {
    exists|i: int| 0 <= i < msgs.len() && msgs[i].id == id
}

/// The mirrored-edge invariant: `a` lists `b` among its followees exactly
/// when `b` lists `a` among its followers.
pub open spec fn mirrored(users: Seq<UserRecord>) -> bool {
    forall|i: int, j: int|
        0 <= i < users.len() && 0 <= j < users.len() ==> (#[trigger] users[i].following@.contains(
            users[j].id,
        ) <==> #[trigger] users[j].followers@.contains(users[i].id))
}

/// Every id in a follower or followee list names an account of the store.
pub open spec fn closed(users: Seq<UserRecord>) -> bool {
    &&& forall|i: int, x: u64|
        0 <= i < users.len() && #[trigger] users[i].following@.contains(x) ==> has_user(users, x)
    &&& forall|i: int, x: u64|
        0 <= i < users.len() && #[trigger] users[i].followers@.contains(x) ==> has_user(users, x)
}

/// The follow graph is consistent: edges are mirrored and name known accounts.
pub open spec fn graph_ok(users: Seq<UserRecord>) -> bool {
    mirrored(users) && closed(users)
}

/// Post ownership is consistent: every post's owner is an account whose post
/// list holds the post's id, each list holds each id at most once (so the
/// owner lists the post exactly once), and lists hold only ids already given
/// out.
pub open spec fn ownership_ok(data: Tweetbook) -> bool {
    let users = data.users@;
    let msgs = data.messages@;
    &&& forall|k: int| 0 <= k < msgs.len() ==> has_user(users, #[trigger] msgs[k].user)
    &&& forall|k: int, i: int|
        0 <= k < msgs.len() && 0 <= i < users.len() && #[trigger] users[i].id == #[trigger] msgs[k].user
            ==> users[i].messages@.contains(msgs[k].id)
    &&& forall|i: int| 0 <= i < users.len() ==> (#[trigger] users[i].messages@).no_duplicates()
    &&& forall|i: int, x: u64|
        0 <= i < users.len() && #[trigger] users[i].messages@.contains(x) ==> x < data.next_id
}

/// Changes that keep every id, owner and post list in place keep ownership
/// consistent.
pub proof fn lemma_ownership_same_lists(old: Tweetbook, new: Tweetbook)
    requires
        ownership_ok(old),
        new.users@.len() == old.users@.len(),
        new.messages@.len() == old.messages@.len(),
        new.next_id >= old.next_id,
        forall|i: int|
            0 <= i < old.users@.len() ==> (#[trigger] new.users@[i]).id == old.users@[i].id
                && new.users@[i].messages@ == old.users@[i].messages@,
        forall|k: int|
            0 <= k < old.messages@.len() ==> (#[trigger] new.messages@[k]).id == old.messages@[k].id
                && new.messages@[k].user == old.messages@[k].user,
    ensures
        ownership_ok(new),
{
    assert forall|k: int| 0 <= k < new.messages@.len() implies has_user(new.users@, #[trigger] new.messages@[k].user) by {
        assert(new.messages@[k].user == old.messages@[k].user);
        assert(has_user(old.users@, old.messages@[k].user));
        let i = choose|i: int| 0 <= i < old.users@.len() && old.users@[i].id == old.messages@[k].user;
        assert(new.users@[i].id == old.users@[i].id);
    }
    assert forall|k: int, i: int|
        0 <= k < new.messages@.len() && 0 <= i < new.users@.len() && #[trigger] new.users@[i].id
            == #[trigger] new.messages@[k].user implies new.users@[i].messages@.contains(new.messages@[k].id) by {
        assert(new.users@[i].id == old.users@[i].id);
        assert(new.messages@[k].user == old.messages@[k].user);
        assert(old.users@[i].messages@.contains(old.messages@[k].id));
    }
    assert forall|i: int| 0 <= i < new.users@.len() implies (#[trigger] new.users@[i].messages@).no_duplicates() by {
        assert(new.users@[i].messages@ == old.users@[i].messages@);
        assert(old.users@[i].messages@.no_duplicates());
    }
    assert forall|i: int, x: u64|
        0 <= i < new.users@.len() && #[trigger] new.users@[i].messages@.contains(x) implies x < new.next_id by {
        assert(new.users@[i].messages@ == old.users@[i].messages@);
        assert(old.users@[i].messages@.contains(x));
    }
}

/// Records from which a well-formed store can be built: ids unique in each
/// collection and below `u64::MAX`, emails unique.
pub open spec fn loadable(users: Seq<UserRecord>, msgs: Seq<MessageRecord>) -> bool {
    &&& forall|i: int, j: int| 0 <= i < j < users.len() ==> #[trigger] users[i].id != #[trigger] users[j].id
    &&& forall|i: int, j: int| 0 <= i < j < users.len() ==> #[trigger] users[i].email@ != #[trigger] users[j].email@
    &&& forall|i: int, j: int| 0 <= i < j < msgs.len() ==> #[trigger] msgs[i].id != #[trigger] msgs[j].id
    &&& forall|i: int| 0 <= i < users.len() ==> #[trigger] users[i].id < u64::MAX
    &&& forall|i: int| 0 <= i < msgs.len() ==> #[trigger] msgs[i].id < u64::MAX
}

/// Whether the ids of the accounts are pairwise distinct and below `u64::MAX`;
/// `bound` becomes one more than the largest.
fn user_ids_ok(users: &Vec<UserRecord>, bound: &mut u64) -> (r: bool)
    ensures
        r == ((forall|i: int, j: int| 0 <= i < j < users@.len() ==> #[trigger] users@[i].id != #[trigger] users@[j].id)
            && (forall|i: int| 0 <= i < users@.len() ==> #[trigger] users@[i].id < u64::MAX)),
        r ==> *final(bound) >= *old(bound),
        r ==> forall|i: int| 0 <= i < users@.len() ==> #[trigger] users@[i].id < *final(bound),
{
    let mut i: usize = 0;
    while i < users.len()
        invariant
            0 <= i <= users@.len(),
            *bound >= *old(bound),
            forall|a: int, b: int| 0 <= a < b < i ==> #[trigger] users@[a].id != #[trigger] users@[b].id,
            forall|a: int| 0 <= a < i ==> #[trigger] users@[a].id < *bound,
        decreases users@.len() - i,
    {
        if users[i].id == u64::MAX {
            assert(!(users@[i as int].id < u64::MAX));
            return false;
        }
        let mut j: usize = 0;
        while j < i
            invariant
                0 <= j <= i < users@.len(),
                forall|a: int| 0 <= a < j ==> #[trigger] users@[a].id != users@[i as int].id,
            decreases i - j,
        {
            if users[j].id == users[i].id {
                assert(users@[j as int].id == users@[i as int].id);
                return false;
            }
            j = j + 1;
        }
        if users[i].id >= *bound {
            *bound = users[i].id + 1;
        }
        i = i + 1;
    }
    true
}

/// Whether the emails of the accounts are pairwise distinct.
fn emails_ok(users: &Vec<UserRecord>) -> (r: bool)
    ensures
        r == (forall|i: int, j: int|
            0 <= i < j < users@.len() ==> #[trigger] users@[i].email@ != #[trigger] users@[j].email@),
{
    let mut i: usize = 0;
    while i < users.len()
        invariant
            0 <= i <= users@.len(),
            forall|a: int, b: int| 0 <= a < b < i ==> #[trigger] users@[a].email@ != #[trigger] users@[b].email@,
        decreases users@.len() - i,
    {
        let mut j: usize = 0;
        while j < i
            invariant
                0 <= j <= i < users@.len(),
                forall|a: int| 0 <= a < j ==> #[trigger] users@[a].email@ != users@[i as int].email@,
            decreases i - j,
        {
            if users[j].email == users[i].email {
                return false;
            }
            j = j + 1;
        }
        i = i + 1;
    }
    true
}

/// Whether the ids of the posts are pairwise distinct and below `u64::MAX`;
/// `bound` becomes one more than the largest.
fn message_ids_ok(msgs: &Vec<MessageRecord>, bound: &mut u64) -> (r: bool)
    ensures
        r == ((forall|i: int, j: int| 0 <= i < j < msgs@.len() ==> #[trigger] msgs@[i].id != #[trigger] msgs@[j].id)
            && (forall|i: int| 0 <= i < msgs@.len() ==> #[trigger] msgs@[i].id < u64::MAX)),
        r ==> *final(bound) >= *old(bound),
        r ==> forall|i: int| 0 <= i < msgs@.len() ==> #[trigger] msgs@[i].id < *final(bound),
{
    let mut i: usize = 0;
    while i < msgs.len()
        invariant
            0 <= i <= msgs@.len(),
            *bound >= *old(bound),
            forall|a: int, b: int| 0 <= a < b < i ==> #[trigger] msgs@[a].id != #[trigger] msgs@[b].id,
            forall|a: int| 0 <= a < i ==> #[trigger] msgs@[a].id < *bound,
        decreases msgs@.len() - i,
    {
        if msgs[i].id == u64::MAX {
            assert(!(msgs@[i as int].id < u64::MAX));
            return false;
        }
        let mut j: usize = 0;
        while j < i
            invariant
                0 <= j <= i < msgs@.len(),
                forall|a: int| 0 <= a < j ==> #[trigger] msgs@[a].id != msgs@[i as int].id,
            decreases i - j,
        {
            if msgs[j].id == msgs[i].id {
                assert(msgs@[j as int].id == msgs@[i as int].id);
                return false;
            }
            j = j + 1;
        }
        if msgs[i].id >= *bound {
            *bound = msgs[i].id + 1;
        }
        i = i + 1;
    }
    true
}

/// Two account sequences that agree on ids and emails, position by position.
pub open spec fn same_keys(a: Seq<UserRecord>, b: Seq<UserRecord>) -> bool {
    &&& a.len() == b.len()
    &&& forall|i: int| 0 <= i < a.len() ==> (#[trigger] b[i]).id == a[i].id && b[i].email@ == a[i].email@
}

impl Tweetbook {
    /// Ids are unique in each collection and below `next_id`; emails are unique.
    pub open spec fn wf(&self) -> bool {
        &&& forall|i: int, j: int|
            0 <= i < j < self.users@.len() ==> #[trigger] self.users@[i].id != #[trigger] self.users@[j].id
        &&& forall|i: int, j: int|
            0 <= i < j < self.users@.len() ==> #[trigger] self.users@[i].email@ != #[trigger] self.users@[j].email@
        &&& forall|i: int, j: int|
            0 <= i < j < self.messages@.len() ==> #[trigger] self.messages@[i].id != #[trigger] self.messages@[j].id
        &&& forall|i: int| 0 <= i < self.users@.len() ==> #[trigger] self.users@[i].id < self.next_id
        &&& forall|i: int| 0 <= i < self.messages@.len() ==> #[trigger] self.messages@[i].id < self.next_id
    }

    /// Only one account carries the id of the account at `i`.
    pub proof fn lemma_user_index_unique(&self, i: int)
        requires
            self.wf(),
            0 <= i < self.users@.len(),
        ensures
            forall|k: int|
                0 <= k < self.users@.len() && #[trigger] self.users@[k].id == self.users@[i].id ==> k == i,
    {
        assert forall|k: int|
            0 <= k < self.users@.len() && #[trigger] self.users@[k].id == self.users@[i].id implies k == i by {
            if k < i {
                assert(self.users@[k].id != self.users@[i].id);
            } else if k > i {
                assert(self.users@[i].id != self.users@[k].id);
            }
        }
    }

    /// Only one post carries the id of the post at `i`.
    pub proof fn lemma_message_index_unique(&self, i: int)
        requires
            self.wf(),
            0 <= i < self.messages@.len(),
        ensures
            forall|k: int|
                0 <= k < self.messages@.len() && #[trigger] self.messages@[k].id == self.messages@[i].id ==> k == i,
    {
        assert forall|k: int|
            0 <= k < self.messages@.len() && #[trigger] self.messages@[k].id == self.messages@[i].id implies k == i by {
            if k < i {
                assert(self.messages@[k].id != self.messages@[i].id);
            } else if k > i {
                assert(self.messages@[i].id != self.messages@[k].id);
            }
        }
    }

    /// Rewriting accounts without touching their ids or emails keeps the
    /// store well formed.
    pub proof fn lemma_wf_same_keys(&self, other: &Tweetbook)
        requires
            self.wf(),
            same_keys(self.users@, other.users@),
            other.messages@ == self.messages@,
            other.next_id == self.next_id,
        ensures
            other.wf(),
    {
        assert forall|i: int, j: int| 0 <= i < j < other.users@.len() implies #[trigger] other.users@[i].id
            != #[trigger] other.users@[j].id by {
            assert(self.users@[i].id != self.users@[j].id);
        }
        assert forall|i: int, j: int| 0 <= i < j < other.users@.len() implies #[trigger] other.users@[i].email@
            != #[trigger] other.users@[j].email@ by {
            assert(self.users@[i].email@ != self.users@[j].email@);
        }
        assert forall|i: int| 0 <= i < other.users@.len() implies #[trigger] other.users@[i].id < other.next_id by {
            assert(self.users@[i].id < self.next_id);
        }
    }

    /// An empty store.
    pub fn init() -> (r: Tweetbook)
        ensures
            r.wf(),
            ownership_ok(r),
            r.users@.len() == 0,
            r.messages@.len() == 0,
            graph_ok(r.users@),
    {
        Tweetbook { users: Vec::new(), messages: Vec::new(), next_id: 0 }
    }

    /// A store holding the given records, when they are loadable; the next
    /// fresh id is one more than the largest id in use.
    pub fn from_records(users: Vec<UserRecord>, messages: Vec<MessageRecord>) -> (r: Option<Tweetbook>)
        ensures
            r is Some <==> loadable(users@, messages@),
            r matches Some(t) ==> t.wf() && t.users@ == users@ && t.messages@ == messages@,
    {
        let mut bound: u64 = 0;
        if !user_ids_ok(&users, &mut bound) {
            return None;
        }
        if !emails_ok(&users) {
            return None;
        }
        if !message_ids_ok(&messages, &mut bound) {
            return None;
        }
        Some(Tweetbook { users, messages, next_id: bound })
    }

    /// The position of the account with id `id`.
    pub fn find_user(&self, id: u64) -> (r: Option<usize>)
        ensures
            r matches Some(i) ==> i < self.users@.len() && self.users@[i as int].id == id,
            r is None <==> !has_user(self.users@, id),
    {
        let mut i: usize = 0;
        while i < self.users.len()
            invariant
                0 <= i <= self.users@.len(),
                forall|k: int| 0 <= k < i ==> self.users@[k].id != id,
            decreases self.users@.len() - i,
        {
            if self.users[i].id == id {
                return Some(i);
            }
            i = i + 1;
        }
        None
    }

    /// The position of the account with email `email`.
    pub fn find_email(&self, email: &String) -> (r: Option<usize>)
        ensures
            r matches Some(i) ==> i < self.users@.len() && self.users@[i as int].email@ == email@,
            r is None <==> !has_email(self.users@, email@),
    {
        let mut i: usize = 0;
        while i < self.users.len()
            invariant
                0 <= i <= self.users@.len(),
                forall|k: int| 0 <= k < i ==> self.users@[k].email@ != email@,
            decreases self.users@.len() - i,
        {
            if self.users[i].email == *email {
                return Some(i);
            }
            i = i + 1;
        }
        None
    }

    /// The position of the post with id `id`.
    pub fn find_message(&self, id: u64) -> (r: Option<usize>)
        ensures
            r matches Some(i) ==> i < self.messages@.len() && self.messages@[i as int].id == id,
            r is None <==> !has_message(self.messages@, id),
    {
        let mut i: usize = 0;
        while i < self.messages.len()
            invariant
                0 <= i <= self.messages@.len(),
                forall|k: int| 0 <= k < i ==> self.messages@[k].id != id,
            decreases self.messages@.len() - i,
        {
            if self.messages[i].id == id {
                return Some(i);
            }
            i = i + 1;
        }
        None
    }
}

} // verus!
