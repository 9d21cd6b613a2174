use vstd::prelude::*;

use crate::errors::LunchOrderError;
use crate::model::{Credential, User};
use crate::store::Store;

verus! {

/// What a successful registration does to the store: exactly one user row
/// and exactly one credential row are appended together, the credential
/// referencing the new user's id and carrying the given password hash;
/// the restaurant table is untouched.
pub open spec fn registration_applied(
    pre: Store,
    post: Store,
    username: Seq<char>,
    hash: Seq<char>,
    uid: int,
) -> bool {
    &&& uid == pre.users@.len() + 1
    &&& post.users@.len() == pre.users@.len() + 1
    &&& post.users@ == pre.users@.push(post.users@.last())
    &&& post.users@.last().id as int == uid
    &&& post.users@.last().username@ == username
    &&& post.credentials@.len() == pre.credentials@.len() + 1
    &&& post.credentials@ == pre.credentials@.push(post.credentials@.last())
    &&& post.credentials@.last().id as int == pre.credentials@.len() + 1
    &&& post.credentials@.last().user_id as int == uid
    &&& post.credentials@.last().password_hash@ == hash
    &&& post.restaurants@ == pre.restaurants@
}

impl Store {
    /// The two-row write at the heart of registration, taking the password
    /// hash as computed: append a user row with the given username and a
    /// credential row referencing it, both together or neither. A username
    /// already present in the user table is refused as a constraint
    /// violation, wrapped as a registration failure, and the store is left
    /// exactly as it was.
    pub fn register_with_hash(&mut self, username: String, password_hash: String) -> (result:
        Result<i32, LunchOrderError>)
        requires
            old(self).wf(),
            old(self).users@.len() < i32::MAX as int,
        ensures
            final(self).wf(),
            result is Err ==> *final(self) == *old(self),
            old(self).has_username(username@) ==> (result matches Err(e) && e.wraps(
                LunchOrderError::Query,
            )),
            !old(self).has_username(username@) ==> result is Ok && registration_applied(
                *old(self),
                *final(self),
                username@,
                password_hash@,
                result->Ok_0 as int,
            ),
    {
        let n = self.users.len();
        let mut i: usize = 0;
        while i < n
            invariant
                i <= n,
                n == self.users@.len(),
                *self == *old(self),
                self.wf(),
                self.users@.len() < i32::MAX as int,
                forall|k: int| 0 <= k < i ==> (#[trigger] self.users@[k]).username@ != username@,
            decreases n - i,
        {
            if self.users[i].username == username {
                return Err(LunchOrderError::Registration(Box::new(LunchOrderError::Query)));
            }
            i += 1;
        }
        let uid = (self.users.len() + 1) as i32;
        self.users.push(User { id: uid, username });
        self.credentials.push(Credential { id: uid, user_id: uid, password_hash });
        Ok(uid)
    }

    /// Register a new account: hash the password with bcrypt at its
    /// default work factor, then append the user row and its credential
    /// row as a single all-or-nothing step. Any failure — the hash
    /// computation's or a username constraint violation — leaves the
    /// store exactly as it was and is reported as a registration failure
    /// wrapping the cause.
    pub fn register(&mut self, username: String, password: String) -> (result: Result<
        i32,
        LunchOrderError,
    >)
        requires
            old(self).wf(),
            old(self).users@.len() < i32::MAX as int,
        ensures
            final(self).wf(),
            result is Err ==> *final(self) == *old(self),
            old(self).has_username(username@) ==> result is Err,
            result is Ok ==> !old(self).has_username(username@) && registration_applied(
                *old(self),
                *final(self),
                username@,
                final(self).credentials@.last().password_hash@,
                result->Ok_0 as int,
            ),
            result is Err && !old(self).has_username(username@) ==> (result matches Err(e)
                && e.wraps(LunchOrderError::Hash)),
    {
        match hash_password(password.as_str()) {
            None => Err(LunchOrderError::Registration(Box::new(LunchOrderError::Hash))),
            Some(hash) => self.register_with_hash(username, hash),
        }
    }
}

/// Registration is all-or-nothing: whatever the outcome, either the user
/// row and its credential row were appended together, or neither table
/// changed at all — a user row is never left behind without its
/// credential.
pub proof fn lemma_register_all_or_nothing(
    pre: Store,
    post: Store,
    username: Seq<char>,
    hash: Seq<char>,
    result: Result<i32, LunchOrderError>,
)
    requires
        result is Err ==> post == pre,
        result is Ok ==> registration_applied(pre, post, username, hash, result->Ok_0 as int),
    ensures
        (post.users@ == pre.users@ && post.credentials@ == pre.credentials@) || (post.users@.len()
            == pre.users@.len() + 1 && post.credentials@.len() == pre.credentials@.len() + 1
            && post.credentials@.last().user_id == post.users@.last().id),
{
}

/// In a well-formed store the user and credential tables pair up row by
/// row: there are exactly as many credentials as users, and the
/// credential at each index references exactly the user at that index.
pub proof fn lemma_user_credential_pairing(s: Store)
    requires
        s.wf(),
    ensures
        s.users@.len() == s.credentials@.len(),
        forall|i: int|
            0 <= i < s.users@.len() ==> (#[trigger] s.credentials@[i]).user_id == s.users@[i].id,
{
}

/// Relies on `bcrypt::hash` with `bcrypt::DEFAULT_COST`: on success the
/// result is a fresh randomly salted bcrypt hash of the password, always
/// exactly 60 ASCII characters; the call fails only when the operating
/// system's randomness source does, and never panics for this cost.
#[verifier::external_body]
fn hash_password(password: &str) -> (r: Option<String>)
    ensures
        r matches Some(h) ==> h@.len() == 60,
{
    bcrypt::hash(password, bcrypt::DEFAULT_COST).ok()
}

} // verus!
