use vstd::prelude::*;

verus! {

/// A restaurant row: database-assigned id, non-empty display name, and the
/// time of the most recent visit as whole seconds since the Unix epoch.
pub struct Restaurant {
    pub id: i32,
    pub name: String,
    pub last_visit_time: i64,
}

impl Restaurant {
    /// A restaurant row is valid when its name is non-empty and its visit
    /// time is a non-negative epoch second count.
    pub open spec fn valid(self) -> bool {
        &&& self.name@.len() > 0
        &&& self.last_visit_time >= 0
    }
}

impl Clone for Restaurant {
    fn clone(&self) -> (r: Restaurant)
        ensures
            r == *self,
    {
        Restaurant { id: self.id, name: self.name.clone(), last_visit_time: self.last_visit_time }
    }
}

/// A user account row.
pub struct User {
    pub id: i32,
    pub username: String,
}

impl Clone for User {
    fn clone(&self) -> (r: User)
        ensures
            r == *self,
    {
        User { id: self.id, username: self.username.clone() }
    }
}

/// The password-hash record tied one-to-one to a user; never exists
/// without the user it references.
pub struct Credential {
    pub id: i32,
    pub user_id: i32,
    pub password_hash: String,
}

impl Clone for Credential {
    fn clone(&self) -> (r: Credential)
        ensures
            r == *self,
    {
        Credential {
            id: self.id,
            user_id: self.user_id,
            password_hash: self.password_hash.clone(),
        }
    }
}

/// Ascending recency order: the least recently visited restaurant first.
pub open spec fn sorted_by_recency(s: Seq<Restaurant>) -> bool {
    forall|i: int, j: int|
        0 <= i <= j < s.len() ==> s[i].last_visit_time <= s[j].last_visit_time
}

} // verus!
