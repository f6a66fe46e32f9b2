//! The identity registry: maps an opaque caller identity (supplied,
//! already authenticated, by the hosting environment and handed to the
//! library as a plain string key) to a user profile. Profiles are created
//! or replaced by `set_user`; the last write wins and profiles are never
//! deleted.

use vstd::prelude::*;
use vstd::hash_map::StringHashMap;

verus! {

/// A user profile: two caller-supplied name strings, not validated in any
/// way (empty strings are permitted).
pub struct User {
    pub first_name: String,
    pub last_name: String,
}

/// The mathematical value of a [`User`]: its two names as character
/// sequences.
#[verifier::ext_equal]
pub struct UserView {
    pub first_name: Seq<char>,
    pub last_name: Seq<char>,
}

impl View for User {
    type V = UserView;

    open spec fn view(&self) -> UserView {
        UserView { first_name: self.first_name@, last_name: self.last_name@ }
    }
}

impl Clone for User {
    fn clone(&self) -> (r: Self)
        ensures
            r@ == self@,
    {
        User { first_name: self.first_name.clone(), last_name: self.last_name.clone() }
    }
}

/// The answer to `who_am_i`: the caller's profile if one was registered,
/// else a distinguished "unknown" answer. Absence is a normal outcome,
/// not an error.
pub enum WhoamiResponse {
    KnownUser(User),
    UnknownUser,
}

impl View for WhoamiResponse {
    type V = Option<UserView>;

    open spec fn view(&self) -> Option<UserView> {
        match self {
            WhoamiResponse::KnownUser(user) => Some(user@),
            WhoamiResponse::UnknownUser => None,
        }
    }
}

/// The greeting answered to a caller identity.
pub open spec fn greeting_of(caller: Seq<char>) -> Seq<char> {
    "Hello "@ + caller + "!"@
}

/// Builds the greeting for a caller identity.
pub fn greeting(caller: &str) -> (r: String)
    ensures
        r@ == greeting_of(caller@),
{
    let mut r = String::from_str("Hello ");
    r.append(caller);
    r.append("!");
    r
}

/// Maps each caller identity to the profile most recently registered for
/// it. At most one profile per identity.
pub struct IdentityRegistry {
    users: StringHashMap<User>,
}

impl View for IdentityRegistry {
    type V = Map<Seq<char>, UserView>;

    closed spec fn view(&self) -> Map<Seq<char>, UserView> {
        self.users@.map_values(|user: User| user@)
    }
}

impl IdentityRegistry {
    /// An empty registry: no identity has a profile.
    pub fn new() -> (r: Self)
        ensures
            r@ == Map::<Seq<char>, UserView>::empty(),
    {
        let registry = IdentityRegistry { users: StringHashMap::new() };
        proof {
            assert(registry@ =~= Map::<Seq<char>, UserView>::empty());
        }
        registry
    }

    /// Inserts or replaces the profile for the given caller identity.
    pub fn set(&mut self, caller: String, user: User)
        ensures
            final(self)@ == old(self)@.insert(caller@, user@),
    {
        let ghost prior = self.users@;
        let ghost key = caller@;
        let ghost inserted = user@;
        self.users.insert(caller, user);
        proof {
            assert(self@ =~= prior.map_values(|u: User| u@).insert(key, inserted));
        }
    }

    /// Looks the caller identity up; `None` when no profile was ever
    /// registered for it.
    pub fn get(&self, caller: &str) -> (r: Option<&User>)
        ensures
            match r {
                Some(user) => self@.contains_key(caller@) && user@ == self@[caller@],
                None => !self@.contains_key(caller@),
            },
    {
        self.users.get(caller)
    }
}

} // verus!
