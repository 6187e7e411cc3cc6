//! The users that may authenticate, and the key files they hand in.

use crate::error::AppError;
use crate::text::chars_of;
use crate::text::string_of;
use crate::text::trim;
use crate::text::trimmed;
use crate::time::Timestamp;
use vstd::prelude::*;
use vstd::string::StringExecFns;

verus! {

/// One user: a name and a public key text. A user is known by its public
/// key alone: there are no further rights to grant.
#[derive(Debug, Clone, PartialEq, Eq)]
pub struct User {
    pub username: String,
    pub public_key: String,
    pub created_at: Timestamp,
    pub key_modified_at: Timestamp,
    pub last_seen_at: Option<Timestamp>,
}

/// The public key text of a key file: its content, trimmed. An empty key is
/// a `ConfigError`.
pub fn public_key_from_file(content: &str) -> (r: Result<String, AppError>)
    ensures
        match r {
            Ok(key) => key@ == trim(content@) && key@.len() > 0,
            Err(e) => trim(content@).len() == 0 && e is ConfigError,
        },
{
    let key = trimmed(&chars_of(content));
    if key.len() == 0 {
        return Err(AppError::ConfigError(String::from_str("Public key file is empty.")));
    }
    Ok(string_of(&key))
}

impl User {
    /// A user added at time `now`, never seen yet.
    pub fn new(username: String, public_key: String, now: Timestamp) -> (user: User)
        ensures
            user.username == username,
            user.public_key == public_key,
            user.created_at == now,
            user.key_modified_at == now,
            user.last_seen_at is None,
    {
        User { username, public_key, created_at: now, key_modified_at: now, last_seen_at: None }
    }

    /// Replaces the user's key at time `now`.
    pub fn set_key(&mut self, public_key: String, now: Timestamp)
        ensures
            final(self).public_key == public_key,
            final(self).key_modified_at == now,
            final(self).username == old(self).username,
            final(self).created_at == old(self).created_at,
            final(self).last_seen_at == old(self).last_seen_at,
    {
        self.public_key = public_key;
        self.key_modified_at = now;
    }

    /// Records that the user authenticated at time `now`.
    pub fn seen(&mut self, now: Timestamp)
        ensures
            final(self).last_seen_at == Some(now),
            final(self).username == old(self).username,
            final(self).public_key == old(self).public_key,
            final(self).created_at == old(self).created_at,
            final(self).key_modified_at == old(self).key_modified_at,
    {
        self.last_seen_at = Some(now);
    }
}

} // verus!
