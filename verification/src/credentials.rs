//! Where a server password lives: in the system keyring, or (when the
//! keyring cannot take it) in the configuration.

use vstd::prelude::*;

verus! {

/// A server entry's password state.
#[derive(Debug)]
pub struct ServerSecret {
    pub password: Option<String>,
    pub password_in_keyring: bool,
}

/// What to do about a server's password at start-up.
#[derive(Clone, Copy, Debug, PartialEq, Eq)]
pub enum SecretCheck {
    /// The password is recorded as in the keyring: check it is still there.
    VerifyStored,
    /// The password is still in the configuration: move it to the keyring.
    Migrate,
    /// Nothing to do.
    Keep,
}

/// What the keyring said when asked for a stored password.
#[derive(Clone, Copy, Debug, PartialEq, Eq)]
pub enum LookupOutcome {
    Found,
    Missing,
    Failed,
}

impl ServerSecret {
    /// The start-up check for this entry; nothing is done without a keyring.
    pub fn startup_check(&self, keyring_available: bool) -> (r: SecretCheck)
        ensures
            !keyring_available ==> r == SecretCheck::Keep,
            keyring_available && self.password_in_keyring ==> r == SecretCheck::VerifyStored,
            keyring_available && !self.password_in_keyring && self.password is Some ==> r == SecretCheck::Migrate,
            keyring_available && !self.password_in_keyring && self.password is None ==> r == SecretCheck::Keep,
    {
        if !keyring_available {
            SecretCheck::Keep
        } else if self.password_in_keyring {
            SecretCheck::VerifyStored
        } else if self.password.is_some() {
            SecretCheck::Migrate
        } else {
            SecretCheck::Keep
        }
    }

    /// After checking a stored password: a missing keyring entry is
    /// forgotten so the user can enter the password again. Tells whether
    /// the configuration changed.
    pub fn after_lookup(&mut self, outcome: LookupOutcome) -> (changed: bool)
        ensures
            outcome == LookupOutcome::Missing ==> !final(self).password_in_keyring && changed,
            outcome != LookupOutcome::Missing ==> final(self).password_in_keyring == old(self).password_in_keyring && !changed,
            final(self).password == old(self).password,
    {
        match outcome {
            LookupOutcome::Missing => {
                self.password_in_keyring = false;
                true
            },
            _ => false,
        }
    }

    /// After trying to store the password in the keyring: on success the
    /// entry records that and drops the plaintext; on failure the
    /// plaintext stays. Tells whether the configuration changed.
    pub fn after_store(&mut self, stored: bool) -> (changed: bool)
        ensures
            stored ==> final(self).password_in_keyring && final(self).password is None && changed,
            !stored ==> final(self).password == old(self).password
                && final(self).password_in_keyring == old(self).password_in_keyring && !changed,
    {
        if stored {
            self.password_in_keyring = true;
            self.password = None;
            true
        } else {
            false
        }
    }

    /// Whether saving this entry should store its password in the keyring:
    /// when it has a non-empty one.
    pub fn has_password_to_store(&self) -> (r: bool)
        ensures
            r == (self.password matches Some(p) && p@.len() > 0),
    {
        match &self.password {
            Some(p) => !p.as_str().is_empty(),
            None => false,
        }
    }
}

} // verus!
