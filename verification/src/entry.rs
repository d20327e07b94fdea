//! One named credential and its mathematical model.
use vstd::prelude::*;
use crate::secret::Secret;

verus! {

/// Seconds since the epoch, as the clock reports them.
pub type Timestamp = i64;

/// What an entry is, as plain mathematical values.
pub struct EntryView {
    pub name: Seq<char>,
    pub username: Seq<char>,
    pub secret: Seq<char>,
    pub created_at: int,
    pub updated_at: int,
}

impl EntryView {
    /// An entry is never older in its last change than in its creation.
    pub open spec fn valid(self) -> bool {
        self.created_at <= self.updated_at
    }

    /// The entry as it is after a change made at time `now`: the name and the
    /// time of creation stay, the user name and the secret are the given
    /// ones, and the time of the last change moves to `now` unless that would
    /// move it backwards.
    pub open spec fn revised(self, username: Seq<char>, secret: Seq<char>, now: int) -> EntryView {
        EntryView {
            name: self.name,
            username,
            secret,
            created_at: self.created_at,
            updated_at: if now >= self.updated_at {
                now
            } else {
                self.updated_at
            },
        }
    }

    /// The entry that takes the place of this one when a transformation has
    /// made `out` of it: the user name and the secret are those of `out`; the
    /// name and the time of creation stay; the time of the last change is
    /// that of `out` unless that would move it backwards.
    pub open spec fn replaced_by(self, out: EntryView) -> EntryView {
        self.revised(out.username, out.secret, out.updated_at)
    }
}

/// A named credential: the application it is for, the user name, the secret,
/// and the times of its creation and of its last change.
pub struct PasswordEntry {
    name: String,
    username: String,
    secret: Secret,
    created_at: Timestamp,
    updated_at: Timestamp,
}

impl View for PasswordEntry {
    type V = EntryView;

    closed spec fn view(&self) -> EntryView {
        EntryView {
            name: self.name@,
            username: self.username@,
            secret: self.secret@,
            created_at: self.created_at as int,
            updated_at: self.updated_at as int,
        }
    }
}

impl PasswordEntry {
    /// What holds of every entry: its view is valid.
    #[verifier::type_invariant]
    pub open spec fn well_formed(&self) -> bool {
        self@.valid()
    }

    /// A new entry, created and last changed at `now`.
    pub fn new(name: String, username: String, secret: Secret, now: Timestamp) -> (e: PasswordEntry)
        ensures
            e@ == (EntryView {
                name: name@,
                username: username@,
                secret: secret@,
                created_at: now as int,
                updated_at: now as int,
            }),
            e@.valid(),
    {
        PasswordEntry { name, username, secret, created_at: now, updated_at: now }
    }

    /// The name under which the entry is stored.
    pub fn name(&self) -> (r: &str)
        ensures
            r@ == self@.name,
    {
        self.name.as_str()
    }

    /// The user name of the credential.
    pub fn username(&self) -> (r: &str)
        ensures
            r@ == self@.username,
    {
        self.username.as_str()
    }

    /// The secret of the credential, still wrapped.
    pub fn secret(&self) -> (r: &Secret)
        ensures
            r@ == self@.secret,
    {
        &self.secret
    }

    /// When the entry was created.
    pub fn created_at(&self) -> (r: Timestamp)
        ensures
            r == self@.created_at,
            self@.valid(),
    {
        proof {
            use_type_invariant(self);
        }
        self.created_at
    }

    /// When the entry was last changed.
    pub fn updated_at(&self) -> (r: Timestamp)
        ensures
            r == self@.updated_at,
            self@.valid(),
    {
        proof {
            use_type_invariant(self);
        }
        self.updated_at
    }

    /// The entry with a new user name and secret, changed at `now`. The name
    /// and the time of creation are kept, and the time of the last change
    /// never moves backwards.
    pub fn revise(self, username: String, secret: Secret, now: Timestamp) -> (e: PasswordEntry)
        ensures
            e@ == self@.revised(username@, secret@, now as int),
            e@.valid(),
    {
        proof {
            use_type_invariant(&self);
        }
        let updated_at: Timestamp = if now >= self.updated_at {
            now
        } else {
            self.updated_at
        };
        PasswordEntry {
            name: self.name,
            username,
            secret,
            created_at: self.created_at,
            updated_at,
        }
    }

    /// The entry that takes the place of this one when a transformation has
    /// made `out` of it.
    pub fn replaced_by(&self, out: PasswordEntry) -> (e: PasswordEntry)
        ensures
            e@ == self@.replaced_by(out@),
            e@.valid(),
    {
        proof {
            use_type_invariant(self);
        }
        let updated_at: Timestamp = if out.updated_at >= self.updated_at {
            out.updated_at
        } else {
            self.updated_at
        };
        PasswordEntry {
            name: self.name.clone(),
            username: out.username,
            secret: out.secret,
            created_at: self.created_at,
            updated_at,
        }
    }
}

impl Clone for PasswordEntry {
    /// A copy of the entry, its secret included.
    fn clone(&self) -> (c: PasswordEntry)
        ensures
            c@ == self@,
    {
        proof {
            use_type_invariant(self);
        }
        PasswordEntry {
            name: self.name.clone(),
            username: self.username.clone(),
            secret: self.secret.clone(),
            created_at: self.created_at,
            updated_at: self.updated_at,
        }
    }
}

} // verus!
