use super::field::User;
use crate::phi_base::PhiString;
use vstd::prelude::*;
use vstd::std_specs::convert::FromSpecImpl;

verus! {

/// The user profile in canonical form: the same fields, the strings bare.
#[derive(Debug, PartialEq, Eq)]
pub struct SerializableUser {
    pub version: u8,
    pub show_player_id: bool,
    pub self_intro: String,
    pub avatar: String,
    pub background: String,
}

impl SerializableUser {
    /// The canonical form of a record.
    pub open spec fn of_raw(user: User) -> SerializableUser {
        SerializableUser {
            version: user.version,
            show_player_id: user.show_player_id,
            self_intro: user.self_intro.0,
            avatar: user.avatar.0,
            background: user.background.0,
        }
    }

    /// The record that the canonical form stands for.
    pub open spec fn raw(self) -> User {
        User {
            version: self.version,
            show_player_id: self.show_player_id,
            self_intro: PhiString(self.self_intro),
            avatar: PhiString(self.avatar),
            background: PhiString(self.background),
        }
    }
}

impl From<User> for SerializableUser {
    fn from(user: User) -> (su: SerializableUser)
        ensures
            su == SerializableUser::of_raw(user),
    {
        SerializableUser {
            version: user.version,
            show_player_id: user.show_player_id,
            self_intro: user.self_intro.0,
            avatar: user.avatar.0,
            background: user.background.0,
        }
    }
}

impl FromSpecImpl<User> for SerializableUser {
    open spec fn obeys_from_spec() -> bool {
        true
    }

    open spec fn from_spec(user: User) -> SerializableUser {
        SerializableUser::of_raw(user)
    }
}

impl From<SerializableUser> for User {
    fn from(su: SerializableUser) -> (user: User)
        ensures
            user == su.raw(),
    {
        User {
            version: su.version,
            show_player_id: su.show_player_id,
            self_intro: PhiString(su.self_intro),
            avatar: PhiString(su.avatar),
            background: PhiString(su.background),
        }
    }
}

impl FromSpecImpl<SerializableUser> for User {
    open spec fn obeys_from_spec() -> bool {
        true
    }

    open spec fn from_spec(su: SerializableUser) -> User {
        su.raw()
    }
}

/// The canonical form and back is the record itself, and the other way round.
pub proof fn lemma_user_there_and_back(raw: User, c: SerializableUser)
    ensures
        SerializableUser::of_raw(raw).raw() == raw,
        SerializableUser::of_raw(c.raw()) == c,
{
}

} // verus!
