use super::field::{MultiLevel, Summary};
use crate::phi_base::{PhiString, VarInt};
use vstd::prelude::*;
use vstd::std_specs::convert::FromSpecImpl;

verus! {

/// The summary in canonical form: the same fields, the game version and the avatar bare.
/// `rks` holds the bits of an IEEE 754 single-precision number.
#[derive(Debug, PartialEq, Eq)]
pub struct SerializableSummary {
    pub save_version: u8,
    pub challenge_mode_rank: u16,
    pub rks: u32,
    pub game_version: u16,
    pub avatar: String,
    pub level: MultiLevel,
}

impl SerializableSummary {
    /// The canonical form of a record.
    pub open spec fn of_raw(s: Summary) -> SerializableSummary {
        SerializableSummary {
            save_version: s.save_version,
            challenge_mode_rank: s.challenge_mode_rank,
            rks: s.rks,
            game_version: s.game_version.0,
            avatar: s.avatar.0,
            level: s.level,
        }
    }

    /// The record that the canonical form stands for.
    pub open spec fn raw(self) -> Summary {
        Summary {
            save_version: self.save_version,
            challenge_mode_rank: self.challenge_mode_rank,
            rks: self.rks,
            game_version: VarInt(self.game_version),
            avatar: PhiString(self.avatar),
            level: self.level,
        }
    }
}

impl From<Summary> for SerializableSummary {
    fn from(s: Summary) -> (c: SerializableSummary)
        ensures
            c == SerializableSummary::of_raw(s),
    {
        SerializableSummary {
            save_version: s.save_version,
            challenge_mode_rank: s.challenge_mode_rank,
            rks: s.rks,
            game_version: s.game_version.0,
            avatar: s.avatar.0,
            level: s.level,
        }
    }
}

impl FromSpecImpl<Summary> for SerializableSummary {
    open spec fn obeys_from_spec() -> bool {
        true
    }

    open spec fn from_spec(s: Summary) -> SerializableSummary {
        SerializableSummary::of_raw(s)
    }
}

impl From<SerializableSummary> for Summary {
    fn from(c: SerializableSummary) -> (s: Summary)
        ensures
            s == c.raw(),
    {
        Summary {
            save_version: c.save_version,
            challenge_mode_rank: c.challenge_mode_rank,
            rks: c.rks,
            game_version: VarInt(c.game_version),
            avatar: PhiString(c.avatar),
            level: c.level,
        }
    }
}

impl FromSpecImpl<SerializableSummary> for Summary {
    open spec fn obeys_from_spec() -> bool {
        true
    }

    open spec fn from_spec(c: SerializableSummary) -> Summary {
        c.raw()
    }
}

/// The canonical form and back is the record itself, and the other way round.
pub proof fn lemma_summary_there_and_back(raw: Summary, c: SerializableSummary)
    ensures
        SerializableSummary::of_raw(raw).raw() == raw,
        SerializableSummary::of_raw(c.raw()) == c,
{
}

} // verus!
