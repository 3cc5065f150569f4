use super::field::{Chapter8Base, GameProgress, Money, ProgressBase};
use crate::phi_base::{PhiString, VarInt};
use vstd::prelude::*;
use vstd::std_specs::convert::FromSpecImpl;

verus! {

/// The five tiers of the currency in canonical form.
#[derive(Clone, Copy, Debug, PartialEq, Eq)]
pub struct SerializableMoney {
    pub kib: u16,
    pub mib: u16,
    pub gib: u16,
    pub tib: u16,
    pub pib: u16,
}

/// The progress in canonical form: the same fields, the counts and the string bare.
#[derive(Debug, PartialEq, Eq)]
pub struct SerializableGameProgress {
    pub version: u8,
    pub base: ProgressBase,
    pub completed: String,
    pub song_update_info: u16,
    pub challenge_mode_rank: u16,
    pub money: SerializableMoney,
    pub unlock_flag_of_spasmodic: [bool; 4],
    pub unlock_flag_of_igallta: [bool; 4],
    pub unlock_flag_of_rrharil: [bool; 4],
    pub flag_of_song_record_key: [bool; 8],
    pub random_version_unlocked: [bool; 6],
    pub chapter8_base: Chapter8Base,
    pub chapter8_song_unlocked: [bool; 6],
    pub flag_of_song_record_key_takumi: Option<[bool; 3]>,
}

impl SerializableGameProgress {
    /// The canonical form of a record.
    pub open spec fn of_raw(p: GameProgress) -> SerializableGameProgress {
        SerializableGameProgress {
            version: p.version,
            base: p.base,
            completed: p.completed.0,
            song_update_info: p.song_update_info.0,
            challenge_mode_rank: p.challenge_mode_rank,
            money: SerializableMoney {
                kib: p.money.kib.0,
                mib: p.money.mib.0,
                gib: p.money.gib.0,
                tib: p.money.tib.0,
                pib: p.money.pib.0,
            },
            unlock_flag_of_spasmodic: p.unlock_flag_of_spasmodic,
            unlock_flag_of_igallta: p.unlock_flag_of_igallta,
            unlock_flag_of_rrharil: p.unlock_flag_of_rrharil,
            flag_of_song_record_key: p.flag_of_song_record_key,
            random_version_unlocked: p.random_version_unlocked,
            chapter8_base: p.chapter8_base,
            chapter8_song_unlocked: p.chapter8_song_unlocked,
            flag_of_song_record_key_takumi: p.flag_of_song_record_key_takumi,
        }
    }

    /// The record that the canonical form stands for.
    pub open spec fn raw(self) -> GameProgress {
        GameProgress {
            version: self.version,
            base: self.base,
            completed: PhiString(self.completed),
            song_update_info: VarInt(self.song_update_info),
            challenge_mode_rank: self.challenge_mode_rank,
            money: Money {
                kib: VarInt(self.money.kib),
                mib: VarInt(self.money.mib),
                gib: VarInt(self.money.gib),
                tib: VarInt(self.money.tib),
                pib: VarInt(self.money.pib),
            },
            unlock_flag_of_spasmodic: self.unlock_flag_of_spasmodic,
            unlock_flag_of_igallta: self.unlock_flag_of_igallta,
            unlock_flag_of_rrharil: self.unlock_flag_of_rrharil,
            flag_of_song_record_key: self.flag_of_song_record_key,
            random_version_unlocked: self.random_version_unlocked,
            chapter8_base: self.chapter8_base,
            chapter8_song_unlocked: self.chapter8_song_unlocked,
            flag_of_song_record_key_takumi: self.flag_of_song_record_key_takumi,
        }
    }
}

impl From<GameProgress> for SerializableGameProgress {
    fn from(p: GameProgress) -> (c: SerializableGameProgress)
        ensures
            c == SerializableGameProgress::of_raw(p),
    {
        SerializableGameProgress {
            version: p.version,
            base: p.base,
            completed: p.completed.0,
            song_update_info: p.song_update_info.0,
            challenge_mode_rank: p.challenge_mode_rank,
            money: SerializableMoney {
                kib: p.money.kib.0,
                mib: p.money.mib.0,
                gib: p.money.gib.0,
                tib: p.money.tib.0,
                pib: p.money.pib.0,
            },
            unlock_flag_of_spasmodic: p.unlock_flag_of_spasmodic,
            unlock_flag_of_igallta: p.unlock_flag_of_igallta,
            unlock_flag_of_rrharil: p.unlock_flag_of_rrharil,
            flag_of_song_record_key: p.flag_of_song_record_key,
            random_version_unlocked: p.random_version_unlocked,
            chapter8_base: p.chapter8_base,
            chapter8_song_unlocked: p.chapter8_song_unlocked,
            flag_of_song_record_key_takumi: p.flag_of_song_record_key_takumi,
        }
    }
}

impl FromSpecImpl<GameProgress> for SerializableGameProgress {
    open spec fn obeys_from_spec() -> bool {
        true
    }

    open spec fn from_spec(p: GameProgress) -> SerializableGameProgress {
        SerializableGameProgress::of_raw(p)
    }
}

impl From<SerializableGameProgress> for GameProgress {
    fn from(c: SerializableGameProgress) -> (p: GameProgress)
        ensures
            p == c.raw(),
    {
        GameProgress {
            version: c.version,
            base: c.base,
            completed: PhiString(c.completed),
            song_update_info: VarInt(c.song_update_info),
            challenge_mode_rank: c.challenge_mode_rank,
            money: Money {
                kib: VarInt(c.money.kib),
                mib: VarInt(c.money.mib),
                gib: VarInt(c.money.gib),
                tib: VarInt(c.money.tib),
                pib: VarInt(c.money.pib),
            },
            unlock_flag_of_spasmodic: c.unlock_flag_of_spasmodic,
            unlock_flag_of_igallta: c.unlock_flag_of_igallta,
            unlock_flag_of_rrharil: c.unlock_flag_of_rrharil,
            flag_of_song_record_key: c.flag_of_song_record_key,
            random_version_unlocked: c.random_version_unlocked,
            chapter8_base: c.chapter8_base,
            chapter8_song_unlocked: c.chapter8_song_unlocked,
            flag_of_song_record_key_takumi: c.flag_of_song_record_key_takumi,
        }
    }
}

impl FromSpecImpl<SerializableGameProgress> for GameProgress {
    open spec fn obeys_from_spec() -> bool {
        true
    }

    open spec fn from_spec(c: SerializableGameProgress) -> GameProgress {
        c.raw()
    }
}

/// The canonical form and back is the record itself, and the other way round.
pub proof fn lemma_progress_there_and_back(raw: GameProgress, c: SerializableGameProgress)
    ensures
        SerializableGameProgress::of_raw(raw).raw() == raw,
        SerializableGameProgress::of_raw(c.raw()) == c,
{
}

} // verus!
