use crate::bits::le_bits;
use crate::buffer::BitBuffer;
use crate::cursor::{take_u16, take_u32, take_u8, BitCursor, Taken};
use crate::error::CodecError;
use crate::field::{reads_valid, BinaryField};
use crate::phi_base::{PhiString, VarInt};
use crate::wire::{lemma_take_u16_written, lemma_take_u32_written, lemma_take_u8_written};
use vstd::prelude::*;

verus! {

/// How many charts of one difficulty were cleared, full-comboed and perfected.
#[derive(Clone, Copy, Debug, PartialEq, Eq, Structural)]
pub struct Level {
    pub clear: u16,
    pub fc: u16,
    pub phi: u16,
}

impl View for Level {
    type V = Level;

    open spec fn view(&self) -> Level {
        *self
    }
}

impl Default for Level {
    fn default() -> (r: Level)
        ensures
            r.clear == 0,
            r.fc == 0,
            r.phi == 0,
    {
        Level {
            clear: 0,
            fc: 0,
            phi: 0,
        }
    }
}

impl BinaryField for Level {
    open spec fn spec_parse(bits: Seq<bool>, pos: nat) -> Taken<Level> {
        match take_u16(bits, pos) {
            Err(e) => Err(e),
            Ok((clear, n1)) => match take_u16(bits, n1) {
                Err(e) => Err(e),
                Ok((fc, n2)) => match take_u16(bits, n2) {
                    Err(e) => Err(e),
                    Ok((phi, n3)) => Ok((Level { clear, fc, phi }, n3)),
                },
            },
        }
    }

    open spec fn spec_build(v: Level, pre: Seq<bool>) -> Seq<bool> {
        pre + le_bits(v.clear as nat, 16) + le_bits(v.fc as nat, 16) + le_bits(v.phi as nat, 16)
    }

    open spec fn representable(v: Level) -> bool {
        true
    }

    open spec fn valid(v: Level) -> bool {
        true
    }

    open spec fn normal(v: Level) -> Level {
        v
    }

    fn parse<'a>(cur: BitCursor<'a>) -> (r: Result<(Level, BitCursor<'a>), CodecError>) {
        let (clear, cur1) = match cur.read_u16() {
            Ok(x) => x,
            Err(e) => {
                return Err(e);
            },
        };
        let (fc, cur2) = match cur1.read_u16() {
            Ok(x) => x,
            Err(e) => {
                return Err(e);
            },
        };
        let (phi, cur3) = match cur2.read_u16() {
            Ok(x) => x,
            Err(e) => {
                return Err(e);
            },
        };
        Ok((Level { clear, fc, phi }, cur3))
    }

    fn build(&self, buf: &mut BitBuffer) -> (r: Result<(), CodecError>) {
        buf.write_u16(self.clear);
        buf.write_u16(self.fc);
        buf.write_u16(self.phi);
        Ok(())
    }

    proof fn lemma_parse_build(v: Level, pre: Seq<bool>, bits: Seq<bool>) {
        let b1 = pre + le_bits(v.clear as nat, 16);
        let b2 = b1 + le_bits(v.fc as nat, 16);
        lemma_take_u16_written(bits, b2, v.phi);
        lemma_take_u16_written(bits, b1, v.fc);
        lemma_take_u16_written(bits, pre, v.clear);
    }

    proof fn lemma_parsed_valid(bits: Seq<bool>, pos: nat) {
    }
}

/// The counts of the four difficulties.
#[derive(Clone, Copy, Debug, PartialEq, Eq, Structural)]
pub struct MultiLevel {
    pub ez: Level,
    pub hd: Level,
    pub in_: Level,
    pub at: Level,
}

impl View for MultiLevel {
    type V = MultiLevel;

    open spec fn view(&self) -> MultiLevel {
        *self
    }
}

impl Default for MultiLevel {
    fn default() -> (r: MultiLevel)
        ensures
            r.ez == (Level { clear: 0, fc: 0, phi: 0 }),
            r.hd == r.ez,
            r.in_ == r.ez,
            r.at == r.ez,
    {
        MultiLevel {
            ez: Level::default(),
            hd: Level::default(),
            in_: Level::default(),
            at: Level::default(),
        }
    }
}

impl BinaryField for MultiLevel {
    open spec fn spec_parse(bits: Seq<bool>, pos: nat) -> Taken<MultiLevel> {
        match Level::spec_parse(bits, pos) {
            Err(e) => Err(e),
            Ok((ez, n1)) => match Level::spec_parse(bits, n1) {
                Err(e) => Err(e),
                Ok((hd, n2)) => match Level::spec_parse(bits, n2) {
                    Err(e) => Err(e),
                    Ok((in_, n3)) => match Level::spec_parse(bits, n3) {
                        Err(e) => Err(e),
                        Ok((at, n4)) => Ok((MultiLevel { ez, hd, in_, at }, n4)),
                    },
                },
            },
        }
    }

    open spec fn spec_build(v: MultiLevel, pre: Seq<bool>) -> Seq<bool> {
        let b1 = Level::spec_build(v.ez, pre);
        let b2 = Level::spec_build(v.hd, b1);
        let b3 = Level::spec_build(v.in_, b2);
        Level::spec_build(v.at, b3)
    }

    open spec fn representable(v: MultiLevel) -> bool {
        true
    }

    open spec fn valid(v: MultiLevel) -> bool {
        true
    }

    open spec fn normal(v: MultiLevel) -> MultiLevel {
        v
    }

    fn parse<'a>(cur: BitCursor<'a>) -> (r: Result<(MultiLevel, BitCursor<'a>), CodecError>) {
        let (ez, cur1) = match Level::parse(cur) {
            Ok(x) => x,
            Err(e) => {
                return Err(e);
            },
        };
        let (hd, cur2) = match Level::parse(cur1) {
            Ok(x) => x,
            Err(e) => {
                return Err(e);
            },
        };
        let (in_, cur3) = match Level::parse(cur2) {
            Ok(x) => x,
            Err(e) => {
                return Err(e);
            },
        };
        let (at, cur4) = match Level::parse(cur3) {
            Ok(x) => x,
            Err(e) => {
                return Err(e);
            },
        };
        Ok((MultiLevel { ez, hd, in_, at }, cur4))
    }

    fn build(&self, buf: &mut BitBuffer) -> (r: Result<(), CodecError>) {
        let _ = self.ez.build(buf);
        let _ = self.hd.build(buf);
        let _ = self.in_.build(buf);
        let _ = self.at.build(buf);
        Ok(())
    }

    proof fn lemma_parse_build(v: MultiLevel, pre: Seq<bool>, bits: Seq<bool>) {
        let b1 = Level::spec_build(v.ez, pre);
        let b2 = Level::spec_build(v.hd, b1);
        let b3 = Level::spec_build(v.in_, b2);
        Level::lemma_parse_build(v.at, b3, bits);
        Level::lemma_parse_build(v.in_, b2, bits);
        Level::lemma_parse_build(v.hd, b1, bits);
        Level::lemma_parse_build(v.ez, pre, bits);
    }

    proof fn lemma_parsed_valid(bits: Seq<bool>, pos: nat) {
    }
}

/// The summary of a save. `rks` holds the bits of an IEEE 754 single-precision number.
#[derive(Debug, PartialEq, Eq)]
pub struct Summary {
    pub save_version: u8,
    pub challenge_mode_rank: u16,
    pub rks: u32,
    pub game_version: VarInt,
    pub avatar: PhiString,
    pub level: MultiLevel,
}

/// The model of a summary.
pub struct SummaryView {
    pub save_version: u8,
    pub challenge_mode_rank: u16,
    pub rks: u32,
    pub game_version: VarInt,
    pub avatar: Seq<char>,
    pub level: MultiLevel,
}

impl View for Summary {
    type V = SummaryView;

    open spec fn view(&self) -> SummaryView {
        SummaryView {
            save_version: self.save_version,
            challenge_mode_rank: self.challenge_mode_rank,
            rks: self.rks,
            game_version: self.game_version,
            avatar: self.avatar@,
            level: self.level,
        }
    }
}

impl Default for Summary {
    fn default() -> (r: Summary)
        ensures
            r.save_version == 0,
            r.challenge_mode_rank == 0,
            r.rks == 0,
            r.game_version == VarInt(0),
            r.avatar@ == Seq::<char>::empty(),
            r.level.ez == (Level { clear: 0, fc: 0, phi: 0 }) && r.level.hd == r.level.ez && r.level.in_
                == r.level.ez && r.level.at == r.level.ez,
    {
        Summary {
            save_version: 0,
            challenge_mode_rank: 0,
            rks: 0,
            game_version: VarInt(0),
            avatar: PhiString(String::new()),
            level: MultiLevel::default(),
        }
    }
}

impl BinaryField for Summary {
    open spec fn spec_parse(bits: Seq<bool>, pos: nat) -> Taken<SummaryView> {
        match take_u8(bits, pos) {
            Err(e) => Err(e),
            Ok((save_version, n1)) => match take_u16(bits, n1) {
                Err(e) => Err(e),
                Ok((challenge_mode_rank, n2)) => match take_u32(bits, n2) {
                    Err(e) => Err(e),
                    Ok((rks, n3)) => match VarInt::spec_parse(bits, n3) {
                        Err(e) => Err(e),
                        Ok((game_version, n4)) => match PhiString::spec_parse(bits, n4) {
                            Err(e) => Err(e),
                            Ok((avatar, n5)) => match MultiLevel::spec_parse(bits, n5) {
                                Err(e) => Err(e),
                                Ok((level, n6)) => Ok(
                                    (
                                        SummaryView {
                                            save_version,
                                            challenge_mode_rank,
                                            rks,
                                            game_version,
                                            avatar,
                                            level,
                                        },
                                        n6,
                                    ),
                                ),
                            },
                        },
                    },
                },
            },
        }
    }

    open spec fn spec_build(v: SummaryView, pre: Seq<bool>) -> Seq<bool> {
        let b1 = pre + le_bits(v.save_version as nat, 8);
        let b2 = b1 + le_bits(v.challenge_mode_rank as nat, 16);
        let b3 = b2 + le_bits(v.rks as nat, 32);
        let b4 = VarInt::spec_build(v.game_version, b3);
        let b5 = PhiString::spec_build(v.avatar, b4);
        MultiLevel::spec_build(v.level, b5)
    }

    open spec fn representable(v: SummaryView) -> bool {
        &&& VarInt::representable(v.game_version)
        &&& PhiString::representable(v.avatar)
    }

    open spec fn valid(v: SummaryView) -> bool {
        Self::representable(v)
    }

    open spec fn normal(v: SummaryView) -> SummaryView {
        v
    }

    #[verifier::rlimit(50)]
    fn parse<'a>(cur: BitCursor<'a>) -> (r: Result<(Summary, BitCursor<'a>), CodecError>) {
        let (save_version, cur1) = match cur.read_u8() {
            Ok(x) => x,
            Err(e) => {
                return Err(e);
            },
        };
        let (challenge_mode_rank, cur2) = match cur1.read_u16() {
            Ok(x) => x,
            Err(e) => {
                return Err(e);
            },
        };
        let (rks, cur3) = match cur2.read_u32() {
            Ok(x) => x,
            Err(e) => {
                return Err(e);
            },
        };
        let (game_version, cur4) = match VarInt::parse(cur3) {
            Ok(x) => x,
            Err(e) => {
                return Err(e);
            },
        };
        let (avatar, cur5) = match PhiString::parse(cur4) {
            Ok(x) => x,
            Err(e) => {
                return Err(e);
            },
        };
        let (level, cur6) = match MultiLevel::parse(cur5) {
            Ok(x) => x,
            Err(e) => {
                return Err(e);
            },
        };
        Ok(
            (
                Summary { save_version, challenge_mode_rank, rks, game_version, avatar, level },
                cur6,
            ),
        )
    }

    #[verifier::rlimit(50)]
    fn build(&self, buf: &mut BitBuffer) -> (r: Result<(), CodecError>) {
        if self.game_version.0 > crate::phi_base::VARINT_MAX || !self.avatar.fits() {
            return Err(CodecError::ValueOutOfRange);
        }
        buf.write_u8(self.save_version);
        buf.write_u16(self.challenge_mode_rank);
        buf.write_u32(self.rks);
        let _ = self.game_version.build(buf);
        let _ = self.avatar.build(buf);
        let _ = self.level.build(buf);
        Ok(())
    }

    #[verifier::rlimit(50)]
    proof fn lemma_parse_build(v: SummaryView, pre: Seq<bool>, bits: Seq<bool>) {
        let b1 = pre + le_bits(v.save_version as nat, 8);
        let b2 = b1 + le_bits(v.challenge_mode_rank as nat, 16);
        let b3 = b2 + le_bits(v.rks as nat, 32);
        let b4 = VarInt::spec_build(v.game_version, b3);
        let b5 = PhiString::spec_build(v.avatar, b4);
        MultiLevel::lemma_parse_build(v.level, b5, bits);
        PhiString::lemma_parse_build(v.avatar, b4, bits);
        VarInt::lemma_parse_build(v.game_version, b3, bits);
        lemma_take_u32_written(bits, b2, v.rks);
        lemma_take_u16_written(bits, b1, v.challenge_mode_rank);
        lemma_take_u8_written(bits, pre, v.save_version);
    }

    #[verifier::rlimit(50)]
    proof fn lemma_parsed_valid(bits: Seq<bool>, pos: nat) {
        assert forall|p: nat| #![trigger PhiString::spec_parse(bits, p)] reads_valid::<PhiString>(bits, p) by {
            PhiString::lemma_parsed_valid(bits, p);
        }
        assert forall|p: nat| #![trigger VarInt::spec_parse(bits, p)] reads_valid::<VarInt>(bits, p) by {
            VarInt::lemma_parsed_valid(bits, p);
        }
    }
}

} // verus!
