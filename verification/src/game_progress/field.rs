use crate::bits::{le_bits, pad8};
use crate::buffer::BitBuffer;
use crate::cursor::{aligned, take_flags, take_u16, take_u8, BitCursor, Taken};
use crate::error::CodecError;
use crate::field::{reads_valid, BinaryField};
use crate::phi_base::{PhiString, VarInt, VARINT_MAX};
use crate::wire::{
    lemma_begins_padded, lemma_take_flags_written, lemma_take_u16_written, lemma_take_u8_written,
};
use vstd::prelude::*;

verus! {

/// The oldest version of the progress record that is decoded.
pub const MIN_PROGRESS_VERSION: u8 = 3;

/// What the player has been shown, one bit each.
#[derive(Clone, Copy, Debug, PartialEq, Eq, Structural)]
pub struct ProgressBase {
    pub is_first_run: bool,
    pub legacy_chapter_finished: bool,
    pub already_show_collection_tip: bool,
    pub already_show_auto_unlock_in_tip: bool,
}

impl View for ProgressBase {
    type V = ProgressBase;

    open spec fn view(&self) -> ProgressBase {
        *self
    }
}

impl Default for ProgressBase {
    fn default() -> (r: ProgressBase)
        ensures
            !r.is_first_run,
            !r.legacy_chapter_finished,
            !r.already_show_collection_tip,
            !r.already_show_auto_unlock_in_tip,
    {
        ProgressBase {
            is_first_run: false,
            legacy_chapter_finished: false,
            already_show_collection_tip: false,
            already_show_auto_unlock_in_tip: false,
        }
    }
}

impl ProgressBase {
    /// The flags in wire order.
    pub open spec fn flags(self) -> Seq<bool> {
        seq![
            self.is_first_run,
            self.legacy_chapter_finished,
            self.already_show_collection_tip,
            self.already_show_auto_unlock_in_tip,
        ]
    }
}

impl BinaryField for ProgressBase {
    open spec fn spec_parse(bits: Seq<bool>, pos: nat) -> Taken<ProgressBase> {
        match take_flags(bits, pos, 4) {
            Err(e) => Err(e),
            Ok((f, next)) => Ok(
                (
                    ProgressBase {
                        is_first_run: f[0],
                        legacy_chapter_finished: f[1],
                        already_show_collection_tip: f[2],
                        already_show_auto_unlock_in_tip: f[3],
                    },
                    next,
                ),
            ),
        }
    }

    open spec fn spec_build(v: ProgressBase, pre: Seq<bool>) -> Seq<bool> {
        pre + v.flags()
    }

    open spec fn representable(v: ProgressBase) -> bool {
        true
    }

    open spec fn valid(v: ProgressBase) -> bool {
        true
    }

    open spec fn normal(v: ProgressBase) -> ProgressBase {
        v
    }

    fn parse<'a>(cur: BitCursor<'a>) -> (r: Result<(ProgressBase, BitCursor<'a>), CodecError>) {
        let (f, next) = match cur.read_flags::<4>() {
            Ok(x) => x,
            Err(e) => {
                return Err(e);
            },
        };
        Ok(
            (
                ProgressBase {
                    is_first_run: f[0],
                    legacy_chapter_finished: f[1],
                    already_show_collection_tip: f[2],
                    already_show_auto_unlock_in_tip: f[3],
                },
                next,
            ),
        )
    }

    fn build(&self, buf: &mut BitBuffer) -> (r: Result<(), CodecError>) {
        let f = [
            self.is_first_run,
            self.legacy_chapter_finished,
            self.already_show_collection_tip,
            self.already_show_auto_unlock_in_tip,
        ];
        assert(f@ =~= self.flags());
        buf.write_flags(&f);
        Ok(())
    }

    proof fn lemma_parse_build(v: ProgressBase, pre: Seq<bool>, bits: Seq<bool>) {
        lemma_take_flags_written(bits, pre, v.flags());
    }

    proof fn lemma_parsed_valid(bits: Seq<bool>, pos: nat) {
    }
}

/// The five tiers of the currency.
#[derive(Clone, Copy, Debug, PartialEq, Eq, Structural)]
pub struct Money {
    pub kib: VarInt,
    pub mib: VarInt,
    pub gib: VarInt,
    pub tib: VarInt,
    pub pib: VarInt,
}

impl View for Money {
    type V = Money;

    open spec fn view(&self) -> Money {
        *self
    }
}

impl Default for Money {
    fn default() -> (r: Money)
        ensures
            r.kib == VarInt(0),
            r.mib == VarInt(0),
            r.gib == VarInt(0),
            r.tib == VarInt(0),
            r.pib == VarInt(0),
    {
        Money {
            kib: VarInt(0),
            mib: VarInt(0),
            gib: VarInt(0),
            tib: VarInt(0),
            pib: VarInt(0),
        }
    }
}

impl BinaryField for Money {
    open spec fn spec_parse(bits: Seq<bool>, pos: nat) -> Taken<Money> {
        match VarInt::spec_parse(bits, pos) {
            Err(e) => Err(e),
            Ok((kib, n1)) => match VarInt::spec_parse(bits, n1) {
                Err(e) => Err(e),
                Ok((mib, n2)) => match VarInt::spec_parse(bits, n2) {
                    Err(e) => Err(e),
                    Ok((gib, n3)) => match VarInt::spec_parse(bits, n3) {
                        Err(e) => Err(e),
                        Ok((tib, n4)) => match VarInt::spec_parse(bits, n4) {
                            Err(e) => Err(e),
                            Ok((pib, n5)) => Ok((Money { kib, mib, gib, tib, pib }, n5)),
                        },
                    },
                },
            },
        }
    }

    open spec fn spec_build(v: Money, pre: Seq<bool>) -> Seq<bool> {
        let b1 = VarInt::spec_build(v.kib, pre);
        let b2 = VarInt::spec_build(v.mib, b1);
        let b3 = VarInt::spec_build(v.gib, b2);
        let b4 = VarInt::spec_build(v.tib, b3);
        VarInt::spec_build(v.pib, b4)
    }

    open spec fn representable(v: Money) -> bool {
        &&& VarInt::representable(v.kib)
        &&& VarInt::representable(v.mib)
        &&& VarInt::representable(v.gib)
        &&& VarInt::representable(v.tib)
        &&& VarInt::representable(v.pib)
    }

    open spec fn valid(v: Money) -> bool {
        Self::representable(v)
    }

    open spec fn normal(v: Money) -> Money {
        v
    }

    fn parse<'a>(cur: BitCursor<'a>) -> (r: Result<(Money, BitCursor<'a>), CodecError>) {
        let (kib, cur1) = match VarInt::parse(cur) {
            Ok(x) => x,
            Err(e) => {
                return Err(e);
            },
        };
        let (mib, cur2) = match VarInt::parse(cur1) {
            Ok(x) => x,
            Err(e) => {
                return Err(e);
            },
        };
        let (gib, cur3) = match VarInt::parse(cur2) {
            Ok(x) => x,
            Err(e) => {
                return Err(e);
            },
        };
        let (tib, cur4) = match VarInt::parse(cur3) {
            Ok(x) => x,
            Err(e) => {
                return Err(e);
            },
        };
        let (pib, cur5) = match VarInt::parse(cur4) {
            Ok(x) => x,
            Err(e) => {
                return Err(e);
            },
        };
        Ok((Money { kib, mib, gib, tib, pib }, cur5))
    }

    fn build(&self, buf: &mut BitBuffer) -> (r: Result<(), CodecError>) {
        if self.kib.0 > VARINT_MAX || self.mib.0 > VARINT_MAX || self.gib.0 > VARINT_MAX
            || self.tib.0 > VARINT_MAX || self.pib.0 > VARINT_MAX {
            return Err(CodecError::ValueOutOfRange);
        }
        let _ = self.kib.build(buf);
        let _ = self.mib.build(buf);
        let _ = self.gib.build(buf);
        let _ = self.tib.build(buf);
        let _ = self.pib.build(buf);
        Ok(())
    }

    proof fn lemma_parse_build(v: Money, pre: Seq<bool>, bits: Seq<bool>) {
        let b1 = VarInt::spec_build(v.kib, pre);
        let b2 = VarInt::spec_build(v.mib, b1);
        let b3 = VarInt::spec_build(v.gib, b2);
        let b4 = VarInt::spec_build(v.tib, b3);
        VarInt::lemma_parse_build(v.pib, b4, bits);
        VarInt::lemma_parse_build(v.tib, b3, bits);
        VarInt::lemma_parse_build(v.gib, b2, bits);
        VarInt::lemma_parse_build(v.mib, b1, bits);
        VarInt::lemma_parse_build(v.kib, pre, bits);
    }

    proof fn lemma_parsed_valid(bits: Seq<bool>, pos: nat) {
        assert forall|p: nat| #![trigger VarInt::spec_parse(bits, p)] reads_valid::<VarInt>(bits, p) by {
            VarInt::lemma_parsed_valid(bits, p);
        }
    }
}

/// How far the player is in chapter eight, one bit each.
#[derive(Clone, Copy, Debug, PartialEq, Eq, Structural)]
pub struct Chapter8Base {
    pub unlock_begin: bool,
    pub unlock_second_phase: bool,
    pub passed: bool,
}

impl View for Chapter8Base {
    type V = Chapter8Base;

    open spec fn view(&self) -> Chapter8Base {
        *self
    }
}

impl Default for Chapter8Base {
    fn default() -> (r: Chapter8Base)
        ensures
            !r.unlock_begin,
            !r.unlock_second_phase,
            !r.passed,
    {
        Chapter8Base {
            unlock_begin: false,
            unlock_second_phase: false,
            passed: false,
        }
    }
}

impl Chapter8Base {
    /// The flags in wire order.
    pub open spec fn flags(self) -> Seq<bool> {
        seq![self.unlock_begin, self.unlock_second_phase, self.passed]
    }
}

impl BinaryField for Chapter8Base {
    open spec fn spec_parse(bits: Seq<bool>, pos: nat) -> Taken<Chapter8Base> {
        match take_flags(bits, pos, 3) {
            Err(e) => Err(e),
            Ok((f, next)) => Ok(
                (Chapter8Base { unlock_begin: f[0], unlock_second_phase: f[1], passed: f[2] }, next),
            ),
        }
    }

    open spec fn spec_build(v: Chapter8Base, pre: Seq<bool>) -> Seq<bool> {
        pre + v.flags()
    }

    open spec fn representable(v: Chapter8Base) -> bool {
        true
    }

    open spec fn valid(v: Chapter8Base) -> bool {
        true
    }

    open spec fn normal(v: Chapter8Base) -> Chapter8Base {
        v
    }

    fn parse<'a>(cur: BitCursor<'a>) -> (r: Result<(Chapter8Base, BitCursor<'a>), CodecError>) {
        let (f, next) = match cur.read_flags::<3>() {
            Ok(x) => x,
            Err(e) => {
                return Err(e);
            },
        };
        Ok((Chapter8Base { unlock_begin: f[0], unlock_second_phase: f[1], passed: f[2] }, next))
    }

    fn build(&self, buf: &mut BitBuffer) -> (r: Result<(), CodecError>) {
        let f = [self.unlock_begin, self.unlock_second_phase, self.passed];
        assert(f@ =~= self.flags());
        buf.write_flags(&f);
        Ok(())
    }

    proof fn lemma_parse_build(v: Chapter8Base, pre: Seq<bool>, bits: Seq<bool>) {
        lemma_take_flags_written(bits, pre, v.flags());
    }

    proof fn lemma_parsed_valid(bits: Seq<bool>, pos: nat) {
    }
}

/// The progress of a player.
///
/// The last field came with version 4 and is absent before.
#[derive(Debug, PartialEq, Eq)]
pub struct GameProgress {
    pub version: u8,
    pub base: ProgressBase,
    pub completed: PhiString,
    pub song_update_info: VarInt,
    pub challenge_mode_rank: u16,
    pub money: Money,
    pub unlock_flag_of_spasmodic: [bool; 4],
    pub unlock_flag_of_igallta: [bool; 4],
    pub unlock_flag_of_rrharil: [bool; 4],
    pub flag_of_song_record_key: [bool; 8],
    pub random_version_unlocked: [bool; 6],
    pub chapter8_base: Chapter8Base,
    pub chapter8_song_unlocked: [bool; 6],
    pub flag_of_song_record_key_takumi: Option<[bool; 3]>,
}

/// The model of a progress record.
pub struct GameProgressView {
    pub version: u8,
    pub base: ProgressBase,
    pub completed: Seq<char>,
    pub song_update_info: VarInt,
    pub challenge_mode_rank: u16,
    pub money: Money,
    pub unlock_flag_of_spasmodic: Seq<bool>,
    pub unlock_flag_of_igallta: Seq<bool>,
    pub unlock_flag_of_rrharil: Seq<bool>,
    pub flag_of_song_record_key: Seq<bool>,
    pub random_version_unlocked: Seq<bool>,
    pub chapter8_base: Chapter8Base,
    pub chapter8_song_unlocked: Seq<bool>,
    pub flag_of_song_record_key_takumi: Option<Seq<bool>>,
}

impl View for GameProgress {
    type V = GameProgressView;

    open spec fn view(&self) -> GameProgressView {
        GameProgressView {
            version: self.version,
            base: self.base,
            completed: self.completed@,
            song_update_info: self.song_update_info,
            challenge_mode_rank: self.challenge_mode_rank,
            money: self.money,
            unlock_flag_of_spasmodic: self.unlock_flag_of_spasmodic@,
            unlock_flag_of_igallta: self.unlock_flag_of_igallta@,
            unlock_flag_of_rrharil: self.unlock_flag_of_rrharil@,
            flag_of_song_record_key: self.flag_of_song_record_key@,
            random_version_unlocked: self.random_version_unlocked@,
            chapter8_base: self.chapter8_base,
            chapter8_song_unlocked: self.chapter8_song_unlocked@,
            flag_of_song_record_key_takumi: match self.flag_of_song_record_key_takumi {
                Some(flags) => Some(flags@),
                None => None,
            },
        }
    }
}

impl Default for GameProgress {
    fn default() -> (r: GameProgress)
        ensures
            r.version == 0,
            r.base.flags() == seq![false, false, false, false],
            r.completed@ == Seq::<char>::empty(),
            r.song_update_info == VarInt(0),
            r.challenge_mode_rank == 0,
            r.money == (Money {
                kib: VarInt(0),
                mib: VarInt(0),
                gib: VarInt(0),
                tib: VarInt(0),
                pib: VarInt(0),
            }),
            forall|i: int| 0 <= i < 4 ==> !r.unlock_flag_of_spasmodic[i],
            forall|i: int| 0 <= i < 4 ==> !r.unlock_flag_of_igallta[i],
            forall|i: int| 0 <= i < 4 ==> !r.unlock_flag_of_rrharil[i],
            forall|i: int| 0 <= i < 8 ==> !r.flag_of_song_record_key[i],
            forall|i: int| 0 <= i < 6 ==> !r.random_version_unlocked[i],
            r.chapter8_base.flags() == seq![false, false, false],
            forall|i: int| 0 <= i < 6 ==> !r.chapter8_song_unlocked[i],
            r.flag_of_song_record_key_takumi is None,
    {
        GameProgress {
            version: 0,
            base: ProgressBase {
                is_first_run: false,
                legacy_chapter_finished: false,
                already_show_collection_tip: false,
                already_show_auto_unlock_in_tip: false,
            },
            completed: PhiString(String::new()),
            song_update_info: VarInt(0),
            challenge_mode_rank: 0,
            money: Money {
                kib: VarInt(0),
                mib: VarInt(0),
                gib: VarInt(0),
                tib: VarInt(0),
                pib: VarInt(0),
            },
            unlock_flag_of_spasmodic: [false; 4],
            unlock_flag_of_igallta: [false; 4],
            unlock_flag_of_rrharil: [false; 4],
            flag_of_song_record_key: [false; 8],
            random_version_unlocked: [false; 6],
            chapter8_base: Chapter8Base {
                unlock_begin: false,
                unlock_second_phase: false,
                passed: false,
            },
            chapter8_song_unlocked: [false; 6],
            flag_of_song_record_key_takumi: None,
        }
    }
}

impl GameProgress {
    /// The reason to reject the record's version, if it is older than the oldest supported.
    pub fn check_version(&self) -> (reason: Option<String>)
        ensures
            reason is Some <==> self.version < MIN_PROGRESS_VERSION,
            reason matches Some(text) ==> text@ == "Not supported"@,
    {
        if self.version < MIN_PROGRESS_VERSION {
            Some("Not supported".to_owned())
        } else {
            None
        }
    }

    /// Whether the record has the fields that came with version 4.
    pub fn is_version_at_least_4(&self) -> (b: bool)
        ensures
            b == (self.version >= 4),
    {
        self.version >= 4
    }

    /// Whether the record has the fields that came with version 3.
    pub fn is_version_at_least_3(&self) -> (b: bool)
        ensures
            b == (self.version >= 3),
    {
        self.version >= 3
    }

    /// Whether the record has the fields that came with version 2.
    pub fn is_version_at_least_2(&self) -> (b: bool)
        ensures
            b == (self.version >= 2),
    {
        self.version >= 2
    }

    /// The fields that stand behind the version, from `completed` to the last flag group
    /// that every supported version has.
    pub open spec fn spec_build_middle(v: GameProgressView, b2: Seq<bool>) -> Seq<bool> {
        let b3 = PhiString::spec_build(v.completed, pad8(b2));
        let b4 = VarInt::spec_build(v.song_update_info, b3);
        let b5 = b4 + le_bits(v.challenge_mode_rank as nat, 16);
        let b6 = Money::spec_build(v.money, b5);
        let b7 = b6 + v.unlock_flag_of_spasmodic;
        let b8 = pad8(b7) + v.unlock_flag_of_igallta;
        let b9 = pad8(b8) + v.unlock_flag_of_rrharil;
        pad8(b9) + v.flag_of_song_record_key
    }
}

/// Version gating. A record older than version 3 is rejected for its version, whatever
/// follows the version. A record that is read has the flag group of version 4 exactly when
/// its version is 4 or later.
pub proof fn lemma_progress_version_gate(bits: Seq<bool>, pos: nat)
    ensures
        take_u8(bits, pos) matches Ok((version, _)) ==> (version < MIN_PROGRESS_VERSION
            ==> GameProgress::spec_parse(bits, pos) == Err::<(GameProgressView, nat), CodecError>(
            CodecError::UnsupportedVersion { version },
        )),
        GameProgress::spec_parse(bits, pos) matches Ok((v, _)) ==> v.version
            >= MIN_PROGRESS_VERSION && (v.flag_of_song_record_key_takumi is Some <==> v.version
            >= 4),
{
}

impl BinaryField for GameProgress {
    open spec fn spec_parse(bits: Seq<bool>, pos: nat) -> Taken<GameProgressView> {
        match take_u8(bits, pos) {
            Err(e) => Err(e),
            Ok((version, n1)) => if version < MIN_PROGRESS_VERSION {
                Err(CodecError::UnsupportedVersion { version })
            } else {
                match ProgressBase::spec_parse(bits, n1) {
                    Err(e) => Err(e),
                    Ok((base, n2)) => match PhiString::spec_parse(bits, aligned(n2)) {
                        Err(e) => Err(e),
                        Ok((completed, n3)) => match VarInt::spec_parse(bits, n3) {
                            Err(e) => Err(e),
                            Ok((song_update_info, n4)) => match take_u16(bits, n4) {
                                Err(e) => Err(e),
                                Ok((challenge_mode_rank, n5)) => match Money::spec_parse(bits, n5) {
                                    Err(e) => Err(e),
                                    Ok((money, n6)) => match take_flags(bits, n6, 4) {
                                        Err(e) => Err(e),
                                        Ok((spasmodic, n7)) => match take_flags(
                                            bits,
                                            aligned(n7),
                                            4,
                                        ) {
                                            Err(e) => Err(e),
                                            Ok((igallta, n8)) => match take_flags(
                                                bits,
                                                aligned(n8),
                                                4,
                                            ) {
                                                Err(e) => Err(e),
                                                Ok((rrharil, n9)) => match take_flags(
                                                    bits,
                                                    aligned(n9),
                                                    8,
                                                ) {
                                                    Err(e) => Err(e),
                                                    Ok((record_key, n10)) => match take_flags(
                                                        bits,
                                                        n10,
                                                        6,
                                                    ) {
                                                        Err(e) => Err(e),
                                                        Ok(
                                                            (random, n11),
                                                        ) => match Chapter8Base::spec_parse(
                                                            bits,
                                                            aligned(n11),
                                                        ) {
                                                            Err(e) => Err(e),
                                                            Ok(
                                                                (chapter8_base, n12),
                                                            ) => match take_flags(
                                                                bits,
                                                                aligned(n12),
                                                                6,
                                                            ) {
                                                                Err(e) => Err(e),
                                                                Ok((chapter8_song, n13)) => {
                                                                    let most = GameProgressView {
                                                                        version,
                                                                        base,
                                                                        completed,
                                                                        song_update_info,
                                                                        challenge_mode_rank,
                                                                        money,
                                                                        unlock_flag_of_spasmodic: spasmodic,
                                                                        unlock_flag_of_igallta: igallta,
                                                                        unlock_flag_of_rrharil: rrharil,
                                                                        flag_of_song_record_key: record_key,
                                                                        random_version_unlocked: random,
                                                                        chapter8_base,
                                                                        chapter8_song_unlocked: chapter8_song,
                                                                        flag_of_song_record_key_takumi: None,
                                                                    };
                                                                    if version >= 4 {
                                                                        match take_flags(
                                                                            bits,
                                                                            aligned(n13),
                                                                            3,
                                                                        ) {
                                                                            Err(e) => Err(e),
                                                                            Ok(
                                                                                (takumi, n14),
                                                                            ) => Ok(
                                                                                (
                                                                                    GameProgressView {
                                                                                        flag_of_song_record_key_takumi: Some(
                                                                                            takumi,
                                                                                        ),
                                                                                        ..most
                                                                                    },
                                                                                    n14,
                                                                                ),
                                                                            ),
                                                                        }
                                                                    } else {
                                                                        Ok((most, n13))
                                                                    }
                                                                },
                                                            },
                                                        },
                                                    },
                                                },
                                            },
                                        },
                                    },
                                },
                            },
                        },
                    },
                }
            },
        }
    }

    open spec fn spec_build(v: GameProgressView, pre: Seq<bool>) -> Seq<bool> {
        let b1 = pre + le_bits(v.version as nat, 8);
        let b2 = ProgressBase::spec_build(v.base, b1);
        let b10 = GameProgress::spec_build_middle(v, b2);
        let b11 = if v.version >= 2 {
            b10 + v.random_version_unlocked
        } else {
            b10
        };
        let b12 = if v.version >= 3 {
            Chapter8Base::spec_build(v.chapter8_base, pad8(b11))
        } else {
            b11
        };
        let b13 = if v.version >= 3 {
            pad8(b12) + v.chapter8_song_unlocked
        } else {
            b12
        };
        match v.flag_of_song_record_key_takumi {
            Some(takumi) => pad8(b13) + takumi,
            None => b13,
        }
    }

    open spec fn representable(v: GameProgressView) -> bool {
        &&& PhiString::representable(v.completed)
        &&& VarInt::representable(v.song_update_info)
        &&& Money::representable(v.money)
    }

    open spec fn valid(v: GameProgressView) -> bool {
        &&& Self::representable(v)
        &&& v.version >= MIN_PROGRESS_VERSION
        &&& v.flag_of_song_record_key_takumi is Some <==> v.version >= 4
        &&& v.unlock_flag_of_spasmodic.len() == 4
        &&& v.unlock_flag_of_igallta.len() == 4
        &&& v.unlock_flag_of_rrharil.len() == 4
        &&& v.flag_of_song_record_key.len() == 8
        &&& v.random_version_unlocked.len() == 6
        &&& v.chapter8_song_unlocked.len() == 6
        &&& v.flag_of_song_record_key_takumi matches Some(takumi) ==> takumi.len() == 3
    }

    open spec fn normal(v: GameProgressView) -> GameProgressView {
        v
    }

    #[verifier::rlimit(50)]
    fn parse<'a>(cur: BitCursor<'a>) -> (r: Result<(GameProgress, BitCursor<'a>), CodecError>) {
        let mut s = GameProgress::default();
        let (version, cur1) = match cur.read_u8() {
            Ok(x) => x,
            Err(e) => {
                return Err(e);
            },
        };
        s.version = version;
        if s.check_version().is_some() {
            return Err(CodecError::UnsupportedVersion { version });
        }
        let (base, cur2) = match ProgressBase::parse(cur1) {
            Ok(x) => x,
            Err(e) => {
                return Err(e);
            },
        };
        s.base = base;
        let (completed, cur3) = match PhiString::parse(cur2.align()) {
            Ok(x) => x,
            Err(e) => {
                return Err(e);
            },
        };
        s.completed = completed;
        let (song_update_info, cur4) = match VarInt::parse(cur3) {
            Ok(x) => x,
            Err(e) => {
                return Err(e);
            },
        };
        s.song_update_info = song_update_info;
        let (challenge_mode_rank, cur5) = match cur4.read_u16() {
            Ok(x) => x,
            Err(e) => {
                return Err(e);
            },
        };
        s.challenge_mode_rank = challenge_mode_rank;
        let (money, cur6) = match Money::parse(cur5) {
            Ok(x) => x,
            Err(e) => {
                return Err(e);
            },
        };
        s.money = money;
        let (spasmodic, cur7) = match cur6.read_flags::<4>() {
            Ok(x) => x,
            Err(e) => {
                return Err(e);
            },
        };
        s.unlock_flag_of_spasmodic = spasmodic;
        let (igallta, cur8) = match cur7.align().read_flags::<4>() {
            Ok(x) => x,
            Err(e) => {
                return Err(e);
            },
        };
        s.unlock_flag_of_igallta = igallta;
        let (rrharil, cur9) = match cur8.align().read_flags::<4>() {
            Ok(x) => x,
            Err(e) => {
                return Err(e);
            },
        };
        s.unlock_flag_of_rrharil = rrharil;
        let (record_key, cur10) = match cur9.align().read_flags::<8>() {
            Ok(x) => x,
            Err(e) => {
                return Err(e);
            },
        };
        s.flag_of_song_record_key = record_key;
        let mut at = cur10;
        if s.is_version_at_least_2() {
            let (random, next) = match at.read_flags::<6>() {
                Ok(x) => x,
                Err(e) => {
                    return Err(e);
                },
            };
            s.random_version_unlocked = random;
            at = next;
        }
        if s.is_version_at_least_3() {
            let (chapter8_base, next) = match Chapter8Base::parse(at.align()) {
                Ok(x) => x,
                Err(e) => {
                    return Err(e);
                },
            };
            s.chapter8_base = chapter8_base;
            at = next;
        }
        if s.is_version_at_least_3() {
            let (chapter8_song, next) = match at.align().read_flags::<6>() {
                Ok(x) => x,
                Err(e) => {
                    return Err(e);
                },
            };
            s.chapter8_song_unlocked = chapter8_song;
            at = next;
        }
        if s.is_version_at_least_4() {
            let (takumi, next) = match at.align().read_flags::<3>() {
                Ok(x) => x,
                Err(e) => {
                    return Err(e);
                },
            };
            s.flag_of_song_record_key_takumi = Some(takumi);
            at = next;
        }
        Ok((s, at))
    }

    #[verifier::rlimit(50)]
    fn build(&self, buf: &mut BitBuffer) -> (r: Result<(), CodecError>) {
        if !self.completed.fits() || self.song_update_info.0 > VARINT_MAX {
            return Err(CodecError::ValueOutOfRange);
        }
        let m = &self.money;
        if m.kib.0 > VARINT_MAX || m.mib.0 > VARINT_MAX || m.gib.0 > VARINT_MAX || m.tib.0
            > VARINT_MAX || m.pib.0 > VARINT_MAX {
            return Err(CodecError::ValueOutOfRange);
        }
        buf.write_u8(self.version);
        let _ = self.base.build(buf);
        buf.align();
        let _ = self.completed.build(buf);
        let _ = self.song_update_info.build(buf);
        buf.write_u16(self.challenge_mode_rank);
        let _ = self.money.build(buf);
        buf.write_flags(&self.unlock_flag_of_spasmodic);
        buf.align();
        buf.write_flags(&self.unlock_flag_of_igallta);
        buf.align();
        buf.write_flags(&self.unlock_flag_of_rrharil);
        buf.align();
        buf.write_flags(&self.flag_of_song_record_key);
        if self.is_version_at_least_2() {
            buf.write_flags(&self.random_version_unlocked);
        }
        if self.is_version_at_least_3() {
            buf.align();
            let _ = self.chapter8_base.build(buf);
        }
        if self.is_version_at_least_3() {
            buf.align();
            buf.write_flags(&self.chapter8_song_unlocked);
        }
        match &self.flag_of_song_record_key_takumi {
            Some(takumi) => {
                buf.align();
                buf.write_flags(takumi);
            },
            None => {},
        }
        Ok(())
    }

    #[verifier::rlimit(50)]
    proof fn lemma_parse_build(v: GameProgressView, pre: Seq<bool>, bits: Seq<bool>) {
        let b1 = pre + le_bits(v.version as nat, 8);
        let b2 = ProgressBase::spec_build(v.base, b1);
        let b3 = PhiString::spec_build(v.completed, pad8(b2));
        let b4 = VarInt::spec_build(v.song_update_info, b3);
        let b5 = b4 + le_bits(v.challenge_mode_rank as nat, 16);
        let b6 = Money::spec_build(v.money, b5);
        let b7 = b6 + v.unlock_flag_of_spasmodic;
        let b8 = pad8(b7) + v.unlock_flag_of_igallta;
        let b9 = pad8(b8) + v.unlock_flag_of_rrharil;
        let b10 = pad8(b9) + v.flag_of_song_record_key;
        let b11 = b10 + v.random_version_unlocked;
        let b12 = Chapter8Base::spec_build(v.chapter8_base, pad8(b11));
        let b13 = pad8(b12) + v.chapter8_song_unlocked;
        if let Some(takumi) = v.flag_of_song_record_key_takumi {
            lemma_take_flags_written(bits, pad8(b13), takumi);
            lemma_begins_padded(bits, b13);
        }
        lemma_take_flags_written(bits, pad8(b12), v.chapter8_song_unlocked);
        lemma_begins_padded(bits, b12);
        Chapter8Base::lemma_parse_build(v.chapter8_base, pad8(b11), bits);
        lemma_begins_padded(bits, b11);
        lemma_take_flags_written(bits, b10, v.random_version_unlocked);
        lemma_take_flags_written(bits, pad8(b9), v.flag_of_song_record_key);
        lemma_begins_padded(bits, b9);
        lemma_take_flags_written(bits, pad8(b8), v.unlock_flag_of_rrharil);
        lemma_begins_padded(bits, b8);
        lemma_take_flags_written(bits, pad8(b7), v.unlock_flag_of_igallta);
        lemma_begins_padded(bits, b7);
        lemma_take_flags_written(bits, b6, v.unlock_flag_of_spasmodic);
        Money::lemma_parse_build(v.money, b5, bits);
        lemma_take_u16_written(bits, b4, v.challenge_mode_rank);
        VarInt::lemma_parse_build(v.song_update_info, b3, bits);
        PhiString::lemma_parse_build(v.completed, pad8(b2), bits);
        lemma_begins_padded(bits, b2);
        ProgressBase::lemma_parse_build(v.base, b1, bits);
        lemma_take_u8_written(bits, pre, v.version);
    }

    #[verifier::rlimit(50)]
    proof fn lemma_parsed_valid(bits: Seq<bool>, pos: nat) {
        assert forall|p: nat| #![trigger PhiString::spec_parse(bits, p)] reads_valid::<PhiString>(bits, p) by {
            PhiString::lemma_parsed_valid(bits, p);
        }
        assert forall|p: nat| #![trigger VarInt::spec_parse(bits, p)] reads_valid::<VarInt>(bits, p) by {
            VarInt::lemma_parsed_valid(bits, p);
        }
        assert forall|p: nat| #![trigger Money::spec_parse(bits, p)] reads_valid::<Money>(bits, p) by {
            Money::lemma_parsed_valid(bits, p);
        }
    }
}

} // verus!
