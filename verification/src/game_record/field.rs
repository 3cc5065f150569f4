use crate::bits::{count_set, le_bits, pad8};
use crate::buffer::BitBuffer;
use crate::cursor::{aligned, take_flags, take_u32, take_u8, BitCursor, Taken};
use crate::error::CodecError;
use crate::field::{
    all_normal, all_representable, all_valid, build_seq, lemma_parse_build_seq,
    lemma_parsed_valid_seq, parse_seq,
    reads_valid, reads_valid_seq, spec_build_seq, spec_parse_seq, views, BinaryField,
};
use crate::phi_base::{PhiString, VarInt, VARINT_MAX};
use crate::wire::{
    lemma_begins_padded, lemma_take_flags_written, lemma_take_u32_written, lemma_take_u8_written,
};
use vstd::prelude::*;

verus! {

/// The number of difficulties: EZ, HD, IN, AT and Legacy, in this order.
pub const DIFFICULTIES: usize = 5;

/// The best result at one difficulty. `acc` holds the bits of an IEEE 754 single-precision
/// number.
#[derive(Clone, Copy, Debug, PartialEq, Eq, Structural)]
pub struct LevelRecord {
    pub score: u32,
    pub acc: u32,
}

impl View for LevelRecord {
    type V = LevelRecord;

    open spec fn view(&self) -> LevelRecord {
        *self
    }
}

impl Default for LevelRecord {
    fn default() -> (r: LevelRecord)
        ensures
            r.score == 0,
            r.acc == 0,
    {
        LevelRecord {
            score: 0,
            acc: 0,
        }
    }
}

impl BinaryField for LevelRecord {
    open spec fn spec_parse(bits: Seq<bool>, pos: nat) -> Taken<LevelRecord> {
        match take_u32(bits, pos) {
            Err(e) => Err(e),
            Ok((score, n1)) => match take_u32(bits, n1) {
                Err(e) => Err(e),
                Ok((acc, n2)) => Ok((LevelRecord { score, acc }, n2)),
            },
        }
    }

    open spec fn spec_build(v: LevelRecord, pre: Seq<bool>) -> Seq<bool> {
        pre + le_bits(v.score as nat, 32) + le_bits(v.acc as nat, 32)
    }

    open spec fn representable(v: LevelRecord) -> bool {
        true
    }

    open spec fn valid(v: LevelRecord) -> bool {
        true
    }

    open spec fn normal(v: LevelRecord) -> LevelRecord {
        v
    }

    fn parse<'a>(cur: BitCursor<'a>) -> (r: Result<(LevelRecord, BitCursor<'a>), CodecError>) {
        let (score, cur1) = match cur.read_u32() {
            Ok(x) => x,
            Err(e) => {
                return Err(e);
            },
        };
        let (acc, cur2) = match cur1.read_u32() {
            Ok(x) => x,
            Err(e) => {
                return Err(e);
            },
        };
        Ok((LevelRecord { score, acc }, cur2))
    }

    fn build(&self, buf: &mut BitBuffer) -> (r: Result<(), CodecError>) {
        buf.write_u32(self.score);
        buf.write_u32(self.acc);
        Ok(())
    }

    proof fn lemma_parse_build(v: LevelRecord, pre: Seq<bool>, bits: Seq<bool>) {
        let b1 = pre + le_bits(v.score as nat, 32);
        lemma_take_u32_written(bits, b1, v.acc);
        lemma_take_u32_written(bits, pre, v.score);
    }

    proof fn lemma_parsed_valid(bits: Seq<bool>, pos: nat) {
    }
}

/// The results of one song.
///
/// `unlock` says at which difficulties there is a result, `fc` at which of them it is a
/// full combo, and `levels` holds the results, one for each flag set in `unlock`, in the
/// order of the difficulties.
#[derive(Debug, PartialEq, Eq)]
pub struct SongEntry {
    pub name: PhiString,
    pub length: VarInt,
    pub unlock: [bool; 5],
    pub fc: [bool; 5],
    pub levels: Vec<LevelRecord>,
}

/// The model of the results of one song.
pub struct SongEntryView {
    pub name: Seq<char>,
    pub length: VarInt,
    pub unlock: Seq<bool>,
    pub fc: Seq<bool>,
    pub levels: Seq<LevelRecord>,
}

impl View for SongEntry {
    type V = SongEntryView;

    open spec fn view(&self) -> SongEntryView {
        SongEntryView {
            name: self.name@,
            length: self.length,
            unlock: self.unlock@,
            fc: self.fc@,
            levels: views(self.levels@),
        }
    }
}

impl Default for SongEntry {
    fn default() -> (r: SongEntry)
        ensures
            r.name@ == Seq::<char>::empty(),
            r.length == VarInt(0),
            forall|i: int| 0 <= i < 5 ==> !r.unlock[i],
            forall|i: int| 0 <= i < 5 ==> !r.fc[i],
            r.levels@.len() == 0,
    {
        SongEntry {
            name: PhiString(String::new()),
            length: VarInt(0),
            unlock: [false; 5],
            fc: [false; 5],
            levels: Vec::new(),
        }
    }
}

impl SongEntry {
    /// The number of results that the unlock flags announce.
    pub fn get_levels_len(&self) -> (n: usize)
        ensures
            n == count_set(self.unlock@),
    {
        let mut n: usize = 0;
        let mut i: usize = 0;
        assert(self.unlock@.take(0) =~= Seq::<bool>::empty());
        while i < 5
            invariant
                i <= 5,
                n <= i,
                n == count_set(self.unlock@.take(i as int)),
            decreases 5 - i,
        {
            assert(self.unlock@.take(i + 1).drop_last() =~= self.unlock@.take(i as int));
            if self.unlock[i] {
                n += 1;
            }
            i += 1;
        }
        assert(self.unlock@.take(5) =~= self.unlock@);
        n
    }
}

impl BinaryField for SongEntry {
    open spec fn spec_parse(bits: Seq<bool>, pos: nat) -> Taken<SongEntryView> {
        match PhiString::spec_parse(bits, pos) {
            Err(e) => Err(e),
            Ok((name, n1)) => match VarInt::spec_parse(bits, n1) {
                Err(e) => Err(e),
                Ok((length, n2)) => match take_flags(bits, n2, 5) {
                    Err(e) => Err(e),
                    Ok((unlock, n3)) => match take_flags(bits, aligned(n3), 5) {
                        Err(e) => Err(e),
                        Ok((fc, n4)) => match spec_parse_seq::<LevelRecord>(
                            bits,
                            aligned(n4),
                            count_set(unlock),
                        ) {
                            Err(e) => Err(e),
                            Ok((levels, n5)) => Ok(
                                (SongEntryView { name, length, unlock, fc, levels }, n5),
                            ),
                        },
                    },
                },
            },
        }
    }

    open spec fn spec_build(v: SongEntryView, pre: Seq<bool>) -> Seq<bool> {
        let b1 = PhiString::spec_build(v.name, pre);
        let b2 = VarInt::spec_build(v.length, b1);
        let b3 = b2 + v.unlock;
        let b4 = pad8(b3) + v.fc;
        spec_build_seq::<LevelRecord>(v.levels, pad8(b4))
    }

    /// An entry has a wire form when its name and length can be written and it holds
    /// one result for each unlock flag that is set.
    open spec fn representable(v: SongEntryView) -> bool {
        &&& PhiString::representable(v.name)
        &&& VarInt::representable(v.length)
        &&& v.levels.len() == count_set(v.unlock)
    }

    open spec fn valid(v: SongEntryView) -> bool {
        &&& Self::representable(v)
        &&& v.unlock.len() == 5
        &&& v.fc.len() == 5
    }

    open spec fn normal(v: SongEntryView) -> SongEntryView {
        v
    }

    #[verifier::rlimit(50)]
    fn parse<'a>(cur: BitCursor<'a>) -> (r: Result<(SongEntry, BitCursor<'a>), CodecError>) {
        let (name, cur1) = match PhiString::parse(cur) {
            Ok(x) => x,
            Err(e) => {
                return Err(e);
            },
        };
        let (length, cur2) = match VarInt::parse(cur1) {
            Ok(x) => x,
            Err(e) => {
                return Err(e);
            },
        };
        let (unlock, cur3) = match cur2.read_flags::<5>() {
            Ok(x) => x,
            Err(e) => {
                return Err(e);
            },
        };
        let (fc, cur4) = match cur3.align().read_flags::<5>() {
            Ok(x) => x,
            Err(e) => {
                return Err(e);
            },
        };
        let mut s = SongEntry { name, length, unlock, fc, levels: Vec::new() };
        let (levels, cur5) = match parse_seq::<LevelRecord>(cur4.align(), s.get_levels_len()) {
            Ok(x) => x,
            Err(e) => {
                return Err(e);
            },
        };
        s.levels = levels;
        Ok((s, cur5))
    }

    #[verifier::rlimit(50)]
    fn build(&self, buf: &mut BitBuffer) -> (r: Result<(), CodecError>) {
        if !self.name.fits() || self.length.0 > VARINT_MAX || self.levels.len()
            != self.get_levels_len() {
            return Err(CodecError::ValueOutOfRange);
        }
        let _ = self.name.build(buf);
        let _ = self.length.build(buf);
        buf.write_flags(&self.unlock);
        buf.align();
        buf.write_flags(&self.fc);
        buf.align();
        let _ = build_seq::<LevelRecord>(&self.levels, buf);
        Ok(())
    }

    #[verifier::rlimit(50)]
    proof fn lemma_parse_build(v: SongEntryView, pre: Seq<bool>, bits: Seq<bool>) {
        let b1 = PhiString::spec_build(v.name, pre);
        let b2 = VarInt::spec_build(v.length, b1);
        let b3 = b2 + v.unlock;
        let b4 = pad8(b3) + v.fc;
        assert(all_valid::<LevelRecord>(v.levels));
        lemma_parse_build_seq::<LevelRecord>(v.levels, pad8(b4), bits);
        assert(all_normal::<LevelRecord>(v.levels) =~= v.levels);
        lemma_begins_padded(bits, b4);
        lemma_take_flags_written(bits, pad8(b3), v.fc);
        lemma_begins_padded(bits, b3);
        lemma_take_flags_written(bits, b2, v.unlock);
        VarInt::lemma_parse_build(v.length, b1, bits);
        PhiString::lemma_parse_build(v.name, pre, bits);
    }

    #[verifier::rlimit(50)]
    proof fn lemma_parsed_valid(bits: Seq<bool>, pos: nat) {
        assert forall|p: nat, n: nat| #![trigger spec_parse_seq::<LevelRecord>(bits, p, n)] reads_valid_seq::<LevelRecord>(bits, p, n) by {
            lemma_parsed_valid_seq::<LevelRecord>(bits, p, n);
        }
        assert forall|p: nat| #![trigger PhiString::spec_parse(bits, p)] reads_valid::<PhiString>(bits, p) by {
            PhiString::lemma_parsed_valid(bits, p);
        }
        assert forall|p: nat| #![trigger VarInt::spec_parse(bits, p)] reads_valid::<VarInt>(bits, p) by {
            VarInt::lemma_parsed_valid(bits, p);
        }
    }
}

/// The results of a player. `song_sum` is the number of songs; it is written from
/// `song_list`.
#[derive(Debug, PartialEq, Eq)]
pub struct GameRecord {
    pub version: u8,
    pub song_sum: VarInt,
    pub song_list: Vec<SongEntry>,
}

/// The model of a score record.
pub struct GameRecordView {
    pub version: u8,
    pub song_sum: VarInt,
    pub song_list: Seq<SongEntryView>,
}

impl View for GameRecord {
    type V = GameRecordView;

    open spec fn view(&self) -> GameRecordView {
        GameRecordView {
            version: self.version,
            song_sum: self.song_sum,
            song_list: views(self.song_list@),
        }
    }
}

impl Default for GameRecord {
    fn default() -> (r: GameRecord)
        ensures
            r.version == 0,
            r.song_sum == VarInt(0),
            r.song_list@.len() == 0,
    {
        GameRecord {
            version: 0,
            song_sum: VarInt(0),
            song_list: Vec::new(),
        }
    }
}

impl BinaryField for GameRecord {
    open spec fn spec_parse(bits: Seq<bool>, pos: nat) -> Taken<GameRecordView> {
        match take_u8(bits, pos) {
            Err(e) => Err(e),
            Ok((version, n1)) => match VarInt::spec_parse(bits, n1) {
                Err(e) => Err(e),
                Ok((song_sum, n2)) => match spec_parse_seq::<SongEntry>(
                    bits,
                    n2,
                    song_sum.0 as nat,
                ) {
                    Err(e) => Err(e),
                    Ok((song_list, n3)) => Ok(
                        (GameRecordView { version, song_sum, song_list }, n3),
                    ),
                },
            },
        }
    }

    open spec fn spec_build(v: GameRecordView, pre: Seq<bool>) -> Seq<bool> {
        let b1 = pre + le_bits(v.version as nat, 8);
        let b2 = VarInt::spec_build(VarInt(v.song_list.len() as u16), b1);
        spec_build_seq::<SongEntry>(v.song_list, b2)
    }

    open spec fn representable(v: GameRecordView) -> bool {
        &&& v.song_list.len() <= VARINT_MAX
        &&& all_representable::<SongEntry>(v.song_list)
    }

    open spec fn valid(v: GameRecordView) -> bool {
        &&& v.song_list.len() <= VARINT_MAX
        &&& all_valid::<SongEntry>(v.song_list)
    }

    open spec fn normal(v: GameRecordView) -> GameRecordView {
        GameRecordView { song_sum: VarInt(v.song_list.len() as u16), ..v }
    }

    #[verifier::rlimit(50)]
    fn parse<'a>(cur: BitCursor<'a>) -> (r: Result<(GameRecord, BitCursor<'a>), CodecError>) {
        let (version, cur1) = match cur.read_u8() {
            Ok(x) => x,
            Err(e) => {
                return Err(e);
            },
        };
        let (song_sum, cur2) = match VarInt::parse(cur1) {
            Ok(x) => x,
            Err(e) => {
                return Err(e);
            },
        };
        let (song_list, cur3) = match parse_seq::<SongEntry>(cur2, song_sum.0 as usize) {
            Ok(x) => x,
            Err(e) => {
                return Err(e);
            },
        };
        Ok((GameRecord { version, song_sum, song_list }, cur3))
    }

    #[verifier::rlimit(50)]
    fn build(&self, buf: &mut BitBuffer) -> (r: Result<(), CodecError>) {
        if self.song_list.len() > VARINT_MAX as usize {
            return Err(CodecError::ValueOutOfRange);
        }
        buf.write_u8(self.version);
        let _ = VarInt(self.song_list.len() as u16).build(buf);
        build_seq::<SongEntry>(&self.song_list, buf)
    }

    #[verifier::rlimit(50)]
    proof fn lemma_parse_build(v: GameRecordView, pre: Seq<bool>, bits: Seq<bool>) {
        let count = VarInt(v.song_list.len() as u16);
        let b1 = pre + le_bits(v.version as nat, 8);
        let b2 = VarInt::spec_build(count, b1);
        lemma_parse_build_seq::<SongEntry>(v.song_list, b2, bits);
        assert(all_normal::<SongEntry>(v.song_list) =~= v.song_list);
        VarInt::lemma_parse_build(count, b1, bits);
        lemma_take_u8_written(bits, pre, v.version);
    }

    #[verifier::rlimit(50)]
    proof fn lemma_parsed_valid(bits: Seq<bool>, pos: nat) {
        assert forall|p: nat, n: nat| #![trigger spec_parse_seq::<SongEntry>(bits, p, n)] reads_valid_seq::<SongEntry>(bits, p, n) by {
            lemma_parsed_valid_seq::<SongEntry>(bits, p, n);
        }
        assert forall|p: nat| #![trigger VarInt::spec_parse(bits, p)] reads_valid::<VarInt>(bits, p) by {
            VarInt::lemma_parsed_valid(bits, p);
        }
    }
}

} // verus!
