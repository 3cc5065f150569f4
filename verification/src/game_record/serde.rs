use super::field::{GameRecord, GameRecordView, LevelRecord, SongEntry, SongEntryView};
use crate::bits::byte_bits;
use crate::cursor::MAX_BYTES;
use crate::field::{lemma_decode_encode, spec_decode, spec_encode, views, BinaryField};
use crate::game_key::serde::{count_of, one_if};
use crate::name_map::{lemma_put_all, name_less, put, same, sorted, Entries, NameMap};
use crate::phi_base::{PhiString, VarInt};
use vstd::prelude::*;
use vstd::std_specs::convert::FromSpecImpl;

verus! {

/// The name of difficulty `i` in canonical form.
pub fn difficulty_name(i: usize) -> (name: &'static str)
    requires
        i < 5,
    ensures
        name@ == spec_difficulty_name(i as int),
{
    if i == 0 {
        "EZ"
    } else if i == 1 {
        "HD"
    } else if i == 2 {
        "IN"
    } else if i == 3 {
        "AT"
    } else {
        "Legacy"
    }
}

/// The names of the difficulties, in their fixed order.
pub open spec fn spec_difficulty_name(i: int) -> Seq<char> {
    if i == 0 {
        "EZ"@
    } else if i == 1 {
        "HD"@
    } else if i == 2 {
        "IN"@
    } else if i == 3 {
        "AT"@
    } else {
        "Legacy"@
    }
}

/// The best result at one difficulty, with its full-combo flag. `acc` holds the bits of an
/// IEEE 754 single-precision number.
#[derive(Clone, Copy, Debug, PartialEq, Eq)]
pub struct SerializableLevelRecord {
    pub score: u32,
    pub acc: u32,
    pub fc: bool,
}

/// The results of one song by difficulty. A difficulty without a result is absent.
#[derive(Clone, Copy, Debug, PartialEq, Eq)]
pub struct SerializableSongRecord {
    pub ez: Option<SerializableLevelRecord>,
    pub hd: Option<SerializableLevelRecord>,
    pub in_: Option<SerializableLevelRecord>,
    pub at: Option<SerializableLevelRecord>,
    pub legacy: Option<SerializableLevelRecord>,
}

/// The result that stands for a difficulty: the one at `slot`, where the results go that
/// far and the difficulty is unlocked.
pub open spec fn level_at(
    unlocked: bool,
    fc: bool,
    levels: Seq<LevelRecord>,
    slot: int,
) -> Option<SerializableLevelRecord> {
    if unlocked && slot < levels.len() {
        Some(SerializableLevelRecord { score: levels[slot].score, acc: levels[slot].acc, fc })
    } else {
        None
    }
}

/// The raw results that a canonical result stands for: itself without its flag, if it is
/// there.
pub open spec fn level_of(entry: Option<SerializableLevelRecord>) -> Seq<LevelRecord> {
    match entry {
        Some(rec) => seq![LevelRecord { score: rec.score, acc: rec.acc }],
        None => Seq::empty(),
    }
}

/// The full-combo flag that a canonical result stands for.
pub open spec fn fc_of(entry: Option<SerializableLevelRecord>) -> bool {
    match entry {
        Some(rec) => rec.fc,
        None => false,
    }
}

impl SerializableSongRecord {
    /// The entry of difficulty `i`.
    pub open spec fn entry(self, i: int) -> Option<SerializableLevelRecord> {
        if i == 0 {
            self.ez
        } else if i == 1 {
            self.hd
        } else if i == 2 {
            self.in_
        } else if i == 3 {
            self.at
        } else {
            self.legacy
        }
    }

    /// The canonical form of a song with these flags and results: each difficulty that is
    /// unlocked takes the next result, in the order of the difficulties.
    pub open spec fn of_raw(
        unlock: Seq<bool>,
        fc: Seq<bool>,
        levels: Seq<LevelRecord>,
    ) -> SerializableSongRecord {
        let s1 = one_if(unlock[0]);
        let s2 = s1 + one_if(unlock[1]);
        let s3 = s2 + one_if(unlock[2]);
        let s4 = s3 + one_if(unlock[3]);
        SerializableSongRecord {
            ez: level_at(unlock[0], fc[0], levels, 0),
            hd: level_at(unlock[1], fc[1], levels, s1),
            in_: level_at(unlock[2], fc[2], levels, s2),
            at: level_at(unlock[3], fc[3], levels, s3),
            legacy: level_at(unlock[4], fc[4], levels, s4),
        }
    }

    /// The unlock flags of the raw form: a flag for each result that is there.
    pub open spec fn raw_unlock(self) -> Seq<bool> {
        seq![self.ez is Some, self.hd is Some, self.in_ is Some, self.at is Some, self.legacy is Some]
    }

    /// The full-combo flags of the raw form.
    pub open spec fn raw_fc(self) -> Seq<bool> {
        seq![fc_of(self.ez), fc_of(self.hd), fc_of(self.in_), fc_of(self.at), fc_of(self.legacy)]
    }

    /// The results of the raw form: those that are there, in the order of the difficulties.
    pub open spec fn raw_levels(self) -> Seq<LevelRecord> {
        level_of(self.ez) + level_of(self.hd) + level_of(self.in_) + level_of(self.at) + level_of(
            self.legacy,
        )
    }

    /// The raw form of the song `name` with these results. Its length is eight for each
    /// result and two more.
    pub open spec fn raw(self, name: Seq<char>) -> SongEntryView {
        SongEntryView {
            name,
            length: VarInt((8 * self.raw_levels().len() + 2) as u16),
            unlock: self.raw_unlock(),
            fc: self.raw_fc(),
            levels: self.raw_levels(),
        }
    }

    /// The raw form of canonical results has these results as its canonical form.
    #[verifier::rlimit(50)]
    pub proof fn lemma_raw_and_back(self)
        ensures
            SerializableSongRecord::of_raw(self.raw_unlock(), self.raw_fc(), self.raw_levels())
                == self,
            self.raw_levels().len() <= 5,
    {
    }

    /// The canonical form of a song that holds one result for each unlock flag, and whose
    /// full-combo flags are set only where it is unlocked, has that song as its raw form.
    #[verifier::rlimit(50)]
    pub proof fn lemma_canonical_and_back(
        unlock: Seq<bool>,
        fc: Seq<bool>,
        levels: Seq<LevelRecord>,
    )
        requires
            unlock.len() == 5,
            fc.len() == 5,
            levels.len() == one_if(unlock[0]) + one_if(unlock[1]) + one_if(unlock[2]) + one_if(
                unlock[3],
            ) + one_if(unlock[4]),
            forall|i: int| 0 <= i < 5 && fc[i] ==> unlock[i],
        ensures
            SerializableSongRecord::of_raw(unlock, fc, levels).raw_unlock() == unlock,
            SerializableSongRecord::of_raw(unlock, fc, levels).raw_fc() == fc,
            SerializableSongRecord::of_raw(unlock, fc, levels).raw_levels() == levels,
    {
        let c = SerializableSongRecord::of_raw(unlock, fc, levels);
        assert(c.raw_unlock() =~= unlock);
        assert(c.raw_fc() =~= fc);
        assert(c.raw_levels() =~= levels);
    }

    /// The results without any.
    pub fn new() -> (song: SerializableSongRecord)
        ensures
            forall|i: int| 0 <= i < 5 ==> song.entry(i) is None,
    {
        SerializableSongRecord { ez: None, hd: None, in_: None, at: None, legacy: None }
    }

    /// The entry of the difficulty `i`.
    pub fn at_index(&self, i: usize) -> (entry: Option<SerializableLevelRecord>)
        requires
            i < 5,
        ensures
            entry == self.entry(i as int),
    {
        if i == 0 {
            self.ez
        } else if i == 1 {
            self.hd
        } else if i == 2 {
            self.in_
        } else if i == 3 {
            self.at
        } else {
            self.legacy
        }
    }

    /// The entry under the name of a difficulty; none under any other name.
    pub fn get(&self, name: &str) -> (entry: Option<SerializableLevelRecord>)
        ensures
            forall|i: int| 0 <= i < 5 && name@ == spec_difficulty_name(i) ==> entry == self.entry(i),
            (forall|i: int| 0 <= i < 5 ==> name@ != spec_difficulty_name(i)) ==> entry is None,
    {
        proof {
            lemma_names_differ();
        }
        let mut i: usize = 0;
        while i < 5
            invariant
                i <= 5,
                forall|j: int| 0 <= j < i ==> name@ != spec_difficulty_name(j),
                forall|j: int, k: int|
                    0 <= j < k < 5 ==> spec_difficulty_name(j) != spec_difficulty_name(k),
            decreases 5 - i,
        {
            if same(difficulty_name(i), name) {
                return self.at_index(i);
            }
            i += 1;
        }
        None
    }

    /// Puts `rec` under the name of a difficulty. Says whether `name` is one.
    pub fn set(&mut self, name: &str, rec: SerializableLevelRecord) -> (known: bool)
        ensures
            known == exists|i: int| 0 <= i < 5 && name@ == spec_difficulty_name(i),
            forall|i: int|
                0 <= i < 5 ==> final(self).entry(i) == if name@ == spec_difficulty_name(i) {
                    Some(rec)
                } else {
                    old(self).entry(i)
                },
    {
        proof {
            lemma_names_differ();
        }
        if same(name, "EZ") {
            self.ez = Some(rec);
            assert(name@ == spec_difficulty_name(0));
            true
        } else if same(name, "HD") {
            self.hd = Some(rec);
            assert(name@ == spec_difficulty_name(1));
            true
        } else if same(name, "IN") {
            self.in_ = Some(rec);
            assert(name@ == spec_difficulty_name(2));
            true
        } else if same(name, "AT") {
            self.at = Some(rec);
            assert(name@ == spec_difficulty_name(3));
            true
        } else if same(name, "Legacy") {
            self.legacy = Some(rec);
            assert(name@ == spec_difficulty_name(4));
            true
        } else {
            false
        }
    }
}

/// No two difficulties have one name.
pub proof fn lemma_names_differ()
    ensures
        forall|j: int, k: int|
            0 <= j < k < 5 ==> spec_difficulty_name(j) != spec_difficulty_name(k),
{
    reveal_strlit("EZ");
    reveal_strlit("HD");
    reveal_strlit("IN");
    reveal_strlit("AT");
    reveal_strlit("Legacy");
    assert("EZ"@[0] != "HD"@[0]);
    assert("EZ"@[0] != "IN"@[0]);
    assert("EZ"@[0] != "AT"@[0]);
    assert("EZ"@.len() != "Legacy"@.len());
    assert("HD"@[0] != "IN"@[0]);
    assert("HD"@[0] != "AT"@[0]);
    assert("HD"@.len() != "Legacy"@.len());
    assert("IN"@[0] != "AT"@[0]);
    assert("IN"@.len() != "Legacy"@.len());
    assert("AT"@.len() != "Legacy"@.len());
}

/// The canonical form of the results of one song.
#[verifier::rlimit(50)]
fn canonical_song(song: &SongEntry) -> (c: SerializableSongRecord)
    ensures
        c == SerializableSongRecord::of_raw(song.unlock@, song.fc@, views(song.levels@)),
{
    let mut c = SerializableSongRecord { ez: None, hd: None, in_: None, at: None, legacy: None };
    let mut level_idx: usize = 0;
    assert(forall|j: int|
        0 <= j < song.levels@.len() ==> (#[trigger] views(song.levels@)[j]) == song.levels@[j]);
    if song.unlock[0] && level_idx < song.levels.len() {
        let level = &song.levels[level_idx];
        c.ez = Some(SerializableLevelRecord { score: level.score, acc: level.acc, fc: song.fc[0] });
        level_idx += 1;
    }
    if song.unlock[1] && level_idx < song.levels.len() {
        let level = &song.levels[level_idx];
        c.hd = Some(SerializableLevelRecord { score: level.score, acc: level.acc, fc: song.fc[1] });
        level_idx += 1;
    }
    if song.unlock[2] && level_idx < song.levels.len() {
        let level = &song.levels[level_idx];
        c.in_ = Some(
            SerializableLevelRecord { score: level.score, acc: level.acc, fc: song.fc[2] },
        );
        level_idx += 1;
    }
    if song.unlock[3] && level_idx < song.levels.len() {
        let level = &song.levels[level_idx];
        c.at = Some(SerializableLevelRecord { score: level.score, acc: level.acc, fc: song.fc[3] });
        level_idx += 1;
    }
    if song.unlock[4] && level_idx < song.levels.len() {
        let level = &song.levels[level_idx];
        c.legacy = Some(
            SerializableLevelRecord { score: level.score, acc: level.acc, fc: song.fc[4] },
        );
    }
    c
}

/// The full-combo flag of a canonical result; none is no full combo.
fn fc_flag(entry: &Option<SerializableLevelRecord>) -> (fc: bool)
    ensures
        fc == fc_of(*entry),
{
    match entry {
        Some(rec) => rec.fc,
        None => false,
    }
}

/// Appends the raw result that a canonical result stands for, if it is there.
fn push_level(levels: &mut Vec<LevelRecord>, entry: &Option<SerializableLevelRecord>)
    ensures
        final(levels)@ == old(levels)@ + level_of(*entry),
{
    match entry {
        Some(rec) => {
            levels.push(LevelRecord { score: rec.score, acc: rec.acc });
            assert(levels@ =~= old(levels)@ + level_of(*entry));
        },
        None => {
            assert(levels@ =~= old(levels)@ + level_of(*entry));
        },
    }
}

/// The raw form of the results of one song.
#[verifier::rlimit(50)]
fn raw_song(name: String, c: SerializableSongRecord) -> (song: SongEntry)
    ensures
        song@ == c.raw(name@),
{
    let unlock = [c.ez.is_some(), c.hd.is_some(), c.in_.is_some(), c.at.is_some(), c.legacy.is_some()];
    let fc = [fc_flag(&c.ez), fc_flag(&c.hd), fc_flag(&c.in_), fc_flag(&c.at), fc_flag(&c.legacy)];
    let mut levels: Vec<LevelRecord> = Vec::new();
    push_level(&mut levels, &c.ez);
    push_level(&mut levels, &c.hd);
    push_level(&mut levels, &c.in_);
    push_level(&mut levels, &c.at);
    push_level(&mut levels, &c.legacy);
    proof {
        assert(unlock@ =~= c.raw_unlock());
        assert(fc@ =~= c.raw_fc());
        assert(levels@ =~= c.raw_levels());
        assert(views(levels@) =~= c.raw_levels());
        assert(levels@.len() <= 5);
    }
    SongEntry {
        name: PhiString(name),
        length: VarInt((levels.len() as u16) * 8 + 2),
        unlock,
        fc,
        levels,
    }
}

/// The score record in canonical form: the songs by name.
#[derive(Debug, PartialEq, Eq)]
pub struct SerializableGameRecord {
    pub version: u8,
    pub songs: NameMap<SerializableSongRecord>,
}

/// The model of a canonical score record: its songs in the order of their names.
pub struct SerializableGameRecordView {
    pub version: u8,
    pub songs: Entries<SerializableSongRecord>,
}

impl View for SerializableGameRecord {
    type V = SerializableGameRecordView;

    open spec fn view(&self) -> SerializableGameRecordView {
        SerializableGameRecordView { version: self.version, songs: self.songs@ }
    }
}

/// The songs of a list by name: each is put under its name in turn, so of two songs of one
/// name the later one stays.
pub open spec fn songs_by_name(list: Seq<SongEntryView>) -> Entries<SerializableSongRecord>
    decreases list.len(),
{
    if list.len() == 0 {
        Seq::empty()
    } else {
        put(
            songs_by_name(list.drop_last()),
            list.last().name,
            SerializableSongRecord::of_raw(list.last().unlock, list.last().fc, list.last().levels),
        )
    }
}

/// The raw songs of canonical entries, in the order of the entries.
pub open spec fn songs_in_order(entries: Entries<SerializableSongRecord>) -> Seq<SongEntryView> {
    Seq::new(entries.len(), |i: int| entries[i].1.raw(entries[i].0))
}

impl SerializableGameRecordView {
    /// The canonical form of a score record.
    pub open spec fn of_raw(gr: GameRecordView) -> SerializableGameRecordView {
        SerializableGameRecordView { version: gr.version, songs: songs_by_name(gr.song_list) }
    }

    /// The score record that the canonical form stands for.
    pub open spec fn raw(self) -> GameRecordView {
        GameRecordView {
            version: self.version,
            song_sum: count_of(self.songs.len()),
            song_list: songs_in_order(self.songs),
        }
    }
}

/// Canonical songs are the canonical form of their raw form: nothing is lost on the way
/// to the raw record and back.
pub proof fn lemma_songs_there_and_back(entries: Entries<SerializableSongRecord>)
    requires
        sorted(entries),
    ensures
        songs_by_name(songs_in_order(entries)) == entries,
    decreases entries.len(),
{
    let list = songs_in_order(entries);
    if entries.len() == 0 {
        assert(entries =~= Seq::<(Seq<char>, SerializableSongRecord)>::empty());
    } else {
        let shorter = entries.drop_last();
        assert(list.drop_last() =~= songs_in_order(shorter));
        assert forall|i: int| 0 <= i < shorter.len() - 1 implies name_less(
            #[trigger] shorter[i].0,
            shorter[i + 1].0,
        ) by {
            assert(name_less(entries[i].0, entries[i + 1].0));
        }
        lemma_songs_there_and_back(shorter);
        entries.last().1.lemma_raw_and_back();
        lemma_put_all(entries, shorter);
    }
}

/// A canonical score record is the canonical form of the raw record that it stands for.
pub proof fn lemma_game_record_there_and_back(c: SerializableGameRecordView)
    requires
        sorted(c.songs),
    ensures
        SerializableGameRecordView::of_raw(c.raw()) == c,
{
    lemma_songs_there_and_back(c.songs);
}

/// A canonical score record survives the wire: where the raw record that it stands for is
/// valid, the bytes of that record decode to a record of the same canonical form.
pub proof fn lemma_game_record_survives_the_wire(c: SerializableGameRecordView, bytes: Seq<u8>)
    requires
        sorted(c.songs),
        GameRecord::valid(c.raw()),
        byte_bits(bytes) == spec_encode::<GameRecord>(c.raw()),
        bytes.len() <= MAX_BYTES,
    ensures
        match spec_decode::<GameRecord>(bytes) {
            Ok(raw) => SerializableGameRecordView::of_raw(raw) == c,
            Err(_) => false,
        },
{
    lemma_decode_encode::<GameRecord>(c.raw(), bytes);
    lemma_game_record_there_and_back(c);
}

impl From<GameRecord> for SerializableGameRecord {
    fn from(gr: GameRecord) -> (sgr: SerializableGameRecord)
        ensures
            sgr@ == SerializableGameRecordView::of_raw(gr@),
            sgr.songs.wf(),
    {
        let mut songs: NameMap<SerializableSongRecord> = NameMap::new();
        let ghost list = gr@.song_list;
        let mut i: usize = 0;
        assert(list.take(0) =~= Seq::<SongEntryView>::empty());
        while i < gr.song_list.len()
            invariant
                i <= list.len(),
                list == views(gr.song_list@),
                songs.wf(),
                songs@ == songs_by_name(list.take(i as int)),
            decreases list.len() - i,
        {
            let song = &gr.song_list[i];
            let name = song.name.0.clone();
            let c = canonical_song(song);
            proof {
                assert(list.take(i + 1).drop_last() =~= list.take(i as int));
                assert(list.take(i + 1).last() == song@);
            }
            songs.insert(name, c);
            i += 1;
        }
        assert(list.take(i as int) =~= list);
        SerializableGameRecord { version: gr.version, songs }
    }
}

/// The conversion builds values that a specification cannot name; what it returns is
/// stated on `from` itself, over views.
impl FromSpecImpl<GameRecord> for SerializableGameRecord {
    open spec fn obeys_from_spec() -> bool {
        false
    }

    open spec fn from_spec(gr: GameRecord) -> SerializableGameRecord {
        arbitrary()
    }
}

impl From<SerializableGameRecord> for GameRecord {
    fn from(sgr: SerializableGameRecord) -> (gr: GameRecord)
        ensures
            gr@ == sgr@.raw(),
    {
        let n = sgr.songs.len();
        let mut song_list: Vec<SongEntry> = Vec::new();
        let mut i: usize = 0;
        while i < n
            invariant
                i <= n,
                n == sgr.songs@.len(),
                song_list@.len() == i,
                forall|j: int|
                    0 <= j < i ==> (#[trigger] song_list@[j])@ == sgr.songs@[j].1.raw(
                        sgr.songs@[j].0,
                    ),
            decreases n - i,
        {
            let name = sgr.songs.name(i).to_owned();
            let c = *sgr.songs.value(i);
            song_list.push(raw_song(name, c));
            i += 1;
        }
        assert(views(song_list@) =~= songs_in_order(sgr.songs@));
        let song_sum = if n > u16::MAX as usize {
            VarInt(u16::MAX)
        } else {
            VarInt(n as u16)
        };
        GameRecord { version: sgr.version, song_sum, song_list }
    }
}

/// The conversion builds values that a specification cannot name; what it returns is
/// stated on `from` itself, over views.
impl FromSpecImpl<SerializableGameRecord> for GameRecord {
    open spec fn obeys_from_spec() -> bool {
        false
    }

    open spec fn from_spec(sgr: SerializableGameRecord) -> GameRecord {
        arbitrary()
    }
}

} // verus!
