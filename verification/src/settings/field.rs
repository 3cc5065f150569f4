use crate::bits::{le_bits, pad8};
use crate::buffer::BitBuffer;
use crate::cursor::{aligned, take_flags, take_u32, take_u8, BitCursor, Taken};
use crate::error::CodecError;
use crate::field::{reads_valid, BinaryField};
use crate::phi_base::PhiString;
use crate::wire::{
    lemma_begins_padded, lemma_take_flags_written, lemma_take_u32_written, lemma_take_u8_written,
};
use vstd::prelude::*;

verus! {

/// The switches of the settings, one bit each.
#[derive(Clone, Copy, Debug, PartialEq, Eq, Structural)]
pub struct SettingsBase {
    pub chord_support: bool,
    pub fc_ap_indicator: bool,
    pub enable_hit_sound: bool,
    pub low_resolution_mode: bool,
}

impl View for SettingsBase {
    type V = SettingsBase;

    open spec fn view(&self) -> SettingsBase {
        *self
    }
}

impl Default for SettingsBase {
    fn default() -> (r: SettingsBase)
        ensures
            !r.chord_support,
            !r.fc_ap_indicator,
            !r.enable_hit_sound,
            !r.low_resolution_mode,
    {
        SettingsBase {
            chord_support: false,
            fc_ap_indicator: false,
            enable_hit_sound: false,
            low_resolution_mode: false,
        }
    }
}

impl SettingsBase {
    /// The switches in wire order.
    pub open spec fn flags(self) -> Seq<bool> {
        seq![
            self.chord_support,
            self.fc_ap_indicator,
            self.enable_hit_sound,
            self.low_resolution_mode,
        ]
    }
}

impl BinaryField for SettingsBase {
    open spec fn spec_parse(bits: Seq<bool>, pos: nat) -> Taken<SettingsBase> {
        match take_flags(bits, pos, 4) {
            Err(e) => Err(e),
            Ok((f, next)) => Ok(
                (
                    SettingsBase {
                        chord_support: f[0],
                        fc_ap_indicator: f[1],
                        enable_hit_sound: f[2],
                        low_resolution_mode: f[3],
                    },
                    next,
                ),
            ),
        }
    }

    open spec fn spec_build(v: SettingsBase, pre: Seq<bool>) -> Seq<bool> {
        pre + v.flags()
    }

    open spec fn representable(v: SettingsBase) -> bool {
        true
    }

    open spec fn valid(v: SettingsBase) -> bool {
        true
    }

    open spec fn normal(v: SettingsBase) -> SettingsBase {
        v
    }

    fn parse<'a>(cur: BitCursor<'a>) -> (r: Result<(SettingsBase, BitCursor<'a>), CodecError>) {
        let (f, next) = match cur.read_flags::<4>() {
            Ok(x) => x,
            Err(e) => {
                return Err(e);
            },
        };
        Ok(
            (
                SettingsBase {
                    chord_support: f[0],
                    fc_ap_indicator: f[1],
                    enable_hit_sound: f[2],
                    low_resolution_mode: f[3],
                },
                next,
            ),
        )
    }

    fn build(&self, buf: &mut BitBuffer) -> (r: Result<(), CodecError>) {
        let f = [
            self.chord_support,
            self.fc_ap_indicator,
            self.enable_hit_sound,
            self.low_resolution_mode,
        ];
        assert(f@ =~= self.flags());
        buf.write_flags(&f);
        Ok(())
    }

    proof fn lemma_parse_build(v: SettingsBase, pre: Seq<bool>, bits: Seq<bool>) {
        lemma_take_flags_written(bits, pre, v.flags());
    }

    proof fn lemma_parsed_valid(bits: Seq<bool>, pos: nat) {
    }
}

/// The settings of a player. The six sliders hold the bits of IEEE 754 single-precision
/// numbers.
#[derive(Debug, PartialEq, Eq)]
pub struct Settings {
    pub version: u8,
    pub base: SettingsBase,
    pub device_name: PhiString,
    pub bright: u32,
    pub music_volume: u32,
    pub effect_volume: u32,
    pub hit_sound_volume: u32,
    pub sound_offset: u32,
    pub note_scale: u32,
}

/// The model of the settings.
pub struct SettingsView {
    pub version: u8,
    pub base: SettingsBase,
    pub device_name: Seq<char>,
    pub bright: u32,
    pub music_volume: u32,
    pub effect_volume: u32,
    pub hit_sound_volume: u32,
    pub sound_offset: u32,
    pub note_scale: u32,
}

impl View for Settings {
    type V = SettingsView;

    open spec fn view(&self) -> SettingsView {
        SettingsView {
            version: self.version,
            base: self.base,
            device_name: self.device_name@,
            bright: self.bright,
            music_volume: self.music_volume,
            effect_volume: self.effect_volume,
            hit_sound_volume: self.hit_sound_volume,
            sound_offset: self.sound_offset,
            note_scale: self.note_scale,
        }
    }
}

impl Default for Settings {
    fn default() -> (r: Settings)
        ensures
            r.version == 0,
            r.base.flags() == seq![false, false, false, false],
            r.device_name@ == Seq::<char>::empty(),
            r.bright == 0,
            r.music_volume == 0,
            r.effect_volume == 0,
            r.hit_sound_volume == 0,
            r.sound_offset == 0,
            r.note_scale == 0,
    {
        Settings {
            version: 0,
            base: SettingsBase::default(),
            device_name: PhiString(String::new()),
            bright: 0,
            music_volume: 0,
            effect_volume: 0,
            hit_sound_volume: 0,
            sound_offset: 0,
            note_scale: 0,
        }
    }
}

impl BinaryField for Settings {
    open spec fn spec_parse(bits: Seq<bool>, pos: nat) -> Taken<SettingsView> {
        match take_u8(bits, pos) {
            Err(e) => Err(e),
            Ok((version, n1)) => match SettingsBase::spec_parse(bits, n1) {
                Err(e) => Err(e),
                Ok((base, n2)) => match PhiString::spec_parse(bits, aligned(n2)) {
                    Err(e) => Err(e),
                    Ok((device_name, n3)) => match take_u32(bits, n3) {
                        Err(e) => Err(e),
                        Ok((bright, n4)) => match take_u32(bits, n4) {
                            Err(e) => Err(e),
                            Ok((music_volume, n5)) => match take_u32(bits, n5) {
                                Err(e) => Err(e),
                                Ok((effect_volume, n6)) => match take_u32(bits, n6) {
                                    Err(e) => Err(e),
                                    Ok((hit_sound_volume, n7)) => match take_u32(bits, n7) {
                                        Err(e) => Err(e),
                                        Ok((sound_offset, n8)) => match take_u32(bits, n8) {
                                            Err(e) => Err(e),
                                            Ok((note_scale, n9)) => Ok(
                                                (
                                                    SettingsView {
                                                        version,
                                                        base,
                                                        device_name,
                                                        bright,
                                                        music_volume,
                                                        effect_volume,
                                                        hit_sound_volume,
                                                        sound_offset,
                                                        note_scale,
                                                    },
                                                    n9,
                                                ),
                                            ),
                                        },
                                    },
                                },
                            },
                        },
                    },
                },
            },
        }
    }

    open spec fn spec_build(v: SettingsView, pre: Seq<bool>) -> Seq<bool> {
        let b1 = pre + le_bits(v.version as nat, 8);
        let b2 = SettingsBase::spec_build(v.base, b1);
        let b3 = PhiString::spec_build(v.device_name, pad8(b2));
        let b4 = b3 + le_bits(v.bright as nat, 32);
        let b5 = b4 + le_bits(v.music_volume as nat, 32);
        let b6 = b5 + le_bits(v.effect_volume as nat, 32);
        let b7 = b6 + le_bits(v.hit_sound_volume as nat, 32);
        let b8 = b7 + le_bits(v.sound_offset as nat, 32);
        b8 + le_bits(v.note_scale as nat, 32)
    }

    open spec fn representable(v: SettingsView) -> bool {
        PhiString::representable(v.device_name)
    }

    open spec fn valid(v: SettingsView) -> bool {
        Self::representable(v)
    }

    open spec fn normal(v: SettingsView) -> SettingsView {
        v
    }

    #[verifier::rlimit(50)]
    fn parse<'a>(cur: BitCursor<'a>) -> (r: Result<(Settings, BitCursor<'a>), CodecError>) {
        let (version, cur1) = match cur.read_u8() {
            Ok(x) => x,
            Err(e) => {
                return Err(e);
            },
        };
        let (base, cur2) = match SettingsBase::parse(cur1) {
            Ok(x) => x,
            Err(e) => {
                return Err(e);
            },
        };
        let (device_name, cur3) = match PhiString::parse(cur2.align()) {
            Ok(x) => x,
            Err(e) => {
                return Err(e);
            },
        };
        let (bright, cur4) = match cur3.read_u32() {
            Ok(x) => x,
            Err(e) => {
                return Err(e);
            },
        };
        let (music_volume, cur5) = match cur4.read_u32() {
            Ok(x) => x,
            Err(e) => {
                return Err(e);
            },
        };
        let (effect_volume, cur6) = match cur5.read_u32() {
            Ok(x) => x,
            Err(e) => {
                return Err(e);
            },
        };
        let (hit_sound_volume, cur7) = match cur6.read_u32() {
            Ok(x) => x,
            Err(e) => {
                return Err(e);
            },
        };
        let (sound_offset, cur8) = match cur7.read_u32() {
            Ok(x) => x,
            Err(e) => {
                return Err(e);
            },
        };
        let (note_scale, cur9) = match cur8.read_u32() {
            Ok(x) => x,
            Err(e) => {
                return Err(e);
            },
        };
        Ok(
            (
                Settings {
                    version,
                    base,
                    device_name,
                    bright,
                    music_volume,
                    effect_volume,
                    hit_sound_volume,
                    sound_offset,
                    note_scale,
                },
                cur9,
            ),
        )
    }

    #[verifier::rlimit(50)]
    fn build(&self, buf: &mut BitBuffer) -> (r: Result<(), CodecError>) {
        if !self.device_name.fits() {
            return Err(CodecError::ValueOutOfRange);
        }
        buf.write_u8(self.version);
        let _ = self.base.build(buf);
        buf.align();
        let _ = self.device_name.build(buf);
        buf.write_u32(self.bright);
        buf.write_u32(self.music_volume);
        buf.write_u32(self.effect_volume);
        buf.write_u32(self.hit_sound_volume);
        buf.write_u32(self.sound_offset);
        buf.write_u32(self.note_scale);
        Ok(())
    }

    #[verifier::rlimit(50)]
    proof fn lemma_parse_build(v: SettingsView, pre: Seq<bool>, bits: Seq<bool>) {
        let b1 = pre + le_bits(v.version as nat, 8);
        let b2 = SettingsBase::spec_build(v.base, b1);
        let b3 = PhiString::spec_build(v.device_name, pad8(b2));
        let b4 = b3 + le_bits(v.bright as nat, 32);
        let b5 = b4 + le_bits(v.music_volume as nat, 32);
        let b6 = b5 + le_bits(v.effect_volume as nat, 32);
        let b7 = b6 + le_bits(v.hit_sound_volume as nat, 32);
        let b8 = b7 + le_bits(v.sound_offset as nat, 32);
        lemma_take_u32_written(bits, b8, v.note_scale);
        lemma_take_u32_written(bits, b7, v.sound_offset);
        lemma_take_u32_written(bits, b6, v.hit_sound_volume);
        lemma_take_u32_written(bits, b5, v.effect_volume);
        lemma_take_u32_written(bits, b4, v.music_volume);
        lemma_take_u32_written(bits, b3, v.bright);
        PhiString::lemma_parse_build(v.device_name, pad8(b2), bits);
        lemma_begins_padded(bits, b2);
        SettingsBase::lemma_parse_build(v.base, b1, bits);
        lemma_take_u8_written(bits, pre, v.version);
    }

    #[verifier::rlimit(50)]
    proof fn lemma_parsed_valid(bits: Seq<bool>, pos: nat) {
        assert forall|p: nat| #![trigger PhiString::spec_parse(bits, p)] reads_valid::<PhiString>(bits, p) by {
            PhiString::lemma_parsed_valid(bits, p);
        }
    }
}

} // verus!
