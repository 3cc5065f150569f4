use super::field::{Settings, SettingsBase};
use crate::phi_base::PhiString;
use vstd::prelude::*;
use vstd::std_specs::convert::FromSpecImpl;

verus! {

/// The switches of the settings in canonical form.
#[derive(Clone, Copy, Debug, PartialEq, Eq)]
pub struct SerializableSettingsBase {
    pub chord_support: bool,
    pub fc_ap_indicator: bool,
    pub enable_hit_sound: bool,
    pub low_resolution_mode: bool,
}

/// The settings in canonical form: the same fields, the device name bare. The six sliders
/// hold the bits of IEEE 754 single-precision numbers.
#[derive(Debug, PartialEq, Eq)]
pub struct SerializableSettings {
    pub version: u8,
    pub base: SerializableSettingsBase,
    pub device_name: String,
    pub bright: u32,
    pub music_volume: u32,
    pub effect_volume: u32,
    pub hit_sound_volume: u32,
    pub sound_offset: u32,
    pub note_scale: u32,
}

impl SerializableSettingsBase {
    /// The canonical form of a record.
    pub open spec fn of_raw(s: SettingsBase) -> SerializableSettingsBase {
        SerializableSettingsBase {
            chord_support: s.chord_support,
            fc_ap_indicator: s.fc_ap_indicator,
            enable_hit_sound: s.enable_hit_sound,
            low_resolution_mode: s.low_resolution_mode,
        }
    }

    /// The record that the canonical form stands for.
    pub open spec fn raw(self) -> SettingsBase {
        SettingsBase {
            chord_support: self.chord_support,
            fc_ap_indicator: self.fc_ap_indicator,
            enable_hit_sound: self.enable_hit_sound,
            low_resolution_mode: self.low_resolution_mode,
        }
    }
}

impl From<SettingsBase> for SerializableSettingsBase {
    fn from(s: SettingsBase) -> (c: SerializableSettingsBase)
        ensures
            c == SerializableSettingsBase::of_raw(s),
    {
        SerializableSettingsBase {
            chord_support: s.chord_support,
            fc_ap_indicator: s.fc_ap_indicator,
            enable_hit_sound: s.enable_hit_sound,
            low_resolution_mode: s.low_resolution_mode,
        }
    }
}

impl FromSpecImpl<SettingsBase> for SerializableSettingsBase {
    open spec fn obeys_from_spec() -> bool {
        true
    }

    open spec fn from_spec(s: SettingsBase) -> SerializableSettingsBase {
        SerializableSettingsBase::of_raw(s)
    }
}

impl From<SerializableSettingsBase> for SettingsBase {
    fn from(s: SerializableSettingsBase) -> (raw: SettingsBase)
        ensures
            raw == s.raw(),
    {
        SettingsBase {
            chord_support: s.chord_support,
            fc_ap_indicator: s.fc_ap_indicator,
            enable_hit_sound: s.enable_hit_sound,
            low_resolution_mode: s.low_resolution_mode,
        }
    }
}

impl FromSpecImpl<SerializableSettingsBase> for SettingsBase {
    open spec fn obeys_from_spec() -> bool {
        true
    }

    open spec fn from_spec(s: SerializableSettingsBase) -> SettingsBase {
        s.raw()
    }
}

impl SerializableSettings {
    /// The canonical form of a record.
    pub open spec fn of_raw(s: Settings) -> SerializableSettings {
        SerializableSettings {
            version: s.version,
            base: SerializableSettingsBase::of_raw(s.base),
            device_name: s.device_name.0,
            bright: s.bright,
            music_volume: s.music_volume,
            effect_volume: s.effect_volume,
            hit_sound_volume: s.hit_sound_volume,
            sound_offset: s.sound_offset,
            note_scale: s.note_scale,
        }
    }

    /// The record that the canonical form stands for.
    pub open spec fn raw(self) -> Settings {
        Settings {
            version: self.version,
            base: self.base.raw(),
            device_name: PhiString(self.device_name),
            bright: self.bright,
            music_volume: self.music_volume,
            effect_volume: self.effect_volume,
            hit_sound_volume: self.hit_sound_volume,
            sound_offset: self.sound_offset,
            note_scale: self.note_scale,
        }
    }
}

impl From<Settings> for SerializableSettings {
    fn from(s: Settings) -> (c: SerializableSettings)
        ensures
            c == SerializableSettings::of_raw(s),
    {
        SerializableSettings {
            version: s.version,
            base: SerializableSettingsBase::from(s.base),
            device_name: s.device_name.0,
            bright: s.bright,
            music_volume: s.music_volume,
            effect_volume: s.effect_volume,
            hit_sound_volume: s.hit_sound_volume,
            sound_offset: s.sound_offset,
            note_scale: s.note_scale,
        }
    }
}

impl FromSpecImpl<Settings> for SerializableSettings {
    open spec fn obeys_from_spec() -> bool {
        true
    }

    open spec fn from_spec(s: Settings) -> SerializableSettings {
        SerializableSettings::of_raw(s)
    }
}

impl From<SerializableSettings> for Settings {
    fn from(s: SerializableSettings) -> (raw: Settings)
        ensures
            raw == s.raw(),
    {
        Settings {
            version: s.version,
            base: SettingsBase::from(s.base),
            device_name: PhiString(s.device_name),
            bright: s.bright,
            music_volume: s.music_volume,
            effect_volume: s.effect_volume,
            hit_sound_volume: s.hit_sound_volume,
            sound_offset: s.sound_offset,
            note_scale: s.note_scale,
        }
    }
}

impl FromSpecImpl<SerializableSettings> for Settings {
    open spec fn obeys_from_spec() -> bool {
        true
    }

    open spec fn from_spec(s: SerializableSettings) -> Settings {
        s.raw()
    }
}

/// The canonical form and back is the record itself, and the other way round.
pub proof fn lemma_settings_there_and_back(raw: Settings, c: SerializableSettings)
    ensures
        SerializableSettings::of_raw(raw).raw() == raw,
        SerializableSettings::of_raw(c.raw()) == c,
{
}

} // verus!
