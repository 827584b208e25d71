pub mod audio;
pub mod binary32;
pub mod ble_midi;
pub mod bytes;
pub mod cc_map;
pub mod factory;
pub mod flash_diag;
pub mod midi;
pub mod midi_control;
pub mod midictl;
pub mod note_stack;
pub mod presets;
pub mod psram;
pub mod psram_delay;
pub mod scaling;
pub mod shell;
pub mod storage;
pub mod sysex;
pub mod system_info;
pub mod text;
pub mod uac1;
pub mod voice;
