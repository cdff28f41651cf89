//! What playback needs to know of a loaded track snapshot: the processor
//! registers at the moment of capture and the descriptive tag, if any.
use vstd::prelude::*;

verus! {

/// The tool that captured a snapshot, as far as its tag says.
#[derive(Clone, Copy, Debug, PartialEq, Eq, Structural)]
pub enum Emulator {
    Unknown,
    ZSnes,
    Snes9x,
}

/// The descriptive tag of a snapshot.
#[derive(Clone, Debug)]
pub struct Id666Tag {
    pub song_title: String,
    pub game_title: String,
    pub dumper_name: String,
    pub comments: String,
    pub date_dumped: String,
    pub seconds_to_play_before_fading_out: i32,
    pub fade_out_length: i32,
    pub artist_name: String,
    pub default_channel_disables: u8,
    pub dumping_emulator: Emulator,
}

/// A track snapshot, without the memory image that only the synthesizer
/// reads.
#[derive(Clone, Debug)]
pub struct TrackSnapshot {
    pub version_minor: u8,
    pub pc: u16,
    pub a: u8,
    pub x: u8,
    pub y: u8,
    pub psw: u8,
    pub sp: u8,
    pub id666_tag: Option<Id666Tag>,
}

/// The name under which a capture tool is shown.
pub open spec fn emulator_name(emulator: Emulator) -> Seq<char> {
    match emulator {
        Emulator::Unknown => "Unknown"@,
        Emulator::ZSnes => "ZSnes"@,
        Emulator::Snes9x => "Snes9x"@,
    }
}

impl Emulator {
    /// The name under which the tool is shown.
    pub fn name(&self) -> (name: &'static str)
        ensures
            name@ == emulator_name(*self),
    {
        match self {
            Emulator::Unknown => "Unknown",
            Emulator::ZSnes => "ZSnes",
            Emulator::Snes9x => "Snes9x",
        }
    }
}

} // verus!
