//! Routing of audio requests: each format has its own backend, and every
//! request is turned into the one backend call that serves it.

use vstd::prelude::*;

verus! {

/// The formats a sound can have.
#[derive(Clone, Copy, Debug, PartialEq, Eq, Structural)]
pub enum AudioFormat {
    OGG,
    MP3,
}

/// One call on one backend.
#[derive(Clone, Copy, Debug, PartialEq, Eq, Structural)]
pub enum AudioCommand {
    /// Start the sound on the OGG player.
    OggPlay,
    /// Hand the sound's buffer to the MP3 player.
    Mp3PlayBuffer,
    /// Stop the sound on the OGG player.
    OggStop,
    /// Stop the MP3 player, which plays one sound at a time.
    Mp3Stop,
    /// Set the volume of the OGG player.
    OggVolume(u32),
    /// Set the volume of the MP3 player.
    Mp3Volume(u32),
}

/// The one interface in front of the format-specific players.
#[derive(Clone, Copy, Debug, PartialEq, Eq, Structural)]
pub struct AudioPlayer {}

impl AudioPlayer {
    /// The player. It keeps no state of its own: what plays is known to
    /// the backends alone.
    pub fn new() -> (player: AudioPlayer)
        ensures
            player == (AudioPlayer {  }),
    {
        AudioPlayer {  }
    }

    /// The call that plays a sound of the given format.
    pub fn play(&self, format: AudioFormat) -> (command: AudioCommand)
        ensures
            format == AudioFormat::OGG ==> command == AudioCommand::OggPlay,
            format == AudioFormat::MP3 ==> command == AudioCommand::Mp3PlayBuffer,
    {
        match format {
            AudioFormat::OGG => AudioCommand::OggPlay,
            AudioFormat::MP3 => AudioCommand::Mp3PlayBuffer,
        }
    }

    /// The call that stops a sound of the given format. The MP3 player does
    /// not mix, so stopping an MP3 sound stops the player.
    pub fn stop(&self, format: AudioFormat) -> (command: AudioCommand)
        ensures
            format == AudioFormat::OGG ==> command == AudioCommand::OggStop,
            format == AudioFormat::MP3 ==> command == AudioCommand::Mp3Stop,
    {
        match format {
            AudioFormat::OGG => AudioCommand::OggStop,
            AudioFormat::MP3 => AudioCommand::Mp3Stop,
        }
    }

    /// The calls that set the global volume: one for each backend, the OGG
    /// player first.
    pub fn set_volume(&self, volume: u32) -> (commands: [AudioCommand; 2])
        ensures
            commands@ == seq![AudioCommand::OggVolume(volume), AudioCommand::Mp3Volume(volume)],
    {
        [AudioCommand::OggVolume(volume), AudioCommand::Mp3Volume(volume)]
    }
}

} // verus!
