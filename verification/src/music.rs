//! Which track plays, and whether it is muted or paused.
//!
//! Nothing here makes a sound. Each operation changes the state and queues the
//! commands that a player of sound has to carry out, in their order.

use vstd::prelude::*;

verus! {

/// Number of tracks that can be played.
pub const MUSIC_TRACKS: u32 = 3;

/// One thing for the player of sound to do.
#[derive(Clone, Copy, Debug, PartialEq, Eq, Structural)]
pub enum MusicCommand {
    /// Drop everything that is queued for playing.
    Clear,
    /// Queue the track with this number, to repeat without end.
    Append(u32),
    /// Set the volume to half.
    VolumeHalf,
    /// Set the volume to nothing.
    VolumeZero,
    /// Go on playing.
    Play,
    /// Stop playing until told to go on.
    Pause,
}

/// The state of the music.
#[derive(Debug)]
pub struct MusicManager {
    /// The number of the track that starts next; always below `MUSIC_TRACKS`.
    pub mus_track: u32,
    pub muted: bool,
    pub paused: bool,
    /// The commands that wait to be carried out, oldest first.
    pub commands: Vec<MusicCommand>,
}

/// The state of the music, as the rules see it.
pub struct MusicView {
    pub track: nat,
    pub muted: bool,
    pub paused: bool,
    pub commands: Seq<MusicCommand>,
}

impl MusicView {
    /// The number of the next track names a track.
    pub open spec fn wf(self) -> bool {
        self.track < MUSIC_TRACKS
    }

    /// Silent, at the first track, with nothing to carry out.
    pub open spec fn initial() -> MusicView {
        MusicView { track: 0, muted: false, paused: false, commands: Seq::empty() }
    }

    /// The track whose turn it is. A number that names no track counts
    /// round from the first.
    pub open spec fn current(self) -> nat {
        self.track % (MUSIC_TRACKS as nat)
    }

    /// Starts the track whose turn it is, at half volume, and gives the turn
    /// to the track after it; after the last track comes the first.
    pub open spec fn play_song(self) -> MusicView {
        MusicView {
            track: (self.current() + 1) % (MUSIC_TRACKS as nat),
            commands: self.commands + seq![
                MusicCommand::Clear,
                MusicCommand::Append(self.current() as u32),
                MusicCommand::VolumeHalf,
                MusicCommand::Play,
            ],
            ..self
        }
    }

    /// Silences the music, or gives it its voice back when it was silenced.
    pub open spec fn mute(self) -> MusicView {
        MusicView {
            muted: !self.muted,
            commands: self.commands.push(
                if self.muted {
                    MusicCommand::VolumeHalf
                } else {
                    MusicCommand::VolumeZero
                },
            ),
            ..self
        }
    }

    /// Halts the music, or lets it go on when it was halted.
    pub open spec fn pause(self) -> MusicView {
        MusicView {
            paused: !self.paused,
            commands: self.commands.push(
                if self.paused {
                    MusicCommand::Play
                } else {
                    MusicCommand::Pause
                },
            ),
            ..self
        }
    }

    /// Stops all tracks and goes back to the first.
    pub open spec fn reset(self) -> MusicView {
        MusicView { track: 0, commands: self.commands.push(MusicCommand::Clear), ..self }
    }

    /// The state with the track `track` next.
    pub open spec fn with_track(self, track: nat) -> MusicView {
        MusicView { track, ..self }
    }

    /// The state with nothing left to carry out.
    pub open spec fn drained(self) -> MusicView {
        MusicView { commands: Seq::empty(), ..self }
    }
}

impl View for MusicManager {
    type V = MusicView;

    open spec fn view(&self) -> MusicView {
        MusicView {
            track: self.mus_track as nat,
            muted: self.muted,
            paused: self.paused,
            commands: self.commands@,
        }
    }
}

impl MusicManager {
    /// The number of the next track names a track.
    pub open spec fn wf(&self) -> bool {
        self@.wf()
    }

    /// Tests whether the number of the next track names a track.
    pub fn is_well_formed(&self) -> (r: bool)
        ensures
            r == self.wf(),
    {
        self.mus_track < MUSIC_TRACKS
    }

    /// The music as it is before anything was played: at the first track,
    /// neither muted nor paused.
    pub fn new() -> (m: MusicManager)
        ensures
            m@ == MusicView::initial(),
            m.wf(),
    {
        MusicManager { mus_track: 0, muted: false, paused: false, commands: Vec::new() }
    }

    /// Starts the track whose turn it is and gives the turn to the next.
    pub fn play_song(&mut self)
        ensures
            final(self)@ == old(self)@.play_song(),
            final(self).wf(),
    {
        let track: u32 = self.mus_track % MUSIC_TRACKS;
        self.commands.push(MusicCommand::Clear);
        self.commands.push(MusicCommand::Append(track));
        self.commands.push(MusicCommand::VolumeHalf);
        self.commands.push(MusicCommand::Play);
        self.mus_track = (track + 1) % MUSIC_TRACKS;
        assert(self@.commands =~= old(self)@.play_song().commands);
    }

    /// Silences the music, or gives it its voice back when it was silenced.
    pub fn mute(&mut self)
        ensures
            final(self)@ == old(self)@.mute(),
    {
        if self.muted {
            self.commands.push(MusicCommand::VolumeHalf);
        } else {
            self.commands.push(MusicCommand::VolumeZero);
        }
        self.muted = !self.muted;
    }

    /// Halts the music, or lets it go on when it was halted.
    pub fn pause(&mut self)
        ensures
            final(self)@ == old(self)@.pause(),
    {
        if self.paused {
            self.commands.push(MusicCommand::Play);
        } else {
            self.commands.push(MusicCommand::Pause);
        }
        self.paused = !self.paused;
    }

    /// Stops all tracks and goes back to the first.
    pub fn reset(&mut self)
        ensures
            final(self)@ == old(self)@.reset(),
            final(self).wf(),
    {
        self.commands.push(MusicCommand::Clear);
        self.mus_track = 0;
    }

    /// Makes `track` the track that starts next. A number that names no
    /// track counts round from the first.
    pub fn select_track(&mut self, track: usize)
        ensures
            final(self)@ == old(self)@.with_track((track % (MUSIC_TRACKS as usize)) as nat),
            final(self).wf(),
    {
        self.mus_track = (track % (MUSIC_TRACKS as usize)) as u32;
    }

    /// Hands out the commands that wait, oldest first, and forgets them.
    pub fn take_commands(&mut self) -> (commands: Vec<MusicCommand>)
        ensures
            commands@ == old(self)@.commands,
            final(self)@ == old(self)@.drained(),
    {
        let mut commands: Vec<MusicCommand> = Vec::new();
        commands.append(&mut self.commands);
        assert(commands@ =~= old(self)@.commands);
        commands
    }
}

} // verus!
