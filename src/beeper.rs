use vstd::prelude::*;

verus! {

/// An intent for the audio backend.
#[derive(Clone, Copy, PartialEq, Eq, Structural, Debug)]
pub enum Message {
    /// Start the tone.
    Play,
    /// Silence the tone, keeping the backend alive.
    Pause,
    /// End the backend.
    Stop,
    /// Set the loudness, in percent of full scale.
    SetVolume(u8),
}

/// Loudness of a new beeper, in percent.
pub const DEFAULT_VOLUME_PERCENT: u8 = 5;

/// The emulator's side of the audio protocol: it tracks whether the tone is
/// sounding and queues intents, in order, for the host to hand to the backend.
/// Play and Pause are queued only on an actual change, so the tone is never
/// restarted while it sounds.
#[derive(Clone, Debug)]
pub struct Beeper {
    playing: bool,
    volume: u8,
    pending: Vec<Message>,
}

impl Beeper {
    /// Whether the tone sounds.
    pub closed spec fn playing(&self) -> bool {
        self.playing
    }

    /// Whether the tone sounds.
    pub fn is_playing(&self) -> (r: bool)
        ensures
            r == self.playing(),
    {
        self.playing
    }

    /// The loudness, in percent.
    pub closed spec fn volume_percent(&self) -> u8 {
        self.volume
    }

    /// The loudness, in percent.
    pub fn get_volume(&self) -> (r: u8)
        ensures
            r == self.volume_percent(),
    {
        self.volume
    }

    /// Change the loudness to `percent` of full scale and tell the backend.
    pub fn set_volume(&mut self, percent: u8)
        requires
            percent <= 100,
        ensures
            final(self).volume_percent() == percent,
            final(self).playing() == old(self).playing(),
            final(self).pending() == old(self).pending().push(Message::SetVolume(percent)),
    {
        self.volume = percent;
        self.pending.push(Message::SetVolume(percent));
    }

    /// Intents queued and not yet taken, oldest first.
    pub closed spec fn pending(&self) -> Seq<Message> {
        self.pending@
    }

    /// A silent beeper with nothing queued.
    pub fn new() -> (r: Beeper)
        ensures
            !r.playing(),
            r.volume_percent() == DEFAULT_VOLUME_PERCENT,
            r.pending() == Seq::<Message>::empty(),
    {
        Beeper { playing: false, volume: DEFAULT_VOLUME_PERCENT, pending: Vec::new() }
    }

    /// Start the tone, unless it already sounds.
    pub fn play(&mut self)
        ensures
            final(self).playing(),
            final(self).volume_percent() == old(self).volume_percent(),
            final(self).pending() == if old(self).playing() {
                old(self).pending()
            } else {
                old(self).pending().push(Message::Play)
            },
    {
        if !self.playing {
            self.pending.push(Message::Play);
            self.playing = true;
        }
    }

    /// Silence the tone, unless it is already silent.
    pub fn pause(&mut self)
        ensures
            !final(self).playing(),
            final(self).volume_percent() == old(self).volume_percent(),
            final(self).pending() == if old(self).playing() {
                old(self).pending().push(Message::Pause)
            } else {
                old(self).pending()
            },
    {
        if self.playing {
            self.pending.push(Message::Pause);
            self.playing = false;
        }
    }

    /// Tell the backend to end.
    pub fn stop(&mut self)
        ensures
            !final(self).playing(),
            final(self).volume_percent() == old(self).volume_percent(),
            final(self).pending() == old(self).pending().push(Message::Stop),
    {
        self.pending.push(Message::Stop);
        self.playing = false;
    }

    /// Hand over the queued intents, oldest first, and empty the queue.
    pub fn take_messages(&mut self) -> (r: Vec<Message>)
        ensures
            r@ == old(self).pending(),
            final(self).pending() == Seq::<Message>::empty(),
            final(self).playing() == old(self).playing(),
            final(self).volume_percent() == old(self).volume_percent(),
    {
        let mut taken: Vec<Message> = Vec::new();
        std::mem::swap(&mut taken, &mut self.pending);
        taken
    }
}

impl Default for Beeper {
    fn default() -> (r: Self)
        ensures
            !r.playing(),
            r.volume_percent() == DEFAULT_VOLUME_PERCENT,
            r.pending() == Seq::<Message>::empty(),
    {
        Beeper::new()
    }
}

} // verus!
