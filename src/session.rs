use vstd::prelude::*;

verus! {

/// What the front end is doing with the current file: whether a processing
/// run is in flight, whether the preview is playing, and how many samples the
/// last finished run left for preview and export.
#[derive(Clone, Copy, Debug, PartialEq, Eq, Structural)]
pub struct Session {
    pub processing: bool,
    pub playing: bool,
    pub preview_len: usize,
}

impl Session {
    /// Nothing is playing or being processed while a run is in flight.
    pub open spec fn wf(self) -> bool {
        self.processing ==> !self.playing
    }

    /// A fresh session: idle, silent, with no preview.
    pub fn new() -> (r: Session)
        ensures
            r.wf(),
            !r.processing,
            !r.playing,
            r.preview_len == 0,
    {
        Session { processing: false, playing: false, preview_len: 0 }
    }

    /// A run may start when a file is chosen and no run is in flight.
    pub fn can_process(&self, has_file: bool) -> (r: bool)
        ensures
            r == (has_file && !self.processing),
    {
        has_file && !self.processing
    }

    /// Starts a run. Returns whether the preview was playing and has to be
    /// stopped before the run begins.
    pub fn begin_processing(&mut self) -> (stop_playback: bool)
        requires
            !old(self).processing,
        ensures
            stop_playback == old(self).playing,
            final(self).processing,
            !final(self).playing,
            final(self).preview_len == old(self).preview_len,
            final(self).wf(),
    {
        let was_playing = self.playing;
        self.playing = false;
        self.processing = true;
        was_playing
    }

    /// Ends the run in flight. A run that produced `Some(len)` samples
    /// replaces the preview; a failed run (`None`) leaves the old one.
    pub fn finish_processing(&mut self, produced: Option<usize>)
        requires
            old(self).wf(),
        ensures
            !final(self).processing,
            final(self).playing == old(self).playing,
            final(self).preview_len == match produced {
                Some(n) => n,
                None => old(self).preview_len,
            },
            final(self).wf(),
    {
        self.processing = false;
        if let Some(n) = produced {
            self.preview_len = n;
        }
    }

    /// The preview can be played when no run is in flight, it is not already
    /// playing, and the last run left samples.
    pub fn can_play(&self) -> (r: bool)
        ensures
            r == (!self.processing && !self.playing && self.preview_len > 0),
    {
        !self.processing && !self.playing && self.preview_len > 0
    }

    /// Records that playback of the preview has started.
    pub fn start_playing(&mut self)
        requires
            !old(self).processing,
        ensures
            final(self).playing,
            final(self).processing == old(self).processing,
            final(self).preview_len == old(self).preview_len,
            final(self).wf(),
    {
        self.playing = true;
    }

    /// Records that playback has stopped; stopping is always allowed.
    pub fn stop_playing(&mut self)
        requires
            old(self).wf(),
        ensures
            !final(self).playing,
            final(self).processing == old(self).processing,
            final(self).preview_len == old(self).preview_len,
            final(self).wf(),
    {
        self.playing = false;
    }
}

} // verus!
