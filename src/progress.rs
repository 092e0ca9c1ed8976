//! When a run ends and when its progress line is redrawn. Time enters as
//! milliseconds elapsed since the bar was made, measured by the caller.
use vstd::prelude::*;

verus! {

/// Redraws closer together than this are skipped, in milliseconds.
pub const UPDATE_INTERVAL_MS: u64 = 100;

/// Default width of the bar, in cells.
pub const DEFAULT_WIDTH: usize = 50;

/// What ends a run.
#[derive(Debug, Clone, Copy, PartialEq, Eq, Structural)]
pub enum ProgressMode {
    /// A number of ticks.
    Iterations(usize),
    /// A span of time, in milliseconds.
    Duration(u64),
}

/// Progress through a run, and when to redraw it.
#[derive(Debug, Clone, Copy)]
pub struct ProgressBar {
    pub mode: ProgressMode,
    pub current: usize,
    pub width: usize,
    pub last_update_ms: u64,
    pub displayed: bool,
}

/// Whether a run in `mode` is over after `current` ticks and `elapsed_ms`.
pub open spec fn finished(mode: ProgressMode, current: usize, elapsed_ms: u64) -> bool {
    match mode {
        ProgressMode::Iterations(total) => current >= total,
        ProgressMode::Duration(d) => elapsed_ms >= d,
    }
}

/// Whether a tick at `elapsed_ms` that leaves `current` ticks done refreshes
/// the bar: enough time since the last refresh, or the run is over.
pub open spec fn refreshes(b: ProgressBar, current: usize, elapsed_ms: u64) -> bool {
    (if elapsed_ms >= b.last_update_ms {
        elapsed_ms - b.last_update_ms
    } else {
        0
    }) >= UPDATE_INTERVAL_MS || finished(b.mode, current, elapsed_ms)
}

/// One step of a run.
#[derive(Debug, Clone, Copy, PartialEq, Eq, Structural)]
pub enum ProgressStep {
    /// Tick number `index` (from 1) runs; `draw` says whether to redraw.
    Tick { index: usize, draw: bool },
    /// The run is over; `draw` says whether to draw the final line, which
    /// happens once, and only for a displayed bar.
    Done { draw: bool },
}

impl ProgressBar {
    /// A bar for a run of `total` ticks.
    pub fn from_iterations(total: usize) -> (r: Self)
        ensures
            r == Self::fresh(ProgressMode::Iterations(total)),
    {
        Self::new(ProgressMode::Iterations(total))
    }

    /// A bar for a run of `duration_ms` milliseconds.
    pub fn from_duration(duration_ms: u64) -> (r: Self)
        ensures
            r == Self::fresh(ProgressMode::Duration(duration_ms)),
    {
        Self::new(ProgressMode::Duration(duration_ms))
    }

    /// A new bar: nothing done, default width, hidden.
    pub open spec fn fresh(mode: ProgressMode) -> ProgressBar {
        ProgressBar { mode, current: 0, width: DEFAULT_WIDTH, last_update_ms: 0, displayed: false }
    }

    fn new(mode: ProgressMode) -> (r: Self)
        ensures
            r == Self::fresh(mode),
    {
        ProgressBar { mode, current: 0, width: DEFAULT_WIDTH, last_update_ms: 0, displayed: false }
    }

    /// The same bar with `width` cells.
    pub fn with_width(self, width: usize) -> (r: Self)
        ensures
            r == (ProgressBar { width, ..self }),
    {
        ProgressBar { width, ..self }
    }

    /// Shows or hides the bar.
    pub fn display(&mut self, display: bool)
        ensures
            *final(self) == (ProgressBar { displayed: display, ..*old(self) }),
    {
        self.displayed = display;
    }

    /// Counts one more tick at `elapsed_ms`; says whether to redraw, which
    /// only a displayed bar does.
    pub fn update(&mut self, elapsed_ms: u64) -> (draw: bool)
        requires
            old(self).current < usize::MAX,
        ensures
            final(self).current == old(self).current + 1,
            final(self).mode == old(self).mode,
            final(self).width == old(self).width,
            final(self).displayed == old(self).displayed,
            final(self).last_update_ms == if refreshes(*old(self), final(self).current, elapsed_ms) {
                elapsed_ms
            } else {
                old(self).last_update_ms
            },
            draw == (old(self).displayed && refreshes(*old(self), final(self).current, elapsed_ms)),
    {
        self.current = self.current + 1;
        let since = elapsed_ms.saturating_sub(self.last_update_ms);
        if since >= UPDATE_INTERVAL_MS || self.is_finished(elapsed_ms) {
            self.last_update_ms = elapsed_ms;
            self.displayed
        } else {
            false
        }
    }

    /// Whether the run is over at `elapsed_ms`.
    pub fn is_finished(&self, elapsed_ms: u64) -> (r: bool)
        ensures
            r == finished(self.mode, self.current, elapsed_ms),
    {
        match self.mode {
            ProgressMode::Iterations(total) => self.current >= total,
            ProgressMode::Duration(duration) => elapsed_ms >= duration,
        }
    }

    /// Whether the final line is drawn.
    pub fn finish(&self) -> (r: bool)
        ensures
            r == self.displayed,
    {
        self.displayed
    }

    /// The next tick at `elapsed_ms`, or `None` when the run is over; the
    /// flag says whether to redraw.
    pub fn next(&mut self, elapsed_ms: u64) -> (r: Option<(usize, bool)>)
        requires
            old(self).current < usize::MAX,
        ensures
            finished(old(self).mode, old(self).current, elapsed_ms) ==> r is None && *final(self)
                == *old(self),
            !finished(old(self).mode, old(self).current, elapsed_ms) ==> r == Some(
                (
                    final(self).current,
                    old(self).displayed && refreshes(*old(self), final(self).current, elapsed_ms),
                ),
            ) && final(self).current == old(self).current + 1,
    {
        if self.is_finished(elapsed_ms) {
            None
        } else {
            let draw = self.update(elapsed_ms);
            Some((self.current, draw))
        }
    }

    /// Steps of the run, ending with one final line.
    pub fn iter(self) -> (r: ProgressBarIterator)
        ensures
            r.bar == self,
            !r.finish_shown,
    {
        ProgressBarIterator { bar: self, finish_shown: false }
    }
}

/// Walks a run tick by tick, and reports its end once.
#[derive(Debug, Clone, Copy)]
pub struct ProgressBarIterator {
    pub bar: ProgressBar,
    pub finish_shown: bool,
}

impl ProgressBarIterator {
    /// The next step at `elapsed_ms`.
    pub fn next(&mut self, elapsed_ms: u64) -> (r: ProgressStep)
        requires
            old(self).bar.current < usize::MAX,
        ensures
            finished(old(self).bar.mode, old(self).bar.current, elapsed_ms) ==> r == (
            ProgressStep::Done {
                draw: !old(self).finish_shown && old(self).bar.displayed,
            }) && final(self).bar == old(self).bar && final(self).finish_shown,
            !finished(old(self).bar.mode, old(self).bar.current, elapsed_ms) ==> r == (
            ProgressStep::Tick {
                index: final(self).bar.current,
                draw: old(self).bar.displayed && refreshes(
                    old(self).bar,
                    final(self).bar.current,
                    elapsed_ms,
                ),
            }) && final(self).bar.current == old(self).bar.current + 1
                && final(self).finish_shown == old(self).finish_shown,
    {
        match self.bar.next(elapsed_ms) {
            Some((index, draw)) => ProgressStep::Tick { index, draw },
            None => {
                let first = !self.finish_shown;
                self.finish_shown = true;
                ProgressStep::Done { draw: first && self.bar.finish() }
            },
        }
    }
}

} // verus!
