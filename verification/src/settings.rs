//! The user's timer settings and how the settings form changes them.

use vstd::prelude::*;

use crate::input::parsed_u32;
use crate::input::parse_u32;
use crate::session::PhaseKind;

verus! {

/// The user's preferences, as far as the timer logic reads them. (The beep
/// volume, a fraction, is kept beside these by the user interface.)
#[derive(Clone, Copy, Debug, PartialEq, Eq, Structural)]
pub struct Settings {
    pub work_minutes: u32,
    pub break_minutes: u32,
    pub auto_start_next: bool,
    /// The task that new Work sessions are attributed to.
    pub selected_task_id: Option<u64>,
}

/// The longest Work phase that can be set, in minutes.
pub const MAX_WORK_MINUTES: u32 = 120;

/// The longest Break phase that can be set, in minutes.
pub const MAX_BREAK_MINUTES: u32 = 60;

/// `v` held within `[lo, hi]`.
pub open spec fn clamped(v: u32, lo: u32, hi: u32) -> u32 {
    if v < lo { lo } else if v > hi { hi } else { v }
}

impl Settings {
    /// The configured minutes of a phase.
    pub open spec fn minutes_of(self, pk: PhaseKind) -> int {
        match pk {
            PhaseKind::Work => self.work_minutes as int,
            PhaseKind::Break => self.break_minutes as int,
        }
    }

    /// The length of a phase in seconds fits in a `u32`.
    pub open spec fn fits(self, pk: PhaseKind) -> bool {
        self.minutes_of(pk) * 60 <= u32::MAX
    }

    /// Whether `duration_secs(pk)` can be computed without overflow.
    pub fn fits_secs(&self, pk: PhaseKind) -> (b: bool)
        ensures
            b == self.fits(pk),
    {
        match pk {
            PhaseKind::Work => self.work_minutes as u64 * 60 <= u32::MAX as u64,
            PhaseKind::Break => self.break_minutes as u64 * 60 <= u32::MAX as u64,
        }
    }

    /// The length of a phase in seconds.
    pub fn duration_secs(&self, pk: PhaseKind) -> (s: u32)
        requires
            self.fits(pk),
        ensures
            s == self.minutes_of(pk) * 60,
    {
        match pk {
            PhaseKind::Work => self.work_minutes * 60,
            PhaseKind::Break => self.break_minutes * 60,
        }
    }

    /// The settings with a new Work length, held between 1 and 120 minutes.
    pub fn with_work_minutes(self, minutes: u32) -> (s: Settings)
        ensures
            s == (Settings { work_minutes: clamped(minutes, 1, MAX_WORK_MINUTES), ..self }),
    {
        let m = if minutes < 1 {
            1
        } else if minutes > MAX_WORK_MINUTES {
            MAX_WORK_MINUTES
        } else {
            minutes
        };
        Settings { work_minutes: m, ..self }
    }

    /// The settings with a new Break length, held between 1 and 60 minutes.
    pub fn with_break_minutes(self, minutes: u32) -> (s: Settings)
        ensures
            s == (Settings { break_minutes: clamped(minutes, 1, MAX_BREAK_MINUTES), ..self }),
    {
        let m = if minutes < 1 {
            1
        } else if minutes > MAX_BREAK_MINUTES {
            MAX_BREAK_MINUTES
        } else {
            minutes
        };
        Settings { break_minutes: m, ..self }
    }

    /// The Work length typed into the settings form: `None` (no change) when
    /// the text is not a number, else the settings with it, held in range.
    pub fn with_work_minutes_text(self, text: &str) -> (s: Option<Settings>)
        ensures
            s == (match parsed_u32(text@) {
                Some(v) => Some(Settings { work_minutes: clamped(v, 1, MAX_WORK_MINUTES), ..self }),
                None => None::<Settings>,
            }),
    {
        match parse_u32(text) {
            Some(v) => Some(self.with_work_minutes(v)),
            None => None,
        }
    }

    /// The Break length typed into the settings form, as for Work.
    pub fn with_break_minutes_text(self, text: &str) -> (s: Option<Settings>)
        ensures
            s == (match parsed_u32(text@) {
                Some(v) => Some(Settings { break_minutes: clamped(v, 1, MAX_BREAK_MINUTES), ..self }),
                None => None::<Settings>,
            }),
    {
        match parse_u32(text) {
            Some(v) => Some(self.with_break_minutes(v)),
            None => None,
        }
    }

    pub fn with_auto_start_next(self, on: bool) -> (s: Settings)
        ensures
            s == (Settings { auto_start_next: on, ..self }),
    {
        Settings { auto_start_next: on, ..self }
    }

    pub fn with_selected_task(self, task_id: Option<u64>) -> (s: Settings)
        ensures
            s == (Settings { selected_task_id: task_id, ..self }),
    {
        Settings { selected_task_id: task_id, ..self }
    }
}

/// Settings changed through the form always give phase lengths whose seconds
/// fit in a `u32`.
pub proof fn lemma_form_lengths_fit(s: Settings, v: u32)
    ensures
        (Settings { work_minutes: clamped(v, 1, MAX_WORK_MINUTES), ..s }).fits(PhaseKind::Work),
        (Settings { break_minutes: clamped(v, 1, MAX_BREAK_MINUTES), ..s }).fits(PhaseKind::Break),
        1 <= clamped(v, 1, MAX_WORK_MINUTES) <= MAX_WORK_MINUTES,
        1 <= clamped(v, 1, MAX_BREAK_MINUTES) <= MAX_BREAK_MINUTES,
{
}

impl Default for Settings {
    /// 25 minutes of work, 5 of break, no auto-start and no task.
    fn default() -> (s: Settings)
        ensures
            s == (Settings {
                work_minutes: 25,
                break_minutes: 5,
                auto_start_next: false,
                selected_task_id: None,
            }),
    {
        Settings { work_minutes: 25, break_minutes: 5, auto_start_next: false, selected_task_id: None }
    }
}

/// Phase lengths: Work and Break minutes, at most 120 and 60 from the form;
/// a length can be computed when its seconds fit in a `u32`.
pub proof fn lemma_settings_fields(s: Settings)
    ensures
        MAX_WORK_MINUTES == 120,
        MAX_BREAK_MINUTES == 60,
        s.minutes_of(PhaseKind::Work) == s.work_minutes,
        s.minutes_of(PhaseKind::Break) == s.break_minutes,
        s.fits(PhaseKind::Work) == (s.work_minutes * 60 <= u32::MAX),
        s.fits(PhaseKind::Break) == (s.break_minutes * 60 <= u32::MAX),
{
}

/// Holding `v` in `[lo, hi]` (with `lo <= hi`) gives `lo` below the range,
/// `hi` above it and `v` itself within it.
pub proof fn lemma_clamped(v: u32, lo: u32, hi: u32)
    requires
        lo <= hi,
    ensures
        lo <= clamped(v, lo, hi) <= hi,
        v < lo ==> clamped(v, lo, hi) == lo,
        v > hi ==> clamped(v, lo, hi) == hi,
        lo <= v <= hi ==> clamped(v, lo, hi) == v,
{
}

} // verus!
