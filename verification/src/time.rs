//! The time window of a report, in whole seconds since the Unix epoch.

use vstd::prelude::*;

verus! {

/// Whether the calendar has a date and time for this number of seconds
/// since the Unix epoch, as `chrono` sees it.
pub uninterp spec fn on_calendar(seconds: i64) -> bool;

/// Calls `chrono::DateTime::from_timestamp` with no nanoseconds and says
/// whether it gave a date and time. The contract only gives the answer its
/// name.
#[verifier::external_body]
fn calendar_has(seconds: i64) -> (known: bool)
    ensures
        known == on_calendar(seconds),
{
    chrono::DateTime::from_timestamp(seconds, 0).is_some()
}

/// Why a time window could not be made.
#[derive(Debug, Clone, Copy, PartialEq, Eq, Structural)]
pub enum WindowError {
    /// The run ended before it started.
    EndsBeforeStart,
    /// The start or the end is not on the calendar.
    OffCalendar,
}

/// The start and the end of a run. The end is never before the start, and
/// both are on the calendar.
#[derive(Debug, Clone, Copy, PartialEq, Eq, Structural)]
pub struct TimeWindow {
    start: i64,
    end: i64,
}

/// The start of the window of a run: the backdate where one is given, else
/// the time at which the run started.
pub open spec fn window_start(started: i64, backdate: Option<i64>) -> int {
    match backdate {
        Some(backdate) => backdate as int,
        None => started as int,
    }
}

/// The end of the window of a run: as long after the start of the window as
/// the run took.
pub open spec fn window_end(started: i64, finished: i64, backdate: Option<i64>) -> int {
    window_start(started, backdate) + (finished - started)
}

/// Whether `seconds` is a number of seconds that the calendar has.
pub open spec fn dated(seconds: int) -> bool {
    i64::MIN <= seconds <= i64::MAX && on_calendar(seconds as i64)
}

impl TimeWindow {
    #[verifier::type_invariant]
    spec fn well_formed(self) -> bool {
        self.start <= self.end && on_calendar(self.start) && on_calendar(self.end)
    }

    /// When the window starts.
    pub closed spec fn start(self) -> i64 {
        self.start
    }

    /// When the window ends.
    pub closed spec fn end(self) -> i64 {
        self.end
    }

    /// The start and the end of the window of a run that started and
    /// finished at the given times, before they are looked up in the
    /// calendar. A backdate moves the window so that it starts there, and
    /// keeps its length.
    pub fn shifted(started: i64, finished: i64, backdate: Option<i64>) -> (ends: Result<
        (i64, i64),
        WindowError,
    >)
        ensures
            ends is Ok <==> started <= finished && window_end(started, finished, backdate)
                <= i64::MAX,
            ends matches Ok(ends) ==> ends.0 == window_start(started, backdate) && ends.1
                == window_end(started, finished, backdate),
            ends matches Err(error) ==> (error is EndsBeforeStart <==> finished < started),
    {
        if finished < started {
            return Err(WindowError::EndsBeforeStart);
        }
        match backdate {
            Some(backdate) => {
                let elapsed: i128 = finished as i128 - started as i128;
                let moved: i128 = backdate as i128 + elapsed;
                if moved > i64::MAX as i128 {
                    return Err(WindowError::OffCalendar);
                }
                Ok((backdate, moved as i64))
            },
            None => Ok((started, finished)),
        }
    }

    /// The window of a run that started and finished at the given times. A
    /// backdate moves the window so that it starts there, and keeps its
    /// length.
    pub fn measured(started: i64, finished: i64, backdate: Option<i64>) -> (window: Result<
        TimeWindow,
        WindowError,
    >)
        ensures
            window is Ok <==> started <= finished && dated(window_start(started, backdate))
                && dated(window_end(started, finished, backdate)),
            window matches Ok(w) ==> w.start() == window_start(started, backdate) && w.end()
                == window_end(started, finished, backdate),
            window matches Err(error) ==> (error is EndsBeforeStart <==> finished < started),
    {
        let (start, end) = match TimeWindow::shifted(started, finished, backdate) {
            Ok(ends) => ends,
            Err(error) => {
                return Err(error);
            },
        };
        if calendar_has(start) && calendar_has(end) {
            Ok(TimeWindow { start, end })
        } else {
            Err(WindowError::OffCalendar)
        }
    }

    /// When the window starts.
    pub fn start_time(&self) -> (seconds: i64)
        ensures
            seconds == self.start(),
            seconds <= self.end(),
            on_calendar(seconds),
    {
        proof {
            use_type_invariant(self);
        }
        self.start
    }

    /// When the window ends.
    pub fn end_time(&self) -> (seconds: i64)
        ensures
            seconds == self.end(),
            self.start() <= seconds,
            on_calendar(seconds),
    {
        proof {
            use_type_invariant(self);
        }
        self.end
    }
}

/// A backdated window starts at the backdate and is as long as the run
/// took, whenever the run was made.
pub proof fn lemma_backdate(
    started: i64,
    finished: i64,
    restarted: i64,
    refinished: i64,
    backdate: i64,
)
    requires
        finished - started == refinished - restarted,
    ensures
        window_start(started, Some(backdate)) == backdate,
        window_end(started, finished, Some(backdate)) == backdate + (finished - started),
        window_start(started, Some(backdate)) == window_start(restarted, Some(backdate)),
        window_end(started, finished, Some(backdate)) == window_end(
            restarted,
            refinished,
            Some(backdate),
        ),
{
}

} // verus!
