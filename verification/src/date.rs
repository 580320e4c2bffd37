//! Days of the week, and the update schedule of a channel.

use vstd::prelude::*;

verus! {

/// A day of the week, Monday first.
#[derive(Clone, Copy, Debug, PartialEq, Eq, Structural)]
pub enum Weekday {
    Mon,
    Tue,
    Wed,
    Thu,
    Fri,
    Sat,
    Sun,
}

/// When a channel of the url file is to be refreshed.
#[derive(Clone, Copy, Debug, PartialEq, Eq, Structural)]
pub enum Date {
    Mon,
    Tue,
    Wed,
    Thu,
    Fri,
    Sat,
    Sun,
    Workday,
    Weekend,
    Always,
    Never,
}

/// The number of days since Monday of a weekday (Monday is 0, Sunday is 6).
pub open spec fn days_from_monday(w: Weekday) -> nat {
    match w {
        Weekday::Mon => 0,
        Weekday::Tue => 1,
        Weekday::Wed => 2,
        Weekday::Thu => 3,
        Weekday::Fri => 4,
        Weekday::Sat => 5,
        Weekday::Sun => 6,
    }
}

/// Whether a weekday is Monday to Friday.
pub open spec fn is_workday(w: Weekday) -> bool {
    days_from_monday(w) < 5
}

/// Whether the schedule entry `d` covers the weekday `w`.
pub open spec fn covers(d: Date, w: Weekday) -> bool {
    match d {
        Date::Mon => w == Weekday::Mon,
        Date::Tue => w == Weekday::Tue,
        Date::Wed => w == Weekday::Wed,
        Date::Thu => w == Weekday::Thu,
        Date::Fri => w == Weekday::Fri,
        Date::Sat => w == Weekday::Sat,
        Date::Sun => w == Weekday::Sun,
        Date::Workday => is_workday(w),
        Date::Weekend => !is_workday(w),
        Date::Always => true,
        Date::Never => false,
    }
}

/// Whether some entry of a schedule covers the weekday `w`.
pub open spec fn due_on(schedule: Seq<Date>, w: Weekday) -> bool {
    exists|i: int| 0 <= i < schedule.len() && covers(#[trigger] schedule[i], w)
}

impl Weekday {
    /// The weekday that lies `n` days after Monday.
    pub fn from_days_from_monday(n: u32) -> (w: Weekday)
        requires
            n < 7,
        ensures
            days_from_monday(w) == n,
    {
        if n == 0 {
            Weekday::Mon
        } else if n == 1 {
            Weekday::Tue
        } else if n == 2 {
            Weekday::Wed
        } else if n == 3 {
            Weekday::Thu
        } else if n == 4 {
            Weekday::Fri
        } else if n == 5 {
            Weekday::Sat
        } else {
            Weekday::Sun
        }
    }
}

impl Date {
    /// Whether this schedule entry covers the weekday `other`.
    pub fn eq_to(&self, other: &Weekday) -> (r: bool)
        ensures
            r == covers(*self, *other),
    {
        match (self, other) {
            (Date::Mon, Weekday::Mon)
            | (Date::Tue, Weekday::Tue)
            | (Date::Wed, Weekday::Wed)
            | (Date::Thu, Weekday::Thu)
            | (Date::Fri, Weekday::Fri)
            | (Date::Sat, Weekday::Sat)
            | (Date::Sun, Weekday::Sun)
            | (Date::Workday, Weekday::Mon)
            | (Date::Workday, Weekday::Tue)
            | (Date::Workday, Weekday::Wed)
            | (Date::Workday, Weekday::Thu)
            | (Date::Workday, Weekday::Fri)
            | (Date::Weekend, Weekday::Sat)
            | (Date::Weekend, Weekday::Sun)
            | (Date::Always, _) => true,
            _ => false,
        }
    }
}

/// Whether some entry of `update_on` covers the weekday `today`.
pub fn needs_update(update_on: &Vec<Date>, today: Weekday) -> (r: bool)
    ensures
        r == due_on(update_on@, today),
{
    let mut i: usize = 0;
    while i < update_on.len()
        invariant
            i <= update_on@.len(),
            forall|j: int| 0 <= j < i ==> !covers(#[trigger] update_on@[j], today),
        decreases update_on@.len() - i,
    {
        if update_on[i].eq_to(&today) {
            return true;
        }
        i = i + 1;
    }
    false
}

/// Of the weekday: `Always` covers every day, `Never` none, and `Workday` and
/// `Weekend` split the week between them.
pub proof fn lemma_schedule_partition(w: Weekday)
    ensures
        covers(Date::Always, w),
        !covers(Date::Never, w),
        covers(Date::Workday, w) != covers(Date::Weekend, w),
        covers(Date::Workday, w) <==> (w == Weekday::Mon || w == Weekday::Tue || w == Weekday::Wed
            || w == Weekday::Thu || w == Weekday::Fri),
{
}


/// Each single-day entry covers its own weekday and no other, so an entry
/// listing one day is due on exactly that day.
pub proof fn lemma_single_day_entries(w: Weekday)
    ensures
        covers(Date::Mon, w) <==> w == Weekday::Mon,
        covers(Date::Tue, w) <==> w == Weekday::Tue,
        covers(Date::Wed, w) <==> w == Weekday::Wed,
        covers(Date::Thu, w) <==> w == Weekday::Thu,
        covers(Date::Fri, w) <==> w == Weekday::Fri,
        covers(Date::Sat, w) <==> w == Weekday::Sat,
        covers(Date::Sun, w) <==> w == Weekday::Sun,
        due_on(seq![Date::Mon], w) <==> w == Weekday::Mon,
        due_on(seq![Date::Sun], w) <==> w == Weekday::Sun,
{
    assert(seq![Date::Mon][0] == Date::Mon);
    assert(seq![Date::Sun][0] == Date::Sun);
}

/// A schedule is due on a day exactly when one of its entries, on its own,
/// would be: adding an entry adds the days it covers.
pub proof fn lemma_due_on_push(schedule: Seq<Date>, d: Date, w: Weekday)
    ensures
        due_on(schedule.push(d), w) <==> (due_on(schedule, w) || covers(d, w)),
{
    let t = schedule.push(d);
    if due_on(schedule, w) {
        let i = choose|i: int| 0 <= i < schedule.len() && covers(#[trigger] schedule[i], w);
        assert(t[i] == schedule[i]);
    }
    if covers(d, w) {
        assert(t[schedule.len() as int] == d);
    }
    if due_on(t, w) {
        let i = choose|i: int| 0 <= i < t.len() && covers(#[trigger] t[i], w);
        if i < schedule.len() {
            assert(t[i] == schedule[i]);
        }
    }
}
} // verus!
