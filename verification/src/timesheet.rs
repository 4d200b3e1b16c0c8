//! The entry store of one project and its clock state machine.

use crate::timestamp::local_now_rfc3339;
use vstd::prelude::*;

verus! {

/// The mathematical value of one clock entry: its three texts as sequences
/// of characters.
pub struct EntryView {
    pub time_in: Seq<char>,
    pub time_out: Seq<char>,
    pub message: Seq<char>,
}

/// One clock-in/clock-out session. An empty `time_out` means the session is
/// still open.
#[derive(Debug, Clone, PartialEq, Eq)]
pub struct TimesheetEntry {
    pub time_in: String,
    pub time_out: String,
    pub message: String,
}

impl View for TimesheetEntry {
    type V = EntryView;

    open spec fn view(&self) -> EntryView {
        EntryView { time_in: self.time_in@, time_out: self.time_out@, message: self.message@ }
    }
}

/// The values of a sequence of entries, in order.
pub open spec fn entries_view(entries: Seq<TimesheetEntry>) -> Seq<EntryView> {
    Seq::new(entries.len(), |i: int| entries[i]@)
}

/// A store is open (clocked in) when it has a last entry and that entry has
/// no clock-out time.
pub open spec fn is_open(store: Seq<EntryView>) -> bool {
    store.len() > 0 && store.last().time_out.len() == 0
}

/// The text that starts the message of every entry: `IN: `.
pub open spec fn in_prefix() -> Seq<char> {
    seq!['I', 'N', ':', ' ']
}

/// The text that joins a clock-out message to the message before it:
/// ` | OUT: `.
pub open spec fn out_separator() -> Seq<char> {
    seq![' ', '|', ' ', 'O', 'U', 'T', ':', ' ']
}

/// The entry that a clock-in at `now` with `message` opens.
pub open spec fn opened_entry(now: Seq<char>, message: Seq<char>) -> EntryView {
    EntryView { time_in: now, time_out: Seq::<char>::empty(), message: in_prefix() + message }
}

/// The message of an entry after a clock-out with `message`: unchanged for
/// an empty `message`; `message` itself where the entry had none; else the
/// two joined by the separator.
pub open spec fn closing_message(current: Seq<char>, message: Seq<char>) -> Seq<char> {
    if message.len() == 0 {
        current
    } else if current.len() == 0 {
        message
    } else {
        current + out_separator() + message
    }
}

/// An entry after a clock-out at `now` with `message`.
pub open spec fn closed_entry(entry: EntryView, now: Seq<char>, message: Seq<char>) -> EntryView {
    EntryView {
        time_in: entry.time_in,
        time_out: now,
        message: closing_message(entry.message, message),
    }
}

/// The store after a clock-in: unchanged where it was open, else one entry
/// longer.
pub open spec fn clocked_in(store: Seq<EntryView>, now: Seq<char>, message: Seq<char>) -> Seq<
    EntryView,
> {
    if is_open(store) {
        store
    } else {
        store.push(opened_entry(now, message))
    }
}

/// The store after a clock-out: unchanged where it was closed, else with
/// its last entry closed.
pub open spec fn clocked_out(store: Seq<EntryView>, now: Seq<char>, message: Seq<char>) -> Seq<
    EntryView,
> {
    if is_open(store) {
        store.update(store.len() - 1, closed_entry(store.last(), now, message))
    } else {
        store
    }
}

/// The store after the single `clock` command: a clock-out where it was
/// open, a clock-in where it was closed.
pub open spec fn toggled(store: Seq<EntryView>, now: Seq<char>, message: Seq<char>) -> Seq<
    EntryView,
> {
    if is_open(store) {
        clocked_out(store, now, message)
    } else {
        clocked_in(store, now, message)
    }
}

/// The invariant of a store: every entry has a clock-in time, and every
/// entry but the last has a clock-out time.
pub open spec fn well_formed(store: Seq<EntryView>) -> bool {
    &&& forall|i: int| 0 <= i < store.len() ==> (#[trigger] store[i]).time_in.len() > 0
    &&& forall|i: int| 0 <= i < store.len() - 1 ==> (#[trigger] store[i]).time_out.len() > 0
}

/// Whether no two entries of a store are open.
pub open spec fn at_most_one_open(store: Seq<EntryView>) -> bool {
    forall|i: int, j: int|
        0 <= i < j < store.len() ==> !((#[trigger] store[i]).time_out.len() == 0 && (
        #[trigger] store[j]).time_out.len() == 0)
}

/// The number of entries that have a clock-out time.
pub open spec fn closed_count(store: Seq<EntryView>) -> nat
    decreases store.len(),
{
    if store.len() == 0 {
        0
    } else {
        closed_count(store.drop_last()) + if store.last().time_out.len() > 0 {
            1nat
        } else {
            0nat
        }
    }
}

/// How a clock operation ended.
#[derive(Debug, Clone, Copy, PartialEq, Eq, Structural)]
pub enum ClockOutcome {
    /// A clock-in opened the first entry of an empty store.
    OpenedFirst,
    /// A clock-in opened a new entry after closed ones.
    OpenedNew,
    /// A clock-in found the store open and changed nothing.
    AlreadyClockedIn,
    /// A clock-out closed the open entry.
    Closed,
    /// A clock-out found the store closed and changed nothing.
    NotClockedIn,
}

/// The outcome of a clock-in on `store`.
pub open spec fn clock_in_outcome(store: Seq<EntryView>) -> ClockOutcome {
    if is_open(store) {
        ClockOutcome::AlreadyClockedIn
    } else if store.len() == 0 {
        ClockOutcome::OpenedFirst
    } else {
        ClockOutcome::OpenedNew
    }
}

/// The outcome of a clock-out on `store`.
pub open spec fn clock_out_outcome(store: Seq<EntryView>) -> ClockOutcome {
    if is_open(store) {
        ClockOutcome::Closed
    } else {
        ClockOutcome::NotClockedIn
    }
}

/// The outcome of the `clock` command on `store`.
pub open spec fn toggle_outcome(store: Seq<EntryView>) -> ClockOutcome {
    if is_open(store) {
        ClockOutcome::Closed
    } else {
        clock_in_outcome(store)
    }
}

/// The ordered entries of one project.
#[derive(Debug, Clone, PartialEq, Eq)]
pub struct Timesheet {
    entries: Vec<TimesheetEntry>,
}

impl View for Timesheet {
    type V = Seq<EntryView>;

    closed spec fn view(&self) -> Seq<EntryView> {
        entries_view(self.entries@)
    }
}

impl Timesheet {
    /// An empty store: no entries, clocked out.
    pub fn new() -> (store: Timesheet)
        ensures
            store@ == Seq::<EntryView>::empty(),
    {
        Timesheet { entries: Vec::new() }
    }

    /// The store that holds the given entries, in their order.
    pub fn from_entries(entries: Vec<TimesheetEntry>) -> (store: Timesheet)
        ensures
            store@ == entries_view(entries@),
    {
        Timesheet { entries }
    }

    /// The entries of the store, in order.
    pub fn entries(&self) -> (list: &Vec<TimesheetEntry>)
        ensures
            entries_view(list@) == self@,
    {
        &self.entries
    }

    /// Whether the last entry exists and is still open. The store is left
    /// as it was.
    pub fn is_clocked_in(&mut self) -> (open: bool)
        ensures
            *final(self) == *old(self),
            open == is_open(old(self)@),
    {
        let n: usize = self.entries.len();
        if n == 0 {
            false
        } else {
            self.entries[n - 1].time_out.as_str().is_empty()
        }
    }

    /// The negation of [`Timesheet::is_clocked_in`].
    pub fn is_clocked_out(&mut self) -> (closed: bool)
        ensures
            *final(self) == *old(self),
            closed == !is_open(old(self)@),
    {
        !self.is_clocked_in()
    }

    /// Clocks in at the time text `now`: a store that is open stays as it
    /// is; a closed one gets a new open entry whose message is `IN: `
    /// followed by `message`.
    pub fn clock_in_at(&mut self, now: &str, message: &String) -> (outcome: ClockOutcome)
        requires
            now@.len() > 0,
        ensures
            final(self)@ == clocked_in(old(self)@, now@, message@),
            outcome == clock_in_outcome(old(self)@),
            well_formed(old(self)@) ==> well_formed(final(self)@),
    {
        let n: usize = self.entries.len();
        if n > 0 && self.entries[n - 1].time_out.as_str().is_empty() {
            return ClockOutcome::AlreadyClockedIn;
        }
        proof {
            reveal_strlit("IN: ");
            assert("IN: "@ =~= in_prefix());
        }
        let entry = TimesheetEntry {
            time_in: now.to_owned(),
            time_out: String::new(),
            message: String::from_str("IN: ").concat(message.as_str()),
        };
        self.entries.push(entry);
        proof {
            assert(self@ =~= clocked_in(old(self)@, now@, message@));
            if well_formed(old(self)@) {
                lemma_clock_in_keeps_well_formed(old(self)@, now@, message@);
            }
        }
        if n == 0 {
            ClockOutcome::OpenedFirst
        } else {
            ClockOutcome::OpenedNew
        }
    }

    /// Clocks out at the time text `now`: a store that is closed stays as
    /// it is; an open one has its last entry closed at `now`, and a
    /// `message` that is not empty is recorded in that entry.
    pub fn clock_out_at(&mut self, now: &str, message: &String) -> (outcome: ClockOutcome)
        requires
            now@.len() > 0,
        ensures
            final(self)@ == clocked_out(old(self)@, now@, message@),
            outcome == clock_out_outcome(old(self)@),
            well_formed(old(self)@) ==> well_formed(final(self)@),
    {
        let n: usize = self.entries.len();
        if n == 0 || !self.entries[n - 1].time_out.as_str().is_empty() {
            return ClockOutcome::NotClockedIn;
        }
        proof {
            reveal_strlit(" | OUT: ");
            assert(" | OUT: "@ =~= out_separator());
        }
        let mut last = self.entries.pop().unwrap();
        last.time_out = now.to_owned();
        if !message.as_str().is_empty() {
            if last.message.as_str().is_empty() {
                last.message = message.clone();
            } else {
                last.message.append(" | OUT: ");
                last.message.append(message.as_str());
            }
        }
        self.entries.push(last);
        proof {
            assert(self@ =~= clocked_out(old(self)@, now@, message@));
            if well_formed(old(self)@) {
                lemma_clock_out_keeps_well_formed(old(self)@, now@, message@);
            }
        }
        ClockOutcome::Closed
    }

    /// The `clock` command at the time text `now`: clocks out where the
    /// store is open, clocks in where it is closed.
    pub fn clock_at(&mut self, now: &str, message: &String) -> (outcome: ClockOutcome)
        requires
            now@.len() > 0,
        ensures
            final(self)@ == toggled(old(self)@, now@, message@),
            outcome == toggle_outcome(old(self)@),
            is_open(final(self)@) == !is_open(old(self)@),
            well_formed(old(self)@) ==> well_formed(final(self)@),
    {
        if self.is_clocked_in() {
            self.clock_out_at(now, message)
        } else {
            self.clock_in_at(now, message)
        }
    }

    /// Clocks in at the local time of this machine, read when the call is
    /// made. See [`Timesheet::clock_in_at`].
    pub fn clock_in(&mut self, message: &String) -> (outcome: ClockOutcome)
        ensures
            exists|now: Seq<char>|
                now.len() > 0 && final(self)@ == clocked_in(old(self)@, now, message@),
            outcome == clock_in_outcome(old(self)@),
            well_formed(old(self)@) ==> well_formed(final(self)@),
    {
        let now = local_now_rfc3339();
        self.clock_in_at(now.as_str(), message)
    }

    /// Clocks out at the local time of this machine, read when the call is
    /// made. See [`Timesheet::clock_out_at`].
    pub fn clock_out(&mut self, message: &String) -> (outcome: ClockOutcome)
        ensures
            exists|now: Seq<char>|
                now.len() > 0 && final(self)@ == clocked_out(old(self)@, now, message@),
            outcome == clock_out_outcome(old(self)@),
            well_formed(old(self)@) ==> well_formed(final(self)@),
    {
        let now = local_now_rfc3339();
        self.clock_out_at(now.as_str(), message)
    }

    /// The `clock` command at the local time of this machine, read when
    /// the call is made. See [`Timesheet::clock_at`].
    pub fn clock(&mut self, message: &String) -> (outcome: ClockOutcome)
        ensures
            exists|now: Seq<char>|
                now.len() > 0 && final(self)@ == toggled(old(self)@, now, message@),
            outcome == toggle_outcome(old(self)@),
            is_open(final(self)@) == !is_open(old(self)@),
            well_formed(old(self)@) ==> well_formed(final(self)@),
    {
        let now = local_now_rfc3339();
        self.clock_at(now.as_str(), message)
    }

    /// Whether the store meets its invariant.
    pub fn is_well_formed(&self) -> (holds: bool)
        ensures
            holds == well_formed(self@),
    {
        let n: usize = self.entries.len();
        let mut i: usize = 0;
        while i < n
            invariant
                n == self.entries@.len(),
                i <= n,
                forall|k: int| 0 <= k < i ==> (#[trigger] self@[k]).time_in.len() > 0,
                forall|k: int| 0 <= k < i && k < n - 1 ==> (#[trigger] self@[k]).time_out.len() > 0,
            decreases n - i,
        {
            if self.entries[i].time_in.as_str().is_empty() {
                assert(self@[i as int].time_in.len() == 0);
                return false;
            }
            if i + 1 < n && self.entries[i].time_out.as_str().is_empty() {
                assert(self@[i as int].time_out.len() == 0);
                return false;
            }
            i += 1;
        }
        true
    }
}

/// A clock-in with a time text that is not empty keeps the invariant.
pub proof fn lemma_clock_in_keeps_well_formed(
    store: Seq<EntryView>,
    now: Seq<char>,
    message: Seq<char>,
)
    requires
        well_formed(store),
        now.len() > 0,
    ensures
        well_formed(clocked_in(store, now, message)),
{
}

/// A clock-out with a time text that is not empty keeps the invariant.
pub proof fn lemma_clock_out_keeps_well_formed(
    store: Seq<EntryView>,
    now: Seq<char>,
    message: Seq<char>,
)
    requires
        well_formed(store),
        now.len() > 0,
    ensures
        well_formed(clocked_out(store, now, message)),
{
}

/// Adding an entry adds one to the count of closed entries where the entry
/// is closed, and nothing where it is open.
pub proof fn lemma_closed_count_push(store: Seq<EntryView>, entry: EntryView)
    ensures
        closed_count(store.push(entry)) == closed_count(store) + if entry.time_out.len() > 0 {
            1nat
        } else {
            0nat
        },
{
    assert(store.push(entry).drop_last() =~= store);
}

/// A clock-in followed at once by a clock-out leaves the store closed, with
/// exactly one closed entry more than it had: the new entry where the store
/// was closed, the entry that was open where it was not.
pub proof fn lemma_clock_in_then_out(
    store: Seq<EntryView>,
    now_in: Seq<char>,
    message_in: Seq<char>,
    now_out: Seq<char>,
    message_out: Seq<char>,
)
    requires
        now_in.len() > 0,
        now_out.len() > 0,
    ensures
        !is_open(clocked_out(clocked_in(store, now_in, message_in), now_out, message_out)),
        closed_count(clocked_out(clocked_in(store, now_in, message_in), now_out, message_out))
            == closed_count(store) + 1,
        clocked_out(clocked_in(store, now_in, message_in), now_out, message_out).len() == store.len()
            + if is_open(store) {
            0nat
        } else {
            1nat
        },
{
    let opened = clocked_in(store, now_in, message_in);
    let after = clocked_out(opened, now_out, message_out);
    let shut = closed_entry(opened.last(), now_out, message_out);
    assert(is_open(opened));
    assert(after =~= opened.drop_last().push(shut));
    lemma_closed_count_push(opened.drop_last(), shut);
    lemma_closed_count_push(opened.drop_last(), opened.last());
    assert(opened.drop_last().push(opened.last()) =~= opened);
    if !is_open(store) {
        assert(opened.drop_last() =~= store);
    }
}

/// Two clock-ins in a row: the second changes nothing, and a store that
/// met its invariant never holds two open entries.
pub proof fn lemma_clock_in_twice(
    store: Seq<EntryView>,
    first_now: Seq<char>,
    first_message: Seq<char>,
    second_now: Seq<char>,
    second_message: Seq<char>,
)
    requires
        first_now.len() > 0,
        second_now.len() > 0,
    ensures
        clocked_in(clocked_in(store, first_now, first_message), second_now, second_message)
            == clocked_in(store, first_now, first_message),
        clock_in_outcome(clocked_in(store, first_now, first_message))
            == ClockOutcome::AlreadyClockedIn,
        well_formed(store) ==> at_most_one_open(clocked_in(store, first_now, first_message)),
{
}

/// A clock-out on a closed store leaves every entry as it was.
pub proof fn lemma_clock_out_when_closed(store: Seq<EntryView>, now: Seq<char>, message: Seq<char>)
    requires
        !is_open(store),
    ensures
        clocked_out(store, now, message) == store,
        clock_out_outcome(store) == ClockOutcome::NotClockedIn,
{
}

} // verus!
