//! Identifiers of workflows, runs, schedules, activities and timers.

use vstd::arithmetic::power::pow;
use vstd::prelude::*;
use vstd::string::*;

use crate::text::digits;

verus! {

/// The value of the `k`-th hexadecimal digit of a 128-bit number, counted from
/// the most significant of its 32 digits.
pub open spec fn hex_digit_value(value: u128, k: int) -> int {
    (value as int / pow(16, (31 - k) as nat)) % 16
}

/// How many of the four hyphens of a hyphenated identifier stand before
/// position `i`.
pub open spec fn hyphens_before(i: int) -> int {
    if i < 9 {
        0
    } else if i < 14 {
        1
    } else if i < 19 {
        2
    } else if i < 24 {
        3
    } else {
        4
    }
}

/// A 128-bit identifier as 32 lower-case hexadecimal digits, most significant
/// first, in hyphenated groups of 8, 4, 4, 4 and 12.
pub open spec fn uuid_text(value: u128) -> Seq<char> {
    Seq::new(
        36,
        |i: int|
            if i == 8 || i == 13 || i == 18 || i == 23 {
                '-'
            } else {
                digits()[hex_digit_value(value, i - hyphens_before(i))]
            },
    )
}

/// What `uuid::Uuid::parse_str` reads in a text: the identifier, or nothing
/// where the text has none of the notations that it accepts.
pub uninterp spec fn parsed_uuid(text: Seq<char>) -> Option<u128>;

/// Renders an identifier with `uuid::Uuid`'s hyphenated lower-case notation.
///
/// Not proved: that `uuid::Uuid::from_u128` takes the number in big-endian order
/// and that displaying the result gives the text described by [`uuid_text`].
#[verifier::external_body]
fn render_uuid(value: u128) -> (text: String)
    ensures
        text@ == uuid_text(value),
{
    uuid::Uuid::from_u128(value).to_string()
}

/// Reads an identifier with `uuid::Uuid::parse_str`.
///
/// Not proved: that the outcome depends on the text alone, and that the
/// hyphenated notation of a number is read back as that number.
#[verifier::external_body]
fn read_uuid(text: &str) -> (value: Option<u128>)
    ensures
        value == parsed_uuid(text@),
        forall|v: u128| text@ == #[trigger] uuid_text(v) ==> value == Some(v),
{
    match uuid::Uuid::parse_str(text) {
        Ok(uuid) => Some(uuid.as_u128()),
        Err(_) => None,
    }
}

/// Logical identity of a workflow across all of its runs.
#[derive(Clone, Copy, Debug, PartialEq, Eq, Hash, Structural)]
pub struct WorkflowId {
    /// The identifier's 128 bits.
    pub value: u128,
}

impl WorkflowId {
    /// Wraps a 128-bit identifier.
    pub fn new(value: u128) -> (id: Self)
        ensures
            id.value == value,
    {
        WorkflowId { value }
    }

    /// The identifier's textual form.
    pub fn text(&self) -> (text: String)
        ensures
            text@ == uuid_text(self.value),
    {
        render_uuid(self.value)
    }
}

/// Identity of one run of a workflow.
#[derive(Clone, Copy, Debug, PartialEq, Eq, Hash, Structural)]
pub struct RunId {
    /// The identifier's 128 bits.
    pub value: u128,
}

impl RunId {
    /// Wraps a 128-bit identifier.
    pub fn new(value: u128) -> (id: Self)
        ensures
            id.value == value,
    {
        RunId { value }
    }

    /// The identifier's textual form.
    pub fn text(&self) -> (text: String)
        ensures
            text@ == uuid_text(self.value),
    {
        render_uuid(self.value)
    }
}

/// Identity of a durable schedule.
#[derive(Clone, Copy, Debug, PartialEq, Eq, Hash, Structural)]
pub struct ScheduleId {
    /// The identifier's 128 bits.
    pub value: u128,
}

impl ScheduleId {
    /// Wraps a 128-bit identifier.
    pub fn new(value: u128) -> (id: Self)
        ensures
            id.value == value,
    {
        ScheduleId { value }
    }

    /// The identifier's textual form.
    pub fn text(&self) -> (text: String)
        ensures
            text@ == uuid_text(self.value),
    {
        render_uuid(self.value)
    }
}

/// Identity of an activity: its position in the workflow's command sequence.
#[derive(Clone, Copy, Debug, PartialEq, Eq, Hash, Structural)]
pub struct ActivityId {
    /// Position of the activity in the command sequence.
    pub sequence_position: u64,
}

impl ActivityId {
    /// The activity at a position of the command sequence.
    pub fn from_sequence_position(sequence_position: u64) -> (id: Self)
        ensures
            id.sequence_position == sequence_position,
    {
        ActivityId { sequence_position }
    }
}

/// Identity of a durable timer.
#[derive(Debug, PartialEq, Eq, Hash)]
pub enum TimerId {
    /// Numbered by the engine.
    Anonymous(u64),
    /// Named by the workflow, or by the engine for a run's deadline.
    Named(String),
}

/// What distinguishes one timer from another.
pub enum TimerKey {
    /// The engine's number.
    Anonymous(u64),
    /// The text of the name.
    Named(Seq<char>),
}

impl View for TimerId {
    type V = TimerKey;

    open spec fn view(&self) -> TimerKey {
        match self {
            TimerId::Anonymous(number) => TimerKey::Anonymous(*number),
            TimerId::Named(name) => TimerKey::Named(name@),
        }
    }
}

impl Clone for TimerId {
    fn clone(&self) -> (copy: Self)
        ensures
            copy == *self,
    {
        match self {
            TimerId::Anonymous(number) => TimerId::Anonymous(*number),
            TimerId::Named(name) => TimerId::Named(name.clone()),
        }
    }
}

/// The name of the timer that carries a run's declared deadline.
pub open spec fn deadline_name(run: RunId) -> Seq<char> {
    "deadline:"@ + uuid_text(run.value)
}

/// The key of the timer that carries a run's declared deadline.
pub open spec fn deadline_key(run: RunId) -> TimerKey {
    TimerKey::Named(deadline_name(run))
}

impl TimerId {
    /// A timer numbered by the engine.
    pub fn anonymous(number: u64) -> (id: Self)
        ensures
            id == TimerId::Anonymous(number),
    {
        TimerId::Anonymous(number)
    }

    /// A named timer.
    pub fn named(name: &str) -> (id: Self)
        ensures
            id@ == TimerKey::Named(name@),
    {
        TimerId::Named(name.to_owned())
    }

    /// Whether two identifiers name the same timer.
    pub fn same(&self, other: &TimerId) -> (same: bool)
        ensures
            same == (self@ == other@),
    {
        match (self, other) {
            (TimerId::Anonymous(left), TimerId::Anonymous(right)) => *left == *right,
            (TimerId::Named(left), TimerId::Named(right)) => *left == *right,
            _ => false,
        }
    }
}

/// The timer reserved for the declared deadline of a run.
pub fn deadline_timer_id(run: &RunId) -> (id: TimerId)
    ensures
        id@ == deadline_key(*run),
{
    let mut name = "deadline:".to_owned();
    let run_text = run.text();
    name.append(run_text.as_str());
    TimerId::Named(name)
}

/// The run whose deadline a timer carries, where the timer is a deadline.
///
/// A timer is a deadline when its name is `deadline:` followed by a run's
/// identifier.
pub fn deadline_run_id(timer: &TimerId) -> (run: Option<RunId>)
    ensures
        run == deadline_run(timer@),
        forall|r: RunId| timer@ == #[trigger] deadline_key(r) ==> run == Some(r),
{
    match timer {
        TimerId::Anonymous(_) => None,
        TimerId::Named(name) => {
            let prefix = "deadline:";
            let prefix_length = prefix.unicode_len();
            let length = name.as_str().unicode_len();
            if length < prefix_length {
                proof {
                    assert forall|r: RunId| timer@ == #[trigger] deadline_key(r) implies false by {
                        assert(name@ == deadline_name(r));
                    }
                }
                return None;
            }
            let head = name.as_str().substring_char(0, prefix_length);
            let rest = name.as_str().substring_char(prefix_length, length);
            proof {
                assert(rest@ =~= name@.skip(prefix_length as int));
                assert(head@ =~= name@.take(prefix_length as int));
                assert forall|r: RunId| timer@ == #[trigger] deadline_key(r) implies rest@
                    == uuid_text(r.value) && head@ == prefix@ by {
                    assert(name@ == prefix@ + uuid_text(r.value));
                    assert(rest@ =~= uuid_text(r.value));
                    assert(head@ =~= prefix@);
                }
            }
            if head.to_owned() == prefix.to_owned() {
                match read_uuid(rest) {
                    Some(value) => Some(RunId { value }),
                    None => {
                        proof {
                            assert forall|r: RunId| timer@ == #[trigger] deadline_key(r) implies
                                false by {
                                assert(rest@ == uuid_text(r.value));
                            }
                        }
                        None
                    },
                }
            } else {
                None
            }
        },
    }
}

/// The run that a timer key is the deadline of, if it has a deadline's name.
pub open spec fn deadline_run(key: TimerKey) -> Option<RunId> {
    match key {
        TimerKey::Anonymous(_) => None,
        TimerKey::Named(name) => {
            let prefix = "deadline:"@;
            if prefix.len() <= name.len() && name.take(prefix.len() as int) == prefix {
                match parsed_uuid(name.skip(prefix.len() as int)) {
                    Some(value) => Some(RunId { value }),
                    None => None,
                }
            } else {
                None
            }
        },
    }
}

} // verus!
