//! Running without a window: when to stop, and which sender to connect to.

use vstd::prelude::*;

use crate::state::shared::DiscoveredSender;
use crate::text::{
    contains, contains_text, law_contains_is_being_a_part, lowercase, to_lowercase,
};

verus! {

/// How long to look for a sender before giving up, in microseconds.
pub const DISCOVERY_TIMEOUT_US: u64 = 30_000_000;

/// When a run that lasts `duration_secs` from `now_us` on ends; never where no
/// duration is given, or where the end is beyond the clock.
pub fn run_deadline(now_us: u64, duration_secs: Option<u64>) -> (deadline: Option<u64>)
    ensures
        match duration_secs {
            Some(secs) => if now_us + secs * 1_000_000 <= u64::MAX {
                deadline matches Some(d) && d == now_us + secs * 1_000_000
            } else {
                deadline is None
            },
            None => deadline is None,
        },
{
    match duration_secs {
        Some(secs) => {
            let end: u128 = now_us as u128 + secs as u128 * 1_000_000;
            if end <= u64::MAX as u128 {
                Some(end as u64)
            } else {
                None
            }
        },
        None => None,
    }
}

/// The deadline has come.
pub fn reached(deadline: Option<u64>, now_us: u64) -> (r: bool)
    ensures
        r == (deadline is Some && now_us >= deadline->Some_0),
{
    match deadline {
        Some(d) => now_us >= d,
        None => false,
    }
}

/// The first of `lower_names` that contains `lower_filter`.
pub fn first_match(lower_names: &[String], lower_filter: &str) -> (found: Option<usize>)
    ensures
        match found {
            Some(i) => {
                &&& i < lower_names@.len()
                &&& contains_text(lower_names@[i as int]@, lower_filter@)
                &&& forall|j: int|
                    0 <= j < i ==> !contains_text((#[trigger] lower_names@[j])@, lower_filter@)
            },
            None => forall|j: int|
                0 <= j < lower_names@.len() ==> !contains_text(
                    (#[trigger] lower_names@[j])@,
                    lower_filter@,
                ),
        },
{
    let mut i: usize = 0;
    while i < lower_names.len()
        invariant
            i <= lower_names@.len(),
            forall|j: int|
                0 <= j < i ==> !contains_text((#[trigger] lower_names@[j])@, lower_filter@),
        decreases lower_names@.len() - i,
    {
        if contains(lower_names[i].as_str(), lower_filter) {
            return Some(i);
        }
        i = i + 1;
    }
    None
}

/// A sender named `name` is wanted: its name contains the filter, upper and
/// lower case alike, or there is no filter.
pub open spec fn wanted(name: Seq<char>, filter: Option<&str>) -> bool {
    match filter {
        Some(f) => contains_text(lowercase(name), lowercase(f@)),
        None => true,
    }
}

/// The first known sender that is wanted.
pub fn find_sender(known: &[DiscoveredSender], filter: Option<&str>) -> (found: Option<usize>)
    ensures
        match found {
            Some(i) => {
                &&& i < known@.len()
                &&& wanted(known@[i as int].name@, filter)
                &&& forall|j: int| 0 <= j < i ==> !wanted((#[trigger] known@[j]).name@, filter)
            },
            None => forall|j: int|
                0 <= j < known@.len() ==> !wanted((#[trigger] known@[j]).name@, filter),
        },
{
    match filter {
        None => if known.len() > 0 {
            Some(0)
        } else {
            None
        },
        Some(f) => {
            let lower_filter: String = to_lowercase(f);
            let mut lower_names: Vec<String> = Vec::new();
            let mut i: usize = 0;
            while i < known.len()
                invariant
                    i <= known@.len(),
                    lower_names@.len() == i,
                    forall|j: int|
                        0 <= j < i ==> (#[trigger] lower_names@[j])@ == lowercase(known@[j].name@),
                decreases known@.len() - i,
            {
                lower_names.push(to_lowercase(known[i].name.as_str()));
                i = i + 1;
            }
            let found = first_match(lower_names.as_slice(), lower_filter.as_str());
            assert forall|j: int| 0 <= j < known@.len() implies (wanted(
                (#[trigger] known@[j]).name@,
                filter,
            ) <==> contains_text(lower_names@[j]@, lower_filter@)) by {
                assert(lower_names@[j]@ == lowercase(known@[j].name@));
            }
            found
        },
    }
}

/// What to do while a sender is looked for.
#[derive(Debug, Clone, Copy, PartialEq, Eq, Structural)]
pub enum WaitStep {
    /// Connect to the sender at this place of the list.
    Connect(usize),
    /// Give up.
    GiveUp,
    /// Look again in a moment.
    Wait,
}

/// What to do, given what was found: connect if anything was, however late;
/// otherwise wait until the deadline.
pub fn wait_step(found: Option<usize>, deadline_us: u64, now_us: u64) -> (step: WaitStep)
    ensures
        step == (match found {
            Some(i) => WaitStep::Connect(i),
            None => if now_us >= deadline_us {
                WaitStep::GiveUp
            } else {
                WaitStep::Wait
            },
        }),
{
    match found {
        Some(i) => WaitStep::Connect(i),
        None => if now_us >= deadline_us {
            WaitStep::GiveUp
        } else {
            WaitStep::Wait
        },
    }
}

/// A sender is wanted if its name in lower case contains the filter in lower case,
/// its own name among these; without a filter every sender is.
pub proof fn law_wanted_by_a_part_of_the_name(name: Seq<char>, filter: &str)
    ensures
        wanted(name, None),
        wanted(name, Some(filter)) <==> contains_text(lowercase(name), lowercase(filter@)),
        lowercase(name) == lowercase(filter@) ==> wanted(name, Some(filter)),
{
    law_contains_is_being_a_part(lowercase(name), lowercase(filter@), 0);
}

} // verus!
