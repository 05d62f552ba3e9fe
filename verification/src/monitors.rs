//! Naming the connected monitors and picking the one the notch mode uses.
//! Monitor geometry is fractional and is handled outside this crate.

use vstd::prelude::*;
use vstd::string::*;
use crate::text::{decimal, decimal_text, same_text};

verus! {

/// The name a monitor is listed under: the name the system reports, or
/// "Monitor <n>" for the `index`-th monitor (counting from 0) when it reports
/// none.
pub open spec fn monitor_label(reported: Option<Seq<char>>, index: nat) -> Seq<char> {
    match reported {
        Some(name) => name,
        None => "Monitor "@ + decimal(index + 1),
    }
}

/// The name to list the `index`-th monitor under (see [`monitor_label`]).
pub fn monitor_name(reported: Option<&str>, index: usize) -> (name: String)
    requires
        index < u64::MAX,
    ensures
        name@ == monitor_label(
            match reported {
                Some(n) => Some(n@),
                None => None,
            },
            index as nat,
        ),
{
    match reported {
        Some(name) => String::from_str(name),
        None => {
            let mut label = String::from_str("Monitor ");
            let number = decimal_text(index as u64 + 1);
            label.append(number.as_str());
            label
        },
    }
}

/// Picks the monitor for the notch mode: the first monitor named
/// `wanted`, or, when no monitor is asked for, the first one listed. Returns
/// the index into `names`, or `None` when there is no such monitor.
pub fn select_monitor(names: &Vec<String>, wanted: Option<&str>) -> (index: Option<usize>)
    ensures
        wanted matches Some(w) ==> match index {
            Some(k) => k < names@.len() && names@[k as int]@ == w@ && forall|j: int|
                0 <= j < k ==> names@[j]@ != w@,
            None => forall|j: int| 0 <= j < names@.len() ==> names@[j]@ != w@,
        },
        wanted is None ==> index == (if names@.len() > 0 {
            Some(0usize)
        } else {
            None
        }),
{
    match wanted {
        None => if names.len() > 0 {
            Some(0)
        } else {
            None
        },
        Some(w) => {
            let mut i: usize = 0;
            while i < names.len()
                invariant
                    wanted == Some(w),
                    i <= names@.len(),
                    forall|j: int| 0 <= j < i ==> names@[j]@ != w@,
                decreases names@.len() - i,
            {
                if same_text(names[i].as_str(), w) {
                    return Some(i);
                }
                i = i + 1;
            }
            None
        },
    }
}

} // verus!
