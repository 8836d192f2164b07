//! Which devices satisfy a structured device specification.
use vstd::prelude::*;
use crate::model::Device;
use crate::text::{contains_text, has_substring};

verus! {

/// A structured description of the device that a buyer looks for.
#[derive(Debug)]
pub struct DeviceSpec {
    pub device_type: String,
    pub primary_use: String,
    pub budget_usd: u32,
    /// Text that the device's specs must all contain.
    pub hard_constraints: Vec<String>,
    /// Wishes that do not affect which devices qualify.
    pub soft_preferences: Vec<String>,
    /// Text that the device's specs must not contain.
    pub must_not_have: Vec<String>,
}

pub open spec fn has_all(text: Seq<char>, terms: Seq<String>) -> bool {
    forall|i: int| 0 <= i < terms.len() ==> has_substring(text, #[trigger] terms[i]@)
}

pub open spec fn has_none(text: Seq<char>, terms: Seq<String>) -> bool {
    forall|i: int| 0 <= i < terms.len() ==> !has_substring(text, #[trigger] terms[i]@)
}

/// A device qualifies when its specs name the device type, its price is within
/// the budget, its specs hold every hard constraint and none of the excluded terms.
pub open spec fn qualifies(spec: DeviceSpec, d: Device) -> bool {
    &&& has_substring(d.specs@, spec.device_type@)
    &&& d.price <= spec.budget_usd
    &&& has_all(d.specs@, spec.hard_constraints@)
    &&& has_none(d.specs@, spec.must_not_have@)
}

fn contains_all(text: &String, terms: &Vec<String>) -> (r: bool)
    ensures
        r == has_all(text@, terms@),
{
    let mut i: usize = 0;
    while i < terms.len()
        invariant
            0 <= i <= terms@.len(),
            forall|j: int| 0 <= j < i ==> has_substring(text@, #[trigger] terms@[j]@),
        decreases terms@.len() - i,
    {
        if !contains_text(text.as_str(), terms[i].as_str()) {
            return false;
        }
        i = i + 1;
    }
    true
}

fn contains_none(text: &String, terms: &Vec<String>) -> (r: bool)
    ensures
        r == has_none(text@, terms@),
{
    let mut i: usize = 0;
    while i < terms.len()
        invariant
            0 <= i <= terms@.len(),
            forall|j: int| 0 <= j < i ==> !has_substring(text@, #[trigger] terms@[j]@),
        decreases terms@.len() - i,
    {
        if contains_text(text.as_str(), terms[i].as_str()) {
            return false;
        }
        i = i + 1;
    }
    true
}

/// Whether `d` satisfies `spec`.
pub fn device_qualifies(spec: &DeviceSpec, d: &Device) -> (r: bool)
    ensures
        r == qualifies(*spec, *d),
{
    contains_text(d.specs.as_str(), spec.device_type.as_str()) && d.price_usd() <= spec.budget_usd
        && contains_all(&d.specs, &spec.hard_constraints) && contains_none(
        &d.specs,
        &spec.must_not_have,
    )
}

} // verus!
