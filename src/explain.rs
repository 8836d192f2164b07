//! The text that the explanation flow sends about one part of a device.
use vstd::prelude::*;
use vstd::string::*;
use crate::market::Marketplace;
use crate::model::{Entity, MarketError};
use crate::text::{contains_text, has_substring};

verus! {

/// The lowercase form of a text, as `str::to_lowercase` gives it.
pub uninterp spec fn lower_of(s: Seq<char>) -> Seq<char>;

/// Relies on `str::to_lowercase`: its result depends on the characters alone.
#[verifier::external_body]
fn lowercase(s: &str) -> (r: String)
    ensures
        r@ == lower_of(s@),
{
    s.to_lowercase()
}

/// What is said about a part: the full specs where they mention it, else a
/// note that they do not, followed by the full specs.
pub open spec fn context_text(specs: Seq<char>, part_name: Seq<char>, mentioned: bool) -> Seq<
    char,
> {
    if mentioned {
        specs
    } else {
        "No specific info about '"@ + part_name + "'. Full specs: "@ + specs
    }
}

/// The context for `part_name`, given the lowercase forms of both texts.
pub fn part_context(specs: &str, part_name: &str, specs_lower: &str, part_lower: &str) -> (r:
    String)
    ensures
        r@ == context_text(specs@, part_name@, has_substring(specs_lower@, part_lower@)),
{
    if contains_text(specs_lower, part_lower) {
        String::from_str(specs)
    } else {
        let mut r = String::from_str("No specific info about '");
        r.append(part_name);
        r.append("'. Full specs: ");
        r.append(specs);
        r
    }
}

/// The prompt that asks for an explanation of a part.
pub fn explanation_prompt(context: &str) -> (r: String)
    ensures
        r@ == "Explain the following part of the device: "@ + context@,
{
    let mut r = String::from_str("Explain the following part of the device: ");
    r.append(context);
    r
}

/// The answer handed back once the explanation service has replied.
pub fn explanation_reply(context: &str) -> (r: String)
    ensures
        r@ == "Explanation from AI: "@ + context@,
{
    let mut r = String::from_str("Explanation from AI: ");
    r.append(context);
    r
}

impl Marketplace {
    /// The context for a part of a stored device; the part is looked for
    /// without regard to case.
    pub fn explain_context(&self, device_id: u64, part_name: &str) -> (r: Result<
        String,
        MarketError,
    >)
        requires
            self.wf(),
        ensures
            self.device(device_id) is None ==> r == Err::<String, MarketError>(
                MarketError::NotFound(Entity::Device),
            ),
            self.device(device_id) is Some ==> r is Ok && r->Ok_0@ == context_text(
                self.device(device_id)->0.specs@,
                part_name@,
                has_substring(lower_of(self.device(device_id)->0.specs@), lower_of(part_name@)),
            ),
    {
        match self.get_device(device_id) {
            Some(device) => {
                let specs_lower = lowercase(device.specs.as_str());
                let part_lower = lowercase(part_name);
                Ok(
                    part_context(
                        device.specs.as_str(),
                        part_name,
                        specs_lower.as_str(),
                        part_lower.as_str(),
                    ),
                )
            },
            None => Err(MarketError::NotFound(Entity::Device)),
        }
    }
}

} // verus!
