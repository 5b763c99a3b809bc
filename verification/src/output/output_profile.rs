//! The description from which a renderer is built.

use vstd::prelude::*;

verus! {

pub struct OutputProfile {
    pub output_template: String,
}

impl OutputProfile {
    pub fn from_str(template: &str) -> (profile: Self)
        ensures
            profile.output_template@ == template@,
    {
        OutputProfile { output_template: template.to_owned() }
    }
}

} // verus!
