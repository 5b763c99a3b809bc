//! What the renderers of parsed lines share.

pub mod output_generator;
pub mod output_profile;
