//! A real-time lighting engine: scenes made of prioritised tiles are composed,
//! frame by frame, into DMX universes and WLED segment descriptors.
//!
//! Every scalar of the model is a fixed-point number: `UNIT` (one million)
//! stands for `1.0`, so a dimmer at half is `500_000` and a pan of 270° is
//! `270 * UNIT`.

use vstd::prelude::*;

pub mod control;
pub mod dmx;
pub mod effects;
pub mod fixed;
pub mod laws;
pub mod lookup;
pub mod midi;
pub mod model;
pub mod output;
pub mod palette;
pub mod random;
pub mod render;
pub mod resolve;
pub mod scene;
pub mod target;
pub mod tile;
pub mod timing;
pub mod wled;

use vstd::string::StringExecFns;

verus! {

/// A greeting that says the engine is running.
pub fn hello_from_rust(name: &str) -> (r: String)
    ensures
        r@ == "Hello from Rust, "@ + name@ + "! The DMX engine is running."@,
{
    String::from_str("Hello from Rust, ").concat(name).concat("! The DMX engine is running.")
}

/// Prepares the engine; nothing needs preparing.
pub fn init_engine() {
}

/// Acknowledges a project by its name.
pub fn process_project(project: &model::Project) -> (r: Result<String, String>)
    ensures
        r matches Ok(s) && s@ == "Successfully received project: "@ + project.name@,
{
    Ok(String::from_str("Successfully received project: ").concat(project.name.as_str()))
}

} // verus!
