use vstd::prelude::*;

pub mod app;
pub mod cli;
pub mod clock;
pub mod daemon;
pub mod db;
pub mod desktop;
pub mod editing;
pub mod grammar;
pub mod history;
pub mod import;
pub mod keys;
pub mod laws;
pub mod order;
pub mod parser;
pub mod pings;
pub mod text;
pub mod view;

verus! {

} // verus!
