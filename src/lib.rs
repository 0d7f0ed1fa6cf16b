use vstd::prelude::*;

pub mod crypto;
pub mod dirent;
pub mod env;
pub mod http;
pub mod prompt;
pub mod session;
pub mod shell;
pub mod startup;
pub mod terminal;
pub mod text;
pub mod threads;
pub mod util;
pub mod ws;

verus! {

} // verus!
