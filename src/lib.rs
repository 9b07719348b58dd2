//! Configuration variables that a program reads and writes by name.
//!
//! A `Cvars` holds named, typed values. Code that knows a variable's type
//! reads and writes it with `get` and `set`; code that does not, such as an
//! in-game console, uses its text form through `get_string` and `set_str`.
pub mod console;
pub mod laws;
pub mod number;
pub mod registry;
pub mod text;
pub mod typed;
pub mod value;

pub use console::{Console, HistoryLine};
pub use registry::{CvarError, Cvars, Field, SetGet};
pub use typed::CvarType;
pub use value::{Choice, ParseFailure, Value};
