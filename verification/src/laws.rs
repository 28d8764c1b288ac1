//! Laws of scanning and parsing, stated over the specification functions that
//! the contracts of the library use, and proved.

pub mod case;
pub mod pairs;
pub mod scanning;
