//! شِفرة (Shifra): an Arabic spelling of Python 3.
//!
//! The library turns Shifra source into Python source: reserved Arabic
//! keywords become their English spelling, Arabic method names after a dot
//! become Python method names, Arabic module and library names become their
//! Python names, Arabic-Indic digits become ASCII, and Shifra escapes inside
//! string literals become Python escapes. Arabic identifiers, strings and
//! comments are preserved verbatim. It also shapes Arabic text for a
//! display engine without shaping support.

pub mod builtins;
pub mod keywords;
pub mod laws;
pub mod methods;
pub mod modules;
pub mod preprocessor;
pub mod scan;
pub mod shaping;
pub mod table_laws;
pub mod text;
pub mod tk;

pub use preprocessor::translate;
