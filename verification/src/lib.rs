//! Recognizers for calendar dates embedded in short text fragments:
//! numeric forms such as `13/07/2024` or `03-12`, relative words such as
//! "yesterday", and weekday names, composed per locale by ordered
//! alternation. Each recognizer consumes a prefix of the input and returns
//! the parsed value together with the unconsumed remainder.

pub mod clock;
pub mod date;
pub mod error;
pub mod i18n;
pub mod laws;
pub mod numeric;
pub mod quick;
pub mod scan;
