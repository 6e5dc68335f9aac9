//! Utilities with their contracts proved.
//!
//! - [`phone`] normalizes telephone numbers, as users type them, into E.164,
//!   and tells which country issued a number, as far as its calling code
//!   shows it. It rests on the country table in [`country`], the syntax of
//!   E.164 in [`e164`] and the character classes in [`text`]. What holds of it
//!   on every input is proved in [`laws`].
//! - [`i18n`] works out what deriving `I18nError` for an enum comes to.

pub mod country;
pub mod e164;
pub mod i18n;
pub mod laws;
pub mod phone;
pub mod text;

pub use e164::is_valid_e164;
pub use phone::{detect_country, normalize_phone, normalize_vn_phone, PhoneNumber};
