//! Conversions between HTTP value types and a generic structured-data model.
//!
//! A value is written as a run of [`Token`]s and read back from one. The
//! supported types are:
//!
//! * [`Cookie`], written as the text of a `Set-Cookie` header;
//! * [`ContentType`] and [`Mime`], written as the text of the media type;
//! * [`Headers`], written as a map from each name to the sequence of its
//!   raw values;
//! * [`Method`], written as its name;
//! * [`StatusCode`], written as its number.
//!
//! Each of them implements [`Codec`], which says what reading and writing
//! do, and that reading what was written gives the value back.
//!
//! # How do I write a `Headers` value?
//!
//! Use [`serialize`], or the [`Ser`] wrapper: `Ser::new(&headers).serialize()`.
//!
//! # How do I read a `Method` value?
//!
//! Use [`deserialize`], or the [`De`] wrapper:
//! `De::<Method>::deserialize(&tokens).map(De::into_inner)`.
//!
//! # How do I keep `Cookie` values in a collection that is read and written?
//!
//! Use the [`Serde`] wrapper. It implements `Deref` and `DerefMut` for
//! convenience.

pub mod codec;
pub mod convenience;
pub mod cookie;
pub mod error;
pub mod grammar;
pub mod headers;
pub mod headers_proofs;
pub mod method;
pub mod mime;
pub mod status;
pub mod token;
pub mod wrapper;

pub use crate::codec::Codec;
pub use crate::convenience::Serde;
pub use crate::cookie::Cookie;
pub use crate::error::Error;
pub use crate::headers::Headers;
pub use crate::method::Method;
pub use crate::mime::{ContentType, Mime};
pub use crate::status::StatusCode;
pub use crate::token::Token;
pub use crate::wrapper::{deserialize, serialize, De, Ser};
