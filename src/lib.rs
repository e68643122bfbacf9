//! Media-type inference for byte buffers, a text-or-binary classifier, and a
//! codec for `data:` URLs whose payload encoding follows that classification.

pub mod dataurl;
pub mod light_guess;
pub mod magic;
pub mod media;
pub mod resolve;
pub mod texture;
pub mod utils;

pub use crate::media::{Mime, MimeError};
pub use crate::dataurl::Dataurl;
