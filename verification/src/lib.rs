//! Electronic seal toolkit: DER encoding, PKCS#7 / SES signature structures,
//! font re-encoding helpers and the engines that drive document signing.

pub mod der;
pub mod text;
pub mod pkcs7;
pub mod crypto;
pub mod types;
pub mod ses;
pub mod ukey;
pub mod settings;
pub mod sign;
pub mod font_embed;
pub mod seal;
pub mod engine;
pub mod ofd_sign;
pub mod ofd_package;
pub mod ofd_parser;
pub mod utils;
pub mod font_provider;
pub mod seal_image;
