//! Typed, validated, locale-aware model of software-catalog metadata.
//!
//! A catalog is a document in an XML dialect that describes components:
//! applications, fonts, libraries and the like. `Collection::from_xml` reads
//! such a document into the model; the builders put the same model together
//! by hand.

pub mod builders;
pub mod collection;
pub mod component;
pub mod decode;
pub mod enums;
pub mod error;
pub mod ident;
pub mod markup;
pub mod release;
pub mod screenshot;
pub mod text;
pub mod tree;
pub mod types;
pub mod weburl;
pub mod xml;

pub use builders::{
    CollectionBuilder, ComponentBuilder, ImageBuilder, ReleaseBuilder, ScreenshotBuilder,
    VideoBuilder,
};
pub use collection::Collection;
pub use component::Component;
pub use error::{DecodeError, ValidationError};
pub use ident::AppId;
pub use release::Release;
pub use screenshot::{Image, Screenshot, Video};
pub use types::{TranslatableString, TranslatableVec};
pub use weburl::Url;
