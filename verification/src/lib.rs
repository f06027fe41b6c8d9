//! Verified core of the AZ `ObjectStream` container format: field-name
//! hashing, stream tags and encodings, reflected-type metadata, builtin
//! value serializers, asset payload layouts, container families and the
//! reflection read context.

pub mod crc;
pub mod bytes;
pub mod az_uuid;
pub mod stream;
pub mod text;
pub mod scan;
pub mod codec;
pub mod asset;
pub mod container;
pub mod context;
pub mod error;
pub mod lookup;
pub mod tree;
pub mod convert;
pub mod reader;
pub mod text_reader;
pub mod capture;
pub mod binary;
