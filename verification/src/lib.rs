//! A codec for PNG chunks: the length-prefixed, type-tagged, checksummed
//! records that make up the body of a PNG file.
//!
//! [`chunk_type::ChunkType`] is the four-letter tag of a chunk and decodes the
//! property bits that the case of each letter carries. [`chunk::Chunk`] is one
//! record: it is read from its byte layout with its checksum verified, and
//! written back with the checksum computed afresh. [`args`] holds the request
//! a command line describes and the rule for when it is complete.
//!
//! Every function states what it returns over a mathematical model of its
//! arguments: byte sequences, and the view of each type.
pub mod args;
pub mod big_endian;
pub mod checksum;
pub mod chunk;
pub mod chunk_type;
pub mod text;
