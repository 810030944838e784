//! Extraction of a single text artifact out of nested distribution archives.
//!
//! Given the raw bytes of a Debian-style package, the library locates the
//! `data.tar.xz` member of the outer Unix archive container, decompresses the
//! embedded XZ stream, walks the resulting tar stream for the first entry
//! whose file name is `app.asar`, parses that application bundle's index, and
//! returns the UTF-8 text of one file inside it.  Every stage either advances
//! or terminates the call with a typed error naming the stage that failed.

pub mod errors;
pub mod paths;
pub mod text;
pub mod container;
pub mod decompress;
pub mod tarwalk;
pub mod bundle;
pub mod pipeline;
pub mod versions;
