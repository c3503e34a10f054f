//! Boot-entry naming and install planning for kernels.
//!
//! Given a kernel and a boot-entry naming schema, this library computes the
//! identifiers and install-time file names a bootloader writer needs, loads
//! kernel command-line snippets gathered from a drop-in directory, resolves
//! destination names on case-insensitive media, and decides which
//! (source, destination) file pairs actually differ so that no-op copies can
//! be skipped.
//!
//! All filesystem probing (stat, directory listing, reading snippet files) is
//! left to the caller; this crate works on the plain values handed to it, plus
//! a content digest computed through the `blake3` crate.

use vstd::prelude::*;

pub mod entry;
pub mod file_utils;

verus! {

/// A kernel discovered by some external catalog: its version string and the
/// path of its on-disk image.
pub struct Kernel {
    pub version: String,
    pub image: String,
}

/// Identifying strings for the installed operating system, sourced externally
/// (e.g. from `os-release`).
pub struct OsRelease {
    /// Human-readable name, e.g. `"Some Linux"`.
    pub name: String,
    /// Stable machine identifier, e.g. `"somelinux"`.
    pub id: String,
}

/// The boot-entry naming convention in use on the target.
///
/// Exactly one variant is active per installation target; the two variants
/// differ structurally (flat type-prefixed filenames vs per-version
/// subdirectories).
pub enum Schema {
    /// Prior flat naming convention.
    Legacy { os_release: OsRelease },
    /// Boot Loader Specification style per-version directory convention.
    Blsforme { os_release: OsRelease },
}

/// The kind of an auxiliary file attached to a kernel.
#[derive(PartialEq, Eq, Structural, Clone, Copy)]
pub enum AuxiliaryKind {
    /// An initial ramdisk image.
    InitRD,
    /// Any other kind of companion file; carries no install name.
    Other,
}

/// A non-kernel-image file associated with a boot entry, such as an initrd.
pub struct AuxiliaryFile {
    pub kind: AuxiliaryKind,
    pub path: String,
}

/// Failures local to one operation of this library.
#[derive(Debug)]
pub enum Error {
    /// A command-line snippet file could not be read; carries the file's name.
    SnippetRead(String),
}

} // verus!
