use vstd::prelude::*;

verus! {

/// Why an operation on the repository failed.
#[derive(Debug, Clone, Copy, PartialEq, Eq, Structural)]
pub enum RepoError {
    /// The boundary markers are missing or unterminated, or the front matter
    /// is not a TOML table.
    MalformedDocument,
    /// `title` is missing, or a field does not have its declared type.
    SchemaMismatch,
    /// The post's file could not be read.
    SourceUnreadable,
    /// The post's file could not be written.
    WriteFailure,
    /// The file could not be loaded again right after it was written.
    PostVanishedAfterWrite,
    /// The site generator could not be launched.
    GeneratorUnavailable,
    /// The file the site generator was asked to create could not be loaded.
    CreatedFileUnreadable,
    /// The title holds no letter or digit, so it gives no file name.
    EmptySlug,
}

} // verus!
