use vstd::prelude::*;

verus! {

/// serde_json's `Value`: structured content of any shape, carried through to
/// the template renderer.
#[verifier::external_type_specification]
#[verifier::external_body]
pub struct ExValue(serde_json::Value);

/// tempfile's `TempDir`: a directory that is removed when the value is dropped.
#[verifier::external_type_specification]
#[verifier::external_body]
pub struct ExTempDir(tempfile::TempDir);

/// std's `PathBuf`: an owned file system path.
#[verifier::external_type_specification]
#[verifier::external_body]
pub struct ExPathBuf(std::path::PathBuf);

} // verus!
