//! What a run is told on the command line.

use vstd::prelude::*;
use std::path::PathBuf;

verus! {

/// `std::path::PathBuf`. A path is only carried through; nothing is claimed
/// of it.
#[verifier::external_type_specification]
#[verifier::external_body]
pub struct ExPathBuf(PathBuf);

/// The two paths of a run: where the epicycles are read from, and where the
/// picture goes. The extension of `output` names the encoding of the picture.
#[derive(Debug)]
pub struct Args {
    pub input: PathBuf,
    pub output: String,
}

} // verus!
