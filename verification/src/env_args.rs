//! The command-line arguments the program cares about: an optional input
//! file path, read out of the raw argument vector.

use vstd::prelude::*;

verus! {

/// Position of the input file path in the raw argument vector: right after
/// the program name.
pub const FILE_PATH_INDEX: usize = 1;

/// The recognised command-line arguments.
pub struct EnvArgs {
    /// The input file path, when one was given; input comes from standard
    /// input otherwise.
    pub file_path: Option<String>,
}

impl From<Vec<String>> for EnvArgs {
    /// Takes the file path out of the raw argument vector, when one stands
    /// there.
    fn from(vec: Vec<String>) -> (r: EnvArgs) {
        let mut vec = vec;
        if vec.len() > FILE_PATH_INDEX {
            EnvArgs { file_path: Some(vec.swap_remove(FILE_PATH_INDEX)) }
        } else {
            EnvArgs { file_path: None }
        }
    }
}

impl vstd::std_specs::convert::FromSpecImpl<Vec<String>> for EnvArgs {
    open spec fn obeys_from_spec() -> bool {
        true
    }

    open spec fn from_spec(vec: Vec<String>) -> EnvArgs {
        EnvArgs {
            file_path: if vec@.len() > FILE_PATH_INDEX {
                Some(vec@[FILE_PATH_INDEX as int])
            } else {
                None
            },
        }
    }
}

} // verus!
