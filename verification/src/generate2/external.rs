//! External generators: binaries invoked with a stdin/stdout JSON protocol.
//!
//! The binary receives the JSON-serialized schema on stdin and answers with
//! `{"files": {"path/to/file.ext": "contents"}}` on stdout; a non-zero exit
//! status is a failure whose message is on stderr. Running the process is
//! done by the application; this module holds the generator's identity.

use vstd::prelude::*;
use vstd::string::StringExecFns;

use super::GeneratorError;
use crate::text::{trim, trimmed};

verus! {

/// The file stem that `std::path::Path::file_stem` gives for the path text
/// `p` on the target platform, when it is valid text.
pub uninterp spec fn path_file_stem(p: Seq<char>) -> Option<Seq<char>>;

/// Calls `std::path::Path::file_stem` on `path` and converts the stem to a
/// `String`. The contract only ties the result to the name of that
/// function's result; what a stem is (the final component without its last
/// extension) is not stated here.
#[verifier::external_body]
fn file_stem_text(path: &str) -> (r: Option<String>)
    ensures
        match r {
            Some(s) => path_file_stem(path@) == Some(s@),
            None => path_file_stem(path@) is None,
        },
{
    match std::path::Path::new(path).file_stem() {
        Some(stem) => match stem.to_str() {
            Some(text) => Some(text.to_string()),
            None => None,
        },
        None => None,
    }
}

/// The name given to an external generator with binary `path`: the file
/// stem of the path, or `external` when it has none.
pub open spec fn generator_name(path: Seq<char>) -> Seq<char> {
    match path_file_stem(path) {
        Some(stem) => stem,
        None => "external"@,
    }
}

/// Wrapper that invokes an external binary as a code generator.
pub struct ExternalGenerator {
    binary_path: String,
    name: String,
}

impl ExternalGenerator {
    pub closed spec fn binary_path_view(&self) -> Seq<char> {
        self.binary_path@
    }

    pub closed spec fn name_view(&self) -> Seq<char> {
        self.name@
    }

    /// Creates a generator for the binary at `binary_path`, which must exist
    /// and be executable: `exists` and `executable` tell whether it does and
    /// is. A missing or non-executable binary is an error.
    pub fn new(binary_path: &str, exists: bool, executable: bool) -> (r: Result<
        Self,
        GeneratorError,
    >)
        ensures
            exists && executable ==> (r matches Ok(g) && g.binary_path_view() == binary_path@
                && g.name_view() == generator_name(binary_path@)),
            !exists ==> (r matches Err(GeneratorError::Process(m)) && m@
                == "generator binary not found: "@ + binary_path@),
            exists && !executable ==> (r matches Err(GeneratorError::Process(m)) && m@
                == "generator binary is not executable: "@ + binary_path@),
    {
        if !exists {
            let mut msg = String::from_str("generator binary not found: ");
            msg.append(binary_path);
            return Err(GeneratorError::Process(msg));
        }
        if !executable {
            let mut msg = String::from_str("generator binary is not executable: ");
            msg.append(binary_path);
            return Err(GeneratorError::Process(msg));
        }
        let name = match file_stem_text(binary_path) {
            Some(stem) => stem,
            None => {
                proof {
                    reveal_strlit("external");
                }
                String::from_str("external")
            },
        };
        Ok(ExternalGenerator { binary_path: binary_path.to_owned(), name })
    }

    /// The path of the generator binary.
    pub fn binary_path(&self) -> (r: &str)
        ensures
            r@ == self.binary_path_view(),
    {
        self.binary_path.as_str()
    }

    /// The generator's name, derived from the binary's file stem.
    pub fn name(&self) -> (r: &str)
        ensures
            r@ == self.name_view(),
    {
        self.name.as_str()
    }

    /// The outcome of a generator process that has exited: success, or a
    /// process error naming the exit `status` and the trimmed text the
    /// process wrote to its error stream.
    pub fn exit_result(success: bool, status: &str, stderr: &str) -> (r: Result<(), GeneratorError>)
        ensures
            success ==> r is Ok,
            !success ==> (r matches Err(GeneratorError::Process(m)) && m@
                == "generator exited with status "@ + status@ + ": "@ + trimmed(stderr@)),
    {
        if success {
            return Ok(());
        }
        let mut msg = String::from_str("generator exited with status ");
        msg.append(status);
        msg.append(": ");
        let detail = trim(stderr);
        msg.append(detail.as_str());
        Err(GeneratorError::Process(msg))
    }

    /// External generators control their own file naming: the extension is
    /// empty.
    pub fn extension(&self) -> (r: &str)
        ensures
            r@ == Seq::<char>::empty(),
    {
        proof {
            reveal_strlit("");
        }
        ""
    }
}

} // verus!
