//! Structured output of one remote command.

use vstd::prelude::*;
use vstd::string::StringExecFns;

verus! {

/// Output captured from one SSH command: decoded stdout and stderr text
/// and the integer exit status reported by the remote side.
#[derive(Debug, Clone)]
pub struct CommandOutput {
    pub stdout: String,
    pub stderr: String,
    pub exit_code: u32,
}

impl CommandOutput {
    /// The combined text of a command's two streams: stdout when stderr is
    /// empty, stderr when stdout is empty, otherwise stdout, a newline and
    /// stderr. Some remote tools write their primary output to stderr, so
    /// both streams are kept.
    pub open spec fn spec_combined(self) -> Seq<char> {
        if self.stderr@.len() == 0 {
            self.stdout@
        } else if self.stdout@.len() == 0 {
            self.stderr@
        } else {
            self.stdout@ + seq!['\n'] + self.stderr@
        }
    }

    /// A command succeeded exactly when its exit status is 0. A nonzero
    /// exit status is data, never an error of the execution core.
    pub fn success(&self) -> (r: bool)
        ensures
            r == (self.exit_code == 0),
    {
        self.exit_code == 0
    }

    /// Combined output of both streams; see [`Self::spec_combined`].
    pub fn combined(&self) -> (r: String)
        ensures
            r@ == self.spec_combined(),
    {
        if self.stderr.as_str().is_empty() {
            self.stdout.clone()
        } else if self.stdout.as_str().is_empty() {
            self.stderr.clone()
        } else {
            let with_newline = self.stdout.clone().concat("\n");
            proof {
                reveal_strlit("\n");
                assert("\n"@ =~= seq!['\n']);
            }
            let r = with_newline.concat(self.stderr.as_str());
            proof {
                assert(r@ =~= self.spec_combined());
            }
            r
        }
    }
}

} // verus!
