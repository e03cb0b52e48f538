//! The job-result data model.
//!
//! Each input line becomes one job: one invocation of the fixed command with
//! the line's payload as its standard input. [`SubProcessResult`] is what
//! such an invocation leaves behind — whether it succeeded, the payload it
//! was fed, the output it was captured with, and the command line it ran —
//! and [`SubProcessResult::error_msg`] is the diagnostic the run aborts with
//! when a job fails and failures are not suppressed.

use crate::text::{bytes_to_string_lossy, lossy_chars_of};
use vstd::prelude::*;
use vstd::string::StringExecFns;

verus! {

/// What one finished subprocess execution left behind.
///
/// `output` holds the captured standard output when `success`, the captured
/// standard error otherwise. The same command line is reused for every job
/// of a run.
pub struct SubProcessResult {
    /// Whether the subprocess exited with status zero.
    pub success: bool,
    /// The payload that was written to the subprocess's standard input.
    pub input: Vec<u8>,
    /// Captured standard output on success, captured standard error on
    /// failure.
    pub output: Vec<u8>,
    /// The command line the subprocess ran: program name, then arguments.
    pub cmd: Vec<String>,
}

/// Mathematical shape of a [`SubProcessResult`].
pub ghost struct SubProcessResultView {
    /// Whether the subprocess exited with status zero.
    pub success: bool,
    /// The payload fed to the subprocess.
    pub input: Seq<u8>,
    /// The captured output.
    pub output: Seq<u8>,
    /// The command line, one sequence of characters per word.
    pub cmd: Seq<Seq<char>>,
}

impl View for SubProcessResult {
    type V = SubProcessResultView;

    open spec fn view(&self) -> SubProcessResultView {
        SubProcessResultView {
            success: self.success,
            input: self.input@,
            output: self.output@,
            cmd: self.cmd.deep_view(),
        }
    }
}

impl DeepView for SubProcessResult {
    type V = SubProcessResultView;

    open spec fn deep_view(&self) -> SubProcessResultView {
        self.view()
    }
}

/// The command-line words joined by `sep`, after the first.
pub open spec fn join_rest(parts: Seq<Seq<char>>, sep: Seq<char>) -> Seq<char>
    decreases parts.len(),
{
    if parts.len() == 0 {
        Seq::empty()
    } else {
        sep + parts.first() + join_rest(parts.drop_first(), sep)
    }
}

/// The sequences `parts` joined by the separator `sep`.
pub open spec fn join_with(parts: Seq<Seq<char>>, sep: Seq<char>) -> Seq<char> {
    if parts.len() == 0 {
        Seq::empty()
    } else {
        parts.first() + join_rest(parts.drop_first(), sep)
    }
}

/// The diagnostic for a job whose subprocess exited non-zero: the payload
/// that triggered it, the command line, and the captured error output.
pub open spec fn error_msg_spec(r: SubProcessResultView) -> Seq<char> {
    "sub process exit code is not 0\ninput:\n"@ + lossy_chars_of(r.input)
        + "\n\ncommand:\n\t"@ + join_with(r.cmd, " "@) + "\n\noutput:\n\t"@ + lossy_chars_of(
        r.output,
    )
}

/// Joins the command-line words with single spaces.
fn join_command(parts: &Vec<String>) -> (r: String)
    ensures
        r@ == join_with(parts.deep_view(), " "@),
{
    let mut r = String::new();
    if parts.len() == 0 {
        return r;
    }
    r.append(parts[0].as_str());
    proof {
        assert(parts.deep_view()[0] == parts@[0]@);
    }
    let mut i: usize = 1;
    while i < parts.len()
        invariant
            1 <= i <= parts@.len(),
            parts@.len() > 0,
            join_with(parts.deep_view(), " "@) == r@ + join_rest(
                parts.deep_view().skip(i as int),
                " "@,
            ),
        decreases parts@.len() - i,
    {
        r.append(" ");
        r.append(parts[i].as_str());
        proof {
            let pv = parts.deep_view();
            assert(pv[i as int] == parts@[i as int]@);
            assert(pv.skip(i as int).first() == pv[i as int]);
            assert(pv.skip(i as int).drop_first() =~= pv.skip(i as int + 1));
        }
        i = i + 1;
    }
    proof {
        let pv = parts.deep_view();
        assert(pv.skip(parts@.len() as int).len() == 0);
        assert(r@ + Seq::<char>::empty() =~= r@);
    }
    r
}

impl SubProcessResult {
    /// Builds the record of one finished subprocess execution: the captured
    /// standard output is kept when the exit status was zero, the captured
    /// standard error otherwise.
    pub fn from_capture(
        success: bool,
        stdout: Vec<u8>,
        stderr: Vec<u8>,
        input: Vec<u8>,
        cmd: Vec<String>,
    ) -> (r: SubProcessResult)
        ensures
            r@.success == success,
            r@.output == if success {
                stdout@
            } else {
                stderr@
            },
            r@.input == input@,
            r@.cmd == cmd.deep_view(),
    {
        let output = if success {
            stdout
        } else {
            stderr
        };
        SubProcessResult { success, input, output, cmd }
    }

    /// The diagnostic message for a failed job.
    pub fn error_msg(self) -> (msg: String)
        ensures
            msg@ == error_msg_spec(self@),
    {
        let mut msg = String::new();
        msg.append("sub process exit code is not 0\ninput:\n");
        let input_text = bytes_to_string_lossy(self.input.as_slice());
        msg.append(input_text.as_str());
        msg.append("\n\ncommand:\n\t");
        let command_text = join_command(&self.cmd);
        msg.append(command_text.as_str());
        msg.append("\n\noutput:\n\t");
        let output_text = bytes_to_string_lossy(self.output.as_slice());
        msg.append(output_text.as_str());
        msg
    }
}

} // verus!
