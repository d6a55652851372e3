//! ibus, driven through its command line (`ibus engine [NAME]`): what the
//! outcome of a run of the command means.

use vstd::prelude::*;

use crate::error::{ErrorModel, ImSwitchError, platform_error};
use crate::text::{lemma_tokens_are_words, lossy_utf8, split_whitespace, texts, tokens, trim, trim_str, utf8_lossy};

verus! {

/// The outcome of a finished command.
pub struct CommandOutput {
    /// The command exited successfully.
    pub success: bool,
    /// What it wrote to standard output.
    pub stdout: Vec<u8>,
    /// What it wrote to standard error.
    pub stderr: Vec<u8>,
}

/// The result of `ibus engine`, given how the run went (`Err` holds the text
/// of the error that kept the command from running).
pub open spec fn spec_engine_query(run: Result<CommandOutput, String>) -> Result<Seq<char>, ErrorModel> {
    match run {
        Err(t) => Err(ErrorModel::Platform("ibus: failed to run command: "@ + t@)),
        Ok(o) => if !o.success {
            Err(ErrorModel::Platform("ibus: engine query failed: "@ + lossy_utf8(o.stderr@)))
        } else {
            Ok(trim(lossy_utf8(o.stdout@)))
        },
    }
}

/// The result of `ibus engine NAME`, given how the run went.
pub open spec fn spec_engine_switch(run: Result<CommandOutput, String>) -> Result<(), ErrorModel> {
    match run {
        Err(t) => Err(ErrorModel::Platform("ibus: failed to run command: "@ + t@)),
        Ok(o) => if !o.success {
            Err(ErrorModel::Platform("ibus: failed to set engine: "@ + lossy_utf8(o.stderr@)))
        } else {
            Ok(())
        },
    }
}

/// The current engine reported by a run of `ibus engine`: its standard output,
/// trimmed.
pub fn engine_query_outcome(run: Result<CommandOutput, String>) -> (r: Result<String, ImSwitchError>)
    ensures
        match r {
            Ok(s) => spec_engine_query(run) == Ok::<Seq<char>, ErrorModel>(s@),
            Err(e) => spec_engine_query(run) == Err::<Seq<char>, ErrorModel>(e@),
        },
{
    match run {
        Err(t) => Err(platform_error("ibus: failed to run command: ", t.as_str())),
        Ok(o) => {
            if !o.success {
                let detail = utf8_lossy(o.stderr.as_slice());
                Err(platform_error("ibus: engine query failed: ", detail.as_str()))
            } else {
                let out = utf8_lossy(o.stdout.as_slice());
                Ok(trim_str(out.as_str()))
            }
        },
    }
}

/// Whether a run of `ibus engine NAME` switched the engine.
pub fn engine_switch_outcome(run: Result<CommandOutput, String>) -> (r: Result<(), ImSwitchError>)
    ensures
        match r {
            Ok(_) => spec_engine_switch(run) == Ok::<(), ErrorModel>(()),
            Err(e) => spec_engine_switch(run) == Err::<(), ErrorModel>(e@),
        },
{
    match run {
        Err(t) => Err(platform_error("ibus: failed to run command: ", t.as_str())),
        Ok(o) => {
            if !o.success {
                let detail = utf8_lossy(o.stderr.as_slice());
                Err(platform_error("ibus: failed to set engine: ", detail.as_str()))
            } else {
                Ok(())
            }
        },
    }
}

/// The result of `ibus list-engine --name-only`, given how the run went: the
/// engine names it printed.
pub open spec fn spec_engine_list(run: Result<CommandOutput, String>) -> Result<
    Seq<Seq<char>>,
    ErrorModel,
> {
    match run {
        Err(t) => Err(ErrorModel::Platform("ibus: failed to run command: "@ + t@)),
        Ok(o) => if !o.success {
            Err(ErrorModel::Platform("ibus: failed to list engines: "@ + lossy_utf8(o.stderr@)))
        } else {
            Ok(tokens(lossy_utf8(o.stdout@)))
        },
    }
}

/// The engine names reported by a run of `ibus list-engine --name-only`.
pub fn engine_list_outcome(run: Result<CommandOutput, String>) -> (r: Result<
    Vec<String>,
    ImSwitchError,
>)
    ensures
        match r {
            Ok(v) => spec_engine_list(run) == Ok::<Seq<Seq<char>>, ErrorModel>(texts(v@))
                && forall|i: int| 0 <= i < v@.len() ==> (#[trigger] v@[i])@.len() > 0,
            Err(e) => spec_engine_list(run) == Err::<Seq<Seq<char>>, ErrorModel>(e@),
        },
{
    match run {
        Err(t) => Err(platform_error("ibus: failed to run command: ", t.as_str())),
        Ok(o) => {
            if !o.success {
                let detail = utf8_lossy(o.stderr.as_slice());
                Err(platform_error("ibus: failed to list engines: ", detail.as_str()))
            } else {
                let out = utf8_lossy(o.stdout.as_slice());
                let names = split_whitespace(out.as_str());
                proof {
                    lemma_tokens_are_words(out@);
                    assert forall|i: int| 0 <= i < names@.len() implies (#[trigger] names@[i])@.len()
                        > 0 by {
                        assert(texts(names@)[i] == names@[i]@);
                    }
                }
                Ok(names)
            }
        },
    }
}

} // verus!
