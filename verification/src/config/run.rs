//! A command to run, and what a caller needs to start it.

use vstd::prelude::*;
use super::serializer::RunConfigSerializer;
use super::EventEnvMap;
use crate::error::{ConfigError, Error, Selector};
use crate::event::EnvValue;
use crate::run::{cross_shell, shell_words, words_view};

verus! {

/// A command: its words, the names of its variables, and whether it is
/// waited for.
#[derive(Debug, Clone)]
pub struct RunConfig {
    pub args: Vec<String>,
    pub envconf: Option<EventEnvMap>,
    pub detach: bool,
}

/// One start of a command: its words, the variables to set in order, and
/// whether the caller goes on without waiting for its end.
#[derive(Debug)]
pub struct Invocation<'a> {
    pub args: &'a Vec<String>,
    pub env: Vec<(String, EnvValue)>,
    pub detach: bool,
}

impl RunConfigSerializer {
    /// The fault of the command, if it has one: it says in no way what to
    /// run, having neither `args` nor `cmd`, or it says so in two ways,
    /// having both.
    pub open spec fn fault(&self) -> Option<Error> {
        if self.args is None && self.cmd is None {
            Some(Error::Config(ConfigError::RunMissingArgs))
        } else if self.args is Some && self.cmd is Some {
            Some(Error::IncompatibleArgs(Selector::Args, Selector::Cmd))
        } else {
            None
        }
    }

    /// Whether `c` is the command that `self` describes: its `args` where it
    /// has them, else its `cmd` wrapped in the shell of the platform;
    /// `detach` off unless `self` turns it on.
    pub open spec fn describes(&self, c: RunConfig, windows: bool) -> bool {
        &&& c.envconf == self.envconf
        &&& c.detach == (self.detach == Some(true))
        &&& self.args matches Some(a) ==> c.args == a
        &&& self.args is None ==> self.cmd is Some && words_view(c.args@) == shell_words(
            self.cmd.unwrap()@,
            windows,
        )
    }
}

/// Whether `cs` holds, in order, the commands that `vs` describe.
pub open spec fn all_described(vs: Seq<RunConfigSerializer>, cs: Seq<RunConfig>, windows: bool) -> bool {
    &&& cs.len() == vs.len()
    &&& forall|i: int| 0 <= i < vs.len() ==> (#[trigger] vs[i]).describes(cs[i], windows)
}

/// The fault of the first command of `vs` that has one.
pub open spec fn first_run_fault(vs: Seq<RunConfigSerializer>) -> Option<Error>
    decreases vs.len(),
{
    if vs.len() == 0 {
        None
    } else {
        match first_run_fault(vs.drop_last()) {
            Some(e) => Some(e),
            None => vs.last().fault(),
        }
    }
}

/// A fault among the first `k` commands is the fault of the whole list.
proof fn lemma_run_fault_stays(vs: Seq<RunConfigSerializer>, k: int)
    requires
        0 <= k <= vs.len(),
        first_run_fault(vs.subrange(0, k)) is Some,
    ensures
        first_run_fault(vs) == first_run_fault(vs.subrange(0, k)),
    decreases vs.len() - k,
{
    if k < vs.len() {
        let next = vs.subrange(0, k + 1);
        assert(next.drop_last() == vs.subrange(0, k));
        lemma_run_fault_stays(vs, k + 1);
    } else {
        assert(vs.subrange(0, k) == vs);
    }
}

/// The commands that `vs` describe, in order, or the fault of the first
/// command that has one.
pub fn check_runs(vs: Vec<RunConfigSerializer>, windows: bool) -> (r: Result<Vec<RunConfig>, Error>)
    ensures
        match r {
            Ok(cs) => first_run_fault(vs@) is None && all_described(vs@, cs@, windows),
            Err(e) => first_run_fault(vs@) == Some(e),
        },
{
    broadcast use vstd::std_specs::vec::axiom_spec_into_iter;

    let ghost all = vs@;
    let mut out: Vec<RunConfig> = Vec::new();
    for v in it: vs.into_iter()
        invariant
            it.seq() == all,
            out@.len() == it.index(),
            first_run_fault(all.subrange(0, it.index())) is None,
            forall|i: int| 0 <= i < it.index() ==> (#[trigger] all[i]).describes(out@[i], windows),
    {
        proof {
            let now = all.subrange(0, it.index() + 1);
            assert(now.drop_last() == all.subrange(0, it.index()));
            assert(now.last() == v);
        }
        match RunConfig::try_from(v, windows) {
            Ok(c) => {
                out.push(c);
            },
            Err(e) => {
                proof {
                    lemma_run_fault_stays(all, it.index() + 1);
                }
                return Err(e);
            },
        }
    }
    assert(all.subrange(0, all.len() as int) == all);
    Ok(out)
}

impl RunConfig {
    /// The command that `v` describes. It is there exactly where `v` has
    /// one of `args` and `cmd` and not the other; a `v` with neither is
    /// refused as missing its words, one with both as holding two keys that
    /// cannot stand together.
    pub fn try_from(v: RunConfigSerializer, windows: bool) -> (r: Result<RunConfig, Error>)
        ensures
            match r {
                Ok(c) => v.fault() is None && v.describes(c, windows),
                Err(e) => v.fault() == Some(e),
            },
    {
        let args = match (v.args, v.cmd) {
            (Some(a), None) => a,
            (None, Some(cmd)) => cross_shell(cmd.as_str(), windows),
            (None, None) => {
                return Err(Error::Config(ConfigError::RunMissingArgs));
            },
            (Some(_), Some(_)) => {
                return Err(Error::IncompatibleArgs(Selector::Args, Selector::Cmd));
            },
        };
        let detach = match v.detach {
            Some(d) => d,
            None => false,
        };
        Ok(RunConfig { args, envconf: v.envconf, detach })
    }

    /// One start of the command with the variables `env`.
    pub fn run(&self, env: Vec<(String, EnvValue)>) -> (r: Invocation<'_>)
        ensures
            *r.args == self.args,
            r.env == env,
            r.detach == self.detach,
    {
        Invocation { args: &self.args, env, detach: self.detach }
    }
}

} // verus!
