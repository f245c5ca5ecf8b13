//! The relay's configuration: the command to run as the managed process,
//! the quiet-period duration in milliseconds, and the environment variables
//! to set on it, a mapping with unique names. The configuration is loaded
//! once, before the relay starts, and never changes afterwards.

use vstd::prelude::*;

verus! {

/// No two entries bind the same name.
pub open spec fn env_keys_unique(envs: Seq<(String, String)>) -> bool {
    forall|i: int, j: int| 0 <= i < j < envs.len() ==> envs[i].0@ != envs[j].0@
}

/// The configuration shared by all session handling.
pub struct Config {
    /// The executable to run as the managed process.
    pub command: String,
    /// The quiet period, in milliseconds, that delimits response batches.
    pub response_timeout: u32,
    /// Environment variables applied to the managed process.
    pub env_vars: Vec<(String, String)>,
}

impl Config {
    /// The environment mapping is well formed: its names are unique.
    pub open spec fn wf(&self) -> bool {
        env_keys_unique(self.env_vars@)
    }

    /// The configuration used when none was loaded: run `/bin/sh` with a
    /// quiet period of 100 ms and no extra environment.
    pub fn fallback() -> (c: Config)
        ensures
            c.wf(),
            c.command@ == "/bin/sh"@,
            c.response_timeout == 100,
            c.env_vars@.len() == 0,
    {
        Config { command: "/bin/sh".to_owned(), response_timeout: 100, env_vars: Vec::new() }
    }

    /// Builds a configuration from loaded entries. Succeeds exactly when
    /// the environment names are unique; a duplicated name is rejected.
    pub fn from_entries(command: String, response_timeout: u32, entries: Vec<(String, String)>)
        -> (r: Option<Config>)
        ensures
            (match r {
                Some(c) => env_keys_unique(entries@) && c.wf() && c.command@ == command@
                    && c.response_timeout == response_timeout && c.env_vars@ == entries@,
                None => !env_keys_unique(entries@),
            }),
    {
        let n = entries.len();
        let mut i: usize = 0;
        while i < n
            invariant
                n == entries@.len(),
                0 <= i <= n,
                forall|p: int, q: int| 0 <= p < q < n && p < i ==> entries@[p].0@ != entries@[q].0@,
            decreases n - i,
        {
            let mut j: usize = i + 1;
            while j < n
                invariant
                    n == entries@.len(),
                    0 <= i < j <= n,
                    forall|q: int| i < q < j ==> entries@[i as int].0@ != entries@[q].0@,
                decreases n - j,
            {
                if entries[i].0 == entries[j].0 {
                    proof {
                        assert(entries@[i as int].0@ == entries@[j as int].0@);
                    }
                    return None;
                }
                j = j + 1;
            }
            i = i + 1;
        }
        Some(Config { command, response_timeout, env_vars: entries })
    }
}

} // verus!
