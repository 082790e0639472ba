//! WASI preview 2 context construction.
//!
//! [`Wasi`] says what the preview 2 context of one tenant is made of, from
//! its [`Sandbox`]: stdio inheritance, tenant environment, and read-only
//! preopens.

use vstd::prelude::*;
use vstd::string::*;

use crate::error::{Error, ErrorView};
use crate::text::decimal_text;

pub mod sandbox;

pub use sandbox::{MemFs, Sandbox, SandboxLimits};

verus! {

/// The WASI preview 2 host context for a single tenant.
#[derive(Debug)]
pub struct Wasi {
    /// Whether the guest writes to the host's standard streams.
    pub inherit_stdio: bool,
    /// The environment of the guest.
    pub env: Vec<(String, String)>,
    /// Read-only host directories, `(guest_path, host_root)`.
    pub preopens: Vec<(String, String)>,
}

/// What became of opening a host directory.
#[derive(Debug)]
pub enum DirProbe {
    /// Its metadata could not be read.
    Unreadable(String),
    /// It is something other than a directory.
    NotDirectory,
    /// It could not be opened.
    Unopened(String),
    /// It is open.
    Opened,
}

impl Wasi {
    /// The preview 2 context for `sandbox`: the host's standard streams, the
    /// tenant id and the scratch quota as environment, and the preopens of
    /// the sandbox in order.
    pub fn new(sandbox: &Sandbox) -> (w: Wasi)
        ensures
            w.inherit_stdio,
            sandbox::preopen_views(w.env@) == seq![
                ("EMBER_TENANT"@, sandbox.tenant@),
                (
                    "EMBER_SCRATCH_QUOTA"@,
                    crate::text::decimal(sandbox.limits@.memfs_quota_bytes as nat),
                ),
            ],
            sandbox::preopen_views(w.preopens@) == sandbox::preopen_views(
                sandbox.readonly_preopens@,
            ),
    {
        let mut env: Vec<(String, String)> = Vec::new();
        env.push(("EMBER_TENANT".to_owned(), sandbox.tenant.to_string()));
        env.push(
            (
                "EMBER_SCRATCH_QUOTA".to_owned(),
                decimal_text(sandbox.limits.memfs_quota_bytes as u128),
            ),
        );
        proof {
            assert(sandbox::preopen_views(env@) =~= seq![
                ("EMBER_TENANT"@, sandbox.tenant@),
                (
                    "EMBER_SCRATCH_QUOTA"@,
                    crate::text::decimal(sandbox.limits@.memfs_quota_bytes as nat),
                ),
            ]);
        }
        let ghost all = sandbox::preopen_views(sandbox.readonly_preopens@);
        let mut preopens: Vec<(String, String)> = Vec::new();
        let mut i: usize = 0;
        while i < sandbox.readonly_preopens.len()
            invariant
                i <= sandbox.readonly_preopens@.len(),
                all == sandbox::preopen_views(sandbox.readonly_preopens@),
                sandbox::preopen_views(preopens@) == all.take(i as int),
            decreases sandbox.readonly_preopens@.len() - i,
        {
            let ghost before = sandbox::preopen_views(preopens@);
            let entry: &(String, String) = &sandbox.readonly_preopens[i];
            preopens.push((entry.0.clone(), entry.1.clone()));
            i = i + 1;
            proof {
                assert(sandbox::preopen_views(preopens@) =~= before.push(all[i - 1]));
                assert(all.take(i as int) =~= all.take(i - 1).push(all[i - 1]));
            }
        }
        proof {
            assert(all.take(i as int) =~= all);
        }
        Wasi { inherit_stdio: true, env, preopens }
    }

    /// Decide on a host directory that is to be preopened. A read-only handle
    /// is a deliberate choice: tenants get visibility, not mutation, of host
    /// data.
    pub fn admit_dir(root: &str, probe: DirProbe) -> (r: Result<(), Error>)
        ensures
            crate::error::outcome(r) == (match probe {
                DirProbe::Unreadable(reason) => Err(
                    ErrorView::Config("preopen `"@ + root@ + "` unreadable: "@ + reason@),
                ),
                DirProbe::NotDirectory => Err(
                    ErrorView::Config("preopen `"@ + root@ + "` is not a directory"@),
                ),
                DirProbe::Unopened(reason) => Err(
                    ErrorView::Config("preopen `"@ + root@ + "` open failed: "@ + reason@),
                ),
                DirProbe::Opened => Ok(()),
            }),
    {
        match probe {
            DirProbe::Unreadable(reason) => Err(
                Error::Config(
                    "preopen `".to_owned().concat(root).concat("` unreadable: ").concat(
                        reason.as_str(),
                    ),
                ),
            ),
            DirProbe::NotDirectory => Err(
                Error::Config(
                    "preopen `".to_owned().concat(root).concat("` is not a directory"),
                ),
            ),
            DirProbe::Unopened(reason) => Err(
                Error::Config(
                    "preopen `".to_owned().concat(root).concat("` open failed: ").concat(
                        reason.as_str(),
                    ),
                ),
            ),
            DirProbe::Opened => Ok(()),
        }
    }

    /// The error for a directory that the context would not take at
    /// `guest_path`.
    pub fn preopen_failed(guest_path: &str, reason: &str) -> (e: Error)
        ensures
            e@ == ErrorView::Config("preopen `"@ + guest_path@ + "` failed: "@ + reason@),
    {
        Error::Config(
            "preopen `".to_owned().concat(guest_path).concat("` failed: ").concat(reason),
        )
    }
}

} // verus!
