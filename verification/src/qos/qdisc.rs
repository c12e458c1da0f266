//! Queue discipline (qdisc) management: the `tc` invocations that install
//! fq_codel, CAKE, HTB, prio or pfifo_fast as an interface's root qdisc,
//! and how their outcome is read.

use vstd::prelude::*;

use crate::argv::{lit, push_lit, push_string, views};
use crate::config::{QdiscConfig, QdiscType};
use crate::error::CoreError;
use crate::text::{dec, dec_string, push_dec, push_str, seq_contains, str_contains};

verus! {

/// Plans queue discipline changes on network interfaces.
#[derive(Debug, Clone, Copy)]
pub struct QdiscManager;

impl Default for QdiscManager {
    fn default() -> (r: Self) {
        Self::new()
    }
}

/// The qdisc that `apply` installs for a configuration (fq_codel unless
/// the configuration names another).
pub open spec fn effective_qdisc(config: QdiscConfig) -> QdiscType {
    match config.qdisc {
        Some(q) => q,
        None => QdiscType::FqCodel,
    }
}

/// `tc` arguments that remove an interface's root qdisc.
pub open spec fn remove_args_spec(iface: Seq<char>) -> Seq<Seq<char>> {
    seq!["qdisc"@, "del"@, "dev"@, iface, "root"@]
}

/// The value of an optional setting, or its default.
pub open spec fn or_default(o: Option<u32>, d: u32) -> u32 {
    match o {
        Some(v) => v,
        None => d,
    }
}

/// Sixteen "0" entries (the prio band map).
pub open spec fn zeros16() -> Seq<Seq<char>> {
    Seq::new(16, |i: int| "0"@)
}

/// `tc` arguments that install the configured root qdisc on `iface`.
pub open spec fn apply_args_spec(iface: Seq<char>, config: QdiscConfig) -> Seq<Seq<char>> {
    let head = seq!["qdisc"@, "add"@, "dev"@, iface, "root"@];
    match effective_qdisc(config) {
        QdiscType::FqCodel => head + seq![
            "fq_codel"@,
            "limit"@,
            dec(or_default(config.limit, 10240) as nat),
            "target"@,
            dec(or_default(config.target_ms, 5) as nat) + "ms"@,
            "interval"@,
            dec(or_default(config.interval_ms, 100) as nat) + "ms"@,
            "ecn"@,
        ],
        QdiscType::Cake => head + seq!["cake"@, "autorate-ingress"@, "diffserv4"@, "nat"@] + match config.limit {
            Some(l) => seq!["limit"@, dec(l as nat)],
            None => Seq::empty(),
        },
        QdiscType::Htb => head + seq!["handle"@, "1:"@, "htb"@, "default"@, "30"@],
        QdiscType::Prio => head + seq!["handle"@, "1:"@, "prio"@, "bands"@, "3"@, "priomap"@]
            + zeros16(),
        QdiscType::PfifoFast => head + seq!["handle"@, "1:"@, "pfifo_fast"@],
    }
}

/// The name of a qdisc in failure messages.
pub open spec fn qdisc_label(q: QdiscType) -> Seq<char> {
    match q {
        QdiscType::FqCodel => "fq_codel"@,
        QdiscType::Cake => "CAKE"@,
        QdiscType::Htb => "HTB root"@,
        QdiscType::Prio => "prio"@,
        QdiscType::PfifoFast => "pfifo_fast"@,
    }
}

/// What came of running one `tc` command.
#[derive(Debug, Clone)]
pub enum TcOutcome {
    /// It ran and exited with success.
    Succeeded,
    /// It ran and failed; the text is its standard error.
    Failed(String),
    /// It could not be started; the text says why.
    NotRun(String),
}

/// How a removal goes on: an error only when `tc` could not be started;
/// otherwise `Ok(warn)`, where `warn` says whether a failure deserves a
/// warning (one that only says there was no qdisc does not).
pub open spec fn removal_result(outcome: TcOutcome) -> Result<bool, CoreError> {
    match outcome {
        TcOutcome::Succeeded => Ok(false),
        TcOutcome::Failed(stderr) => Ok(
            !(seq_contains(stderr@, "No such file"@) || seq_contains(stderr@, "does not exist"@)),
        ),
        TcOutcome::NotRun(e) => Err(CoreError::Internal(e)),
    }
}

impl QdiscManager {
    pub fn new() -> (r: Self) {
        QdiscManager
    }

    /// The qdisc type that `apply_args` installs.
    pub fn effective_type(&self, config: &QdiscConfig) -> (q: QdiscType)
        ensures
            q == effective_qdisc(*config),
    {
        match config.qdisc {
            Some(q) => q,
            None => QdiscType::FqCodel,
        }
    }

    /// `tc` arguments that remove the root qdisc of `interface` (the
    /// first step of applying a qdisc).
    pub fn remove_args(&self, interface: &str) -> (args: Vec<String>)
        ensures
            views(args@) == remove_args_spec(interface@),
    {
        let mut args: Vec<String> = Vec::new();
        push_lit(&mut args, "qdisc");
        push_lit(&mut args, "del");
        push_lit(&mut args, "dev");
        push_lit(&mut args, interface);
        push_lit(&mut args, "root");
        assert(views(args@) =~= remove_args_spec(interface@));
        args
    }

    /// Whether a failed removal only says that there was no qdisc to
    /// remove ("No such file" or "does not exist"), which is harmless.
    pub fn removal_failure_is_benign(&self, stderr: &str) -> (b: bool)
        ensures
            b == (seq_contains(stderr@, "No such file"@) || seq_contains(
                stderr@,
                "does not exist"@,
            )),
    {
        str_contains(stderr, "No such file") || str_contains(stderr, "does not exist")
    }

    /// `tc` arguments that install the configured root qdisc on
    /// `interface`: fq_codel (limit 10240, target 5 ms, interval 100 ms
    /// unless configured, with ECN), CAKE (with the configured limit, if
    /// any), HTB, prio with three bands, or pfifo_fast.
    pub fn apply_args(&self, interface: &str, config: &QdiscConfig) -> (args: Vec<String>)
        ensures
            views(args@) == apply_args_spec(interface@, *config),
    {
        let mut args: Vec<String> = Vec::new();
        push_lit(&mut args, "qdisc");
        push_lit(&mut args, "add");
        push_lit(&mut args, "dev");
        push_lit(&mut args, interface);
        push_lit(&mut args, "root");
        let ghost head = views(args@);
        match self.effective_type(config) {
            QdiscType::FqCodel => {
                let limit: u32 = match config.limit {
                    Some(l) => l,
                    None => 10240,
                };
                let target: u32 = match config.target_ms {
                    Some(t) => t,
                    None => 5,
                };
                let interval: u32 = match config.interval_ms {
                    Some(t) => t,
                    None => 100,
                };
                push_lit(&mut args, "fq_codel");
                push_lit(&mut args, "limit");
                push_string(&mut args, dec_string(limit as u64));
                push_lit(&mut args, "target");
                let mut t = dec_string(target as u64);
                push_str(&mut t, "ms");
                push_string(&mut args, t);
                push_lit(&mut args, "interval");
                let mut iv = dec_string(interval as u64);
                push_str(&mut iv, "ms");
                push_string(&mut args, iv);
                push_lit(&mut args, "ecn");
            },
            QdiscType::Cake => {
                push_lit(&mut args, "cake");
                push_lit(&mut args, "autorate-ingress");
                push_lit(&mut args, "diffserv4");
                push_lit(&mut args, "nat");
                match config.limit {
                    Some(l) => {
                        push_lit(&mut args, "limit");
                        push_string(&mut args, dec_string(l as u64));
                    },
                    None => {},
                }
            },
            QdiscType::Htb => {
                push_lit(&mut args, "handle");
                push_lit(&mut args, "1:");
                push_lit(&mut args, "htb");
                push_lit(&mut args, "default");
                push_lit(&mut args, "30");
            },
            QdiscType::Prio => {
                push_lit(&mut args, "handle");
                push_lit(&mut args, "1:");
                push_lit(&mut args, "prio");
                push_lit(&mut args, "bands");
                push_lit(&mut args, "3");
                push_lit(&mut args, "priomap");
                let ghost before = views(args@);
                let mut k: usize = 0;
                while k < 16
                    invariant
                        k <= 16,
                        views(args@) == before + Seq::new(k as nat, |i: int| "0"@),
                    decreases 16 - k,
                {
                    push_lit(&mut args, "0");
                    k = k + 1;
                    assert(views(args@) =~= before + Seq::new(k as nat, |i: int| "0"@));
                }
            },
            QdiscType::PfifoFast => {
                push_lit(&mut args, "handle");
                push_lit(&mut args, "1:");
                push_lit(&mut args, "pfifo_fast");
            },
        }
        assert(views(args@) =~= apply_args_spec(interface@, *config));
        args
    }

    /// What the removal of the root qdisc (`remove_args`) comes to: a
    /// failed removal never fails; only a `tc` that could not be started
    /// does. `Ok(true)` asks for a warning.
    pub fn removal_outcome(&self, outcome: &TcOutcome) -> (r: Result<bool, CoreError>)
        ensures
            r == removal_result(*outcome),
    {
        match outcome {
            TcOutcome::Succeeded => Ok(false),
            TcOutcome::Failed(stderr) => Ok(!self.removal_failure_is_benign(stderr.as_str())),
            TcOutcome::NotRun(e) => Err(CoreError::Internal(e.clone())),
        }
    }

    /// What applying a qdisc comes to, once the removal went through
    /// (`removal_outcome` gave `Ok`) and the install (`apply_args`) ran:
    /// success when it succeeded, `apply_failure` with its standard error
    /// when it failed, and the error when `tc` could not be started.
    pub fn install_outcome(&self, interface: &str, config: &QdiscConfig, outcome: &TcOutcome) -> (r: Result<
        (),
        CoreError,
    >)
        ensures
            match *outcome {
                TcOutcome::Succeeded => r is Ok,
                TcOutcome::Failed(stderr) => (r matches Err(CoreError::Internal(m)) && m@ == "Failed to apply "@
                    + qdisc_label(effective_qdisc(*config)) + " on "@ + interface@ + ": "@ + stderr@),
                TcOutcome::NotRun(e) => r == Err::<(), CoreError>(CoreError::Internal(e)),
            },
    {
        match outcome {
            TcOutcome::Succeeded => Ok(()),
            TcOutcome::Failed(stderr) => Err(self.apply_failure(self.effective_type(config), interface, stderr.as_str())),
            TcOutcome::NotRun(e) => Err(CoreError::Internal(e.clone())),
        }
    }

    /// The error reported when installing the qdisc failed:
    /// "Failed to apply <qdisc> on <interface>: <stderr>".
    pub fn apply_failure(&self, qdisc: QdiscType, interface: &str, stderr: &str) -> (e: CoreError)
        ensures
            e matches CoreError::Internal(m) && m@ == "Failed to apply "@ + qdisc_label(qdisc)
                + " on "@ + interface@ + ": "@ + stderr@,
    {
        let mut m = String::new();
        push_str(&mut m, "Failed to apply ");
        let label = match qdisc {
            QdiscType::FqCodel => "fq_codel",
            QdiscType::Cake => "CAKE",
            QdiscType::Htb => "HTB root",
            QdiscType::Prio => "prio",
            QdiscType::PfifoFast => "pfifo_fast",
        };
        push_str(&mut m, label);
        push_str(&mut m, " on ");
        push_str(&mut m, interface);
        push_str(&mut m, ": ");
        push_str(&mut m, stderr);
        CoreError::Internal(m)
    }
}

} // verus!
