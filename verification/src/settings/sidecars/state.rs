use super::error::Error;
use vstd::prelude::*;
use vstd::string::StringExecFns;

verus! {

/// One message received from a supervised process, as the shell layer
/// reports it: a line of output on either stream, a failure, its
/// termination, or anything the shell layer may add later.
#[derive(Debug)]
pub enum CommandEvent {
    Stdout(Vec<u8>),
    Stderr(Vec<u8>),
    Failure(String),
    Terminated { code: Option<i32>, signal: Option<i32> },
    Other,
}

/// The supervisor: which sidecar processes are running, by name, at most
/// one per name. Spawning the real process, relaying its messages and
/// writing to its stdin belong to the embedding runtime; this type decides
/// what every supervision command does.
#[derive(Debug)]
pub struct SidecarsState {
    pub sidecars: Vec<String>,
}

/// Some running sidecar carries this name.
pub open spec fn has_sidecar(s: Seq<String>, name: Seq<char>) -> bool {
    exists|i: int| 0 <= i < s.len() && s[i]@ == name
}

/// The position of the sidecar carrying this name; meaningful only under
/// `has_sidecar`, and unique when names are pairwise distinct.
pub open spec fn sidecar_index(s: Seq<String>, name: Seq<char>) -> int {
    choose|i: int| 0 <= i < s.len() && s[i]@ == name
}

impl SidecarsState {
    /// At most one running process per name.
    pub open spec fn wf(self) -> bool {
        forall|i: int, j: int|
            0 <= i < j < self.sidecars@.len() ==> self.sidecars@[i]@ != self.sidecars@[j]@
    }

    /// An empty supervisor: the caller then spawns its default sidecars one
    /// by one, exactly as a spawn command would.
    pub fn new() -> (r: Self)
        ensures
            r.sidecars@.len() == 0,
            r.wf(),
    {
        SidecarsState { sidecars: Vec::new() }
    }

    /// Record that `sidecar` is to run, or fail with `SidecarAlreadyStarted`
    /// and leave the supervisor untouched. The caller spawns the process and
    /// begins relaying its messages only on success.
    pub fn spawn_sidecar(&mut self, sidecar: &String) -> (r: Result<(), Error>)
        requires
            old(self).wf(),
        ensures
            final(self).wf(),
            has_sidecar(old(self).sidecars@, sidecar@) ==> (r matches Err(e) && e matches
                Error::SidecarAlreadyStarted(n) && n@ == sidecar@) && final(self).sidecars@ == old(self).sidecars@,
            !has_sidecar(old(self).sidecars@, sidecar@) ==> r == Ok::<(), Error>(()) && final(self).sidecars@ == old(self).sidecars@.push(final(self).sidecars@.last()) && final(self).sidecars@.last()@ == sidecar@,
    {
        let n = self.sidecars.len();
        let mut j: usize = 0;
        while j < n
            invariant
                n == self.sidecars@.len(),
                j <= n,
                self.sidecars@ == old(self).sidecars@,
                self.wf(),
                forall|k: int| 0 <= k < j ==> self.sidecars@[k]@ != sidecar@,
            decreases n - j,
        {
            if self.sidecars[j] == *sidecar {
                return Err(Error::SidecarAlreadyStarted(sidecar.clone()));
            }
            j += 1;
        }
        self.sidecars.push(sidecar.clone());
        proof {
            assert forall|a: int, b: int|
                0 <= a < b < self.sidecars@.len() implies self.sidecars@[a]@
                != self.sidecars@[b]@ by {
                if b == self.sidecars@.len() - 1 {
                    assert(old(self).sidecars@[a]@ != sidecar@);
                } else {
                    assert(old(self).sidecars@[a]@ != old(self).sidecars@[b]@);
                }
            }
        }
        Ok(())
    }

    /// Drop `sidecar` from the running set, or fail with `SidecarNotFound`
    /// and leave the supervisor untouched. The caller then sends the
    /// shutdown command to the process's stdin.
    pub fn despawn_sidecar(&mut self, sidecar: &String) -> (r: Result<(), Error>)
        requires
            old(self).wf(),
        ensures
            final(self).wf(),
            !has_sidecar(old(self).sidecars@, sidecar@) ==> (r matches Err(e) && e matches
                Error::SidecarNotFound(n) && n@ == sidecar@) && final(self).sidecars@ == old(self).sidecars@,
            has_sidecar(old(self).sidecars@, sidecar@) ==> r == Ok::<(), Error>(()) && final(self).sidecars@ == old(self).sidecars@.remove(
                sidecar_index(old(self).sidecars@, sidecar@),
            ) && !has_sidecar(final(self).sidecars@, sidecar@),
    {
        let n = self.sidecars.len();
        let mut j: usize = 0;
        while j < n
            invariant
                n == self.sidecars@.len(),
                j <= n,
                self.sidecars@ == old(self).sidecars@,
                self.wf(),
                forall|k: int| 0 <= k < j ==> self.sidecars@[k]@ != sidecar@,
            decreases n - j,
        {
            if self.sidecars[j] == *sidecar {
                let ghost pre = self.sidecars@;
                proof {
                    assert(pre[j as int]@ == sidecar@);
                    let gi = sidecar_index(pre, sidecar@);
                    assert(0 <= gi < pre.len() && pre[gi]@ == sidecar@);
                    if gi < j as int {
                        assert(pre[gi]@ != pre[j as int]@);
                    }
                    if (j as int) < gi {
                        assert(pre[j as int]@ != pre[gi]@);
                    }
                }
                self.sidecars.remove(j);
                proof {
                    let i = j as int;
                    assert forall|a: int, b: int|
                        0 <= a < b < self.sidecars@.len() implies self.sidecars@[a]@
                        != self.sidecars@[b]@ by {
                        assert(self.sidecars@[a] == if a < i {
                            pre[a]
                        } else {
                            pre[a + 1]
                        });
                        assert(self.sidecars@[b] == if b < i {
                            pre[b]
                        } else {
                            pre[b + 1]
                        });
                    }
                    assert forall|k: int| 0 <= k < self.sidecars@.len() implies self.sidecars@[k]@
                        != sidecar@ by {
                        assert(self.sidecars@[k] == if k < i {
                            pre[k]
                        } else {
                            pre[k + 1]
                        });
                        if k >= i {
                            assert(pre[i]@ != pre[k + 1]@);
                        }
                    }
                }
                return Ok(());
            }
            j += 1;
        }
        Err(Error::SidecarNotFound(sidecar.clone()))
    }
}

/// The control message a supervised process shuts itself down on when it
/// arrives on its stdin.
pub fn shutdown_command() -> (r: &'static str)
    ensures
        r@ == "sidecar shutdown\n"@,
{
    "sidecar shutdown\n"
}

/// Which outbound notification one message from a supervised process turns
/// into: the name of the notification for the lines, failures and
/// terminations that are relayed, and nothing for anything else.
pub fn event_topic(event: &CommandEvent) -> (r: Option<String>)
    ensures
        match event {
            CommandEvent::Stdout(_) => (r matches Some(t) && t@ == "sidecar-stdout"@),
            CommandEvent::Stderr(_) => (r matches Some(t) && t@ == "sidecar-stderr"@),
            CommandEvent::Failure(_) => (r matches Some(t) && t@ == "sidecar-error"@),
            CommandEvent::Terminated { .. } => (r matches Some(t) && t@ == "sidecar-terminated"@),
            CommandEvent::Other => r is None,
        },
{
    match event {
        CommandEvent::Stdout(_) => Some(String::from_str("sidecar-stdout")),
        CommandEvent::Stderr(_) => Some(String::from_str("sidecar-stderr")),
        CommandEvent::Failure(_) => Some(String::from_str("sidecar-error")),
        CommandEvent::Terminated { .. } => Some(String::from_str("sidecar-terminated")),
        CommandEvent::Other => None,
    }
}

} // verus!
