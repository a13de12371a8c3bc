//! The shared state of one running sandbox, the unique-name scheme for
//! new sandboxes, and the acceptance of the engine's creation output.

use vstd::prelude::*;

use crate::Error;
use crate::addr::Ipv4Addr;
use crate::commands;
use crate::output::{
    ExitStatus, Output, checked, command_failure_message, utf8_decode,
};
use crate::profile::Implementation;
use crate::text::{dec_digits, dec_u64, lemma_digits_val_of_dec, trim_newlines};

verus! {

/// Counter of sandboxes created so far by this process. Combined with
/// the process id it makes every sandbox name unique, across threads and
/// across concurrently running processes.
pub struct ContainerCounter {
    pub count: usize,
}

impl ContainerCounter {
    pub fn new() -> (c: ContainerCounter)
        ensures
            c.count == 0,
    {
        ContainerCounter { count: 0 }
    }
}

/// Hands out the next value of the monotonically increasing counter:
/// every call returns a value no later call ever returns again.
pub fn container_count(counter: &mut ContainerCounter) -> (r: usize)
    requires
        old(counter).count < usize::MAX,
    ensures
        r == old(counter).count,
        final(counter).count == old(counter).count + 1,
{
    let r = counter.count;
    counter.count = counter.count + 1;
    r
}

/// The unique name of a new sandbox: tool name, profile, process id and
/// the per-process counter, joined by dashes.
pub open spec fn spec_container_name(imp: Implementation, pid: u64, count: u64) -> Seq<char> {
    "dns-test-"@ + imp.spec_name() + "-"@ + dec_digits(pid as nat) + "-"@ + dec_digits(
        count as nat,
    )
}

/// Builds the unique name for a new sandbox.
pub fn container_name(imp: &Implementation, pid: u64, count: u64) -> (r: String)
    ensures
        r@ == spec_container_name(*imp, pid, count),
{
    let mut r = String::from_str("dns-test-");
    r.append(imp.name());
    r.append("-");
    let p = dec_u64(pid);
    r.append(p.as_str());
    r.append("-");
    let c = dec_u64(count);
    r.append(c.as_str());
    r
}

/// Within one profile and one process, distinct counter values give
/// distinct sandbox names: the counter alone guarantees uniqueness.
pub proof fn lemma_container_names_unique(imp: Implementation, pid: u64, c1: u64, c2: u64)
    requires
        spec_container_name(imp, pid, c1) == spec_container_name(imp, pid, c2),
    ensures
        c1 == c2,
{
    let p = "dns-test-"@ + imp.spec_name() + "-"@ + dec_digits(pid as nat) + "-"@;
    let s1 = spec_container_name(imp, pid, c1);
    let s2 = spec_container_name(imp, pid, c2);
    assert(s1 =~= p + dec_digits(c1 as nat));
    assert(s2 =~= p + dec_digits(c2 as nat));
    assert(dec_digits(c1 as nat) =~= s1.skip(p.len() as int));
    assert(dec_digits(c2 as nat) =~= s2.skip(p.len() as int));
    lemma_digits_val_of_dec(c1 as nat);
    lemma_digits_val_of_dec(c2 as nat);
}

/// The immutable state of one running sandbox, created at sandbox-start
/// time and shared by every handle referencing the sandbox: the engine's
/// opaque identifier, the unique human-readable name, and the network
/// address resolved at creation.
pub struct SandboxInternals {
    pub id: String,
    pub name: String,
    pub ipv4_addr: Ipv4Addr,
}

impl SandboxInternals {
    pub fn new(id: String, name: String, ipv4_addr: Ipv4Addr) -> (s: SandboxInternals)
        ensures
            s.id@ == id@,
            s.name@ == name@,
            s.ipv4_addr == ipv4_addr,
    {
        SandboxInternals { id, name, ipv4_addr }
    }

    /// The address cached at creation time; never re-queried.
    pub fn ipv4_addr(&self) -> (r: Ipv4Addr)
        ensures
            r == self.ipv4_addr,
    {
        self.ipv4_addr
    }

    /// The command line that runs `cmd` inside this sandbox.
    pub fn exec_args(&self, cmd: &Vec<String>) -> (r: Vec<String>)
        ensures
            r.deep_view() == seq!["docker"@, "exec"@, "-t"@, self.id@] + cmd.deep_view(),
    {
        commands::exec_args(self.id.as_str(), cmd)
    }

    /// The engine-side destination for copying a file into this sandbox
    /// at `path`: the sandbox identifier, a colon, the path.
    pub fn cp_dest(&self, path: &str) -> (r: String)
        ensures
            r@ == self.id@ + ":"@ + path@,
    {
        let mut r = String::new();
        r.append(self.id.as_str());
        r.append(":");
        r.append(path);
        proof {
            assert(Seq::<char>::empty() + self.id@ + ":"@ + path@ =~= self.id@ + ":"@ + path@);
        }
        r
    }

    /// The in-sandbox command that makes `path` readable and writable
    /// for everyone, run right after a file is copied in.
    pub fn chmod_rw_args(&self, path: &str) -> (r: Vec<String>)
        ensures
            r.deep_view() == seq!["chmod"@, "666"@, path@],
    {
        let mut v: Vec<String> = Vec::new();
        v.push(String::from_str("chmod"));
        v.push(String::from_str("666"));
        v.push(String::from_str(path));
        proof {
            assert(v.deep_view() =~= seq!["chmod"@, "666"@, path@]);
        }
        v
    }

    /// The removal request for this sandbox.
    pub fn rm_args(&self) -> (r: Vec<String>)
        ensures
            r.deep_view() == seq!["docker"@, "rm"@, "-f"@, self.id@],
    {
        commands::rm_args(self.id.as_str())
    }
}

/// Accepts the engine's sandbox-creation output: on a successful exit
/// status the trimmed standard output is the new sandbox's identifier.
/// Fails with an encoding error where a stream is not valid text, and
/// with the command's failure diagnostics where the exit status is not
/// success.
pub fn run_to_id(
    argv: &Vec<String>,
    status: ExitStatus,
    raw_stdout: Vec<u8>,
    raw_stderr: Vec<u8>,
) -> (r: Result<String, Error>)
    ensures
        match r {
            Ok(id) => utf8_decode(raw_stdout@) is Some && utf8_decode(raw_stderr@) is Some
                && status.is_success() && id@ == trim_newlines(utf8_decode(raw_stdout@).unwrap()),
            Err(e) => match e {
                Error::Encoding => utf8_decode(raw_stdout@) is None || utf8_decode(
                    raw_stderr@,
                ) is None,
                Error::NonZeroExit { message, stdout, stderr } => utf8_decode(
                    raw_stdout@,
                ) is Some && utf8_decode(raw_stderr@) is Some && !status.is_success() && message@
                    == command_failure_message(argv.deep_view()) && stdout@ == trim_newlines(
                    utf8_decode(raw_stdout@).unwrap(),
                ) && stderr@ == trim_newlines(utf8_decode(raw_stderr@).unwrap()),
                _ => false,
            },
        },
{
    let out = match Output::from_raw(status, raw_stdout, raw_stderr) {
        Ok(out) => out,
        Err(e) => {
            return Err(e);
        },
    };
    let out = match checked(argv, out) {
        Ok(out) => out,
        Err(e) => {
            return Err(e);
        },
    };
    Ok(out.stdout)
}

} // verus!
