//! The exact command lines handed to the container engine. Each builder
//! pins the full argument vector, so the engine is invoked with precisely
//! the operations the design names: build image, run detached and idling,
//! exec, copy in, inspect the network address, force-remove.

use vstd::prelude::*;

verus! {

/// `docker build -t <tag> <context_dir>`.
pub fn build_args(tag: &str, context_dir: &str) -> (r: Vec<String>)
    ensures
        r.deep_view() == seq!["docker"@, "build"@, "-t"@, tag@, context_dir@],
{
    let mut v: Vec<String> = Vec::new();
    v.push(String::from_str("docker"));
    v.push(String::from_str("build"));
    v.push(String::from_str("-t"));
    v.push(String::from_str(tag));
    v.push(String::from_str(context_dir));
    proof {
        assert(v.deep_view() =~= seq!["docker"@, "build"@, "-t"@, tag@, context_dir@]);
    }
    v
}

/// `docker run --rm --detach --name <name> -it <tag> sleep infinity`:
/// starts the sandbox detached, interactive-capable, idling indefinitely
/// so it stays alive until explicitly removed.
pub fn run_args(name: &str, tag: &str) -> (r: Vec<String>)
    ensures
        r.deep_view() == seq![
            "docker"@,
            "run"@,
            "--rm"@,
            "--detach"@,
            "--name"@,
            name@,
            "-it"@,
            tag@,
            "sleep"@,
            "infinity"@,
        ],
{
    let mut v: Vec<String> = Vec::new();
    v.push(String::from_str("docker"));
    v.push(String::from_str("run"));
    v.push(String::from_str("--rm"));
    v.push(String::from_str("--detach"));
    v.push(String::from_str("--name"));
    v.push(String::from_str(name));
    v.push(String::from_str("-it"));
    v.push(String::from_str(tag));
    v.push(String::from_str("sleep"));
    v.push(String::from_str("infinity"));
    proof {
        assert(v.deep_view() =~= seq![
            "docker"@,
            "run"@,
            "--rm"@,
            "--detach"@,
            "--name"@,
            name@,
            "-it"@,
            tag@,
            "sleep"@,
            "infinity"@,
        ]);
    }
    v
}

/// `docker exec -t <id> <cmd...>`: runs a command inside the sandbox,
/// scoped by the sandbox identifier.
pub fn exec_args(id: &str, cmd: &Vec<String>) -> (r: Vec<String>)
    ensures
        r.deep_view() == seq!["docker"@, "exec"@, "-t"@, id@] + cmd.deep_view(),
{
    let mut v: Vec<String> = Vec::new();
    v.push(String::from_str("docker"));
    v.push(String::from_str("exec"));
    v.push(String::from_str("-t"));
    v.push(String::from_str(id));
    let mut i: usize = 0;
    while i < cmd.len()
        invariant
            i <= cmd.len(),
            cmd.deep_view().len() == cmd@.len(),
            v.deep_view() =~= seq!["docker"@, "exec"@, "-t"@, id@] + cmd.deep_view().take(i as int),
        decreases cmd.len() - i,
    {
        v.push(cmd[i].clone());
        proof {
            assert(cmd.deep_view()[i as int] == cmd@[i as int]@);
            assert(seq!["docker"@, "exec"@, "-t"@, id@] + cmd.deep_view().take(i as int + 1)
                =~= (seq!["docker"@, "exec"@, "-t"@, id@] + cmd.deep_view().take(i as int)).push(
                cmd.deep_view()[i as int],
            ));
        }
        i = i + 1;
    }
    proof {
        assert(cmd.deep_view().take(cmd@.len() as int) =~= cmd.deep_view());
    }
    v
}

/// `docker cp <src> <dest>`: copies a host-side file into the sandbox.
pub fn cp_args(src: &str, dest: &str) -> (r: Vec<String>)
    ensures
        r.deep_view() == seq!["docker"@, "cp"@, src@, dest@],
{
    let mut v: Vec<String> = Vec::new();
    v.push(String::from_str("docker"));
    v.push(String::from_str("cp"));
    v.push(String::from_str(src));
    v.push(String::from_str(dest));
    proof {
        assert(v.deep_view() =~= seq!["docker"@, "cp"@, src@, dest@]);
    }
    v
}

/// `docker inspect -f <network-address-template> <id>`: queries the
/// engine's network metadata for the sandbox's assigned address.
pub fn inspect_args(id: &str) -> (r: Vec<String>)
    ensures
        r.deep_view() == seq![
            "docker"@,
            "inspect"@,
            "-f"@,
            "{{range.NetworkSettings.Networks}}{{.IPAddress}}{{end}}"@,
            id@,
        ],
{
    let mut v: Vec<String> = Vec::new();
    v.push(String::from_str("docker"));
    v.push(String::from_str("inspect"));
    v.push(String::from_str("-f"));
    v.push(String::from_str("{{range.NetworkSettings.Networks}}{{.IPAddress}}{{end}}"));
    v.push(String::from_str(id));
    proof {
        assert(v.deep_view() =~= seq![
            "docker"@,
            "inspect"@,
            "-f"@,
            "{{range.NetworkSettings.Networks}}{{.IPAddress}}{{end}}"@,
            id@,
        ]);
    }
    v
}

/// `docker rm -f <id>`: the removal request issued when the last handle
/// referencing a sandbox is released.
pub fn rm_args(id: &str) -> (r: Vec<String>)
    ensures
        r.deep_view() == seq!["docker"@, "rm"@, "-f"@, id@],
{
    let mut v: Vec<String> = Vec::new();
    v.push(String::from_str("docker"));
    v.push(String::from_str("rm"));
    v.push(String::from_str("-f"));
    v.push(String::from_str(id));
    proof {
        assert(v.deep_view() =~= seq!["docker"@, "rm"@, "-f"@, id@]);
    }
    v
}

} // verus!
