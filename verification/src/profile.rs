//! The closed set of software profiles a sandbox can be created from,
//! each with its build recipe and its deterministic image tag.

use vstd::prelude::*;

verus! {

/// A named software configuration under test. The set is closed and
/// known at compile time; each profile maps deterministically to the
/// build-context content and the image tag below.
#[derive(Clone, Copy, PartialEq, Eq, Structural, Debug)]
pub enum Implementation {
    Unbound,
    Hickory,
    Bind,
}

impl Implementation {
    /// The lower-case profile name used in image tags and sandbox names.
    pub open spec fn spec_name(self) -> Seq<char> {
        match self {
            Implementation::Unbound => "unbound"@,
            Implementation::Hickory => "hickory"@,
            Implementation::Bind => "bind"@,
        }
    }

    pub fn name(&self) -> (r: &'static str)
        ensures
            r@ == self.spec_name(),
    {
        match self {
            Implementation::Unbound => "unbound",
            Implementation::Hickory => "hickory",
            Implementation::Bind => "bind",
        }
    }

    /// The build recipe for this profile: the file content materialized
    /// into a fresh build context before the image is built.
    pub open spec fn spec_dockerfile(self) -> Seq<char> {
        match self {
            Implementation::Unbound => "FROM ubuntu:22.04\n\nRUN apt-get update && \\\n    apt-get install -y unbound ldnsutils iputils-ping\n"@,
            Implementation::Hickory => "FROM rust:1-slim-bookworm\n\nRUN apt-get update && \\\n    apt-get install -y iputils-ping && \\\n    cargo install hickory-dns --features recursor\n"@,
            Implementation::Bind => "FROM ubuntu:22.04\n\nRUN apt-get update && \\\n    apt-get install -y bind9 dnsutils iputils-ping\n"@,
        }
    }

    pub fn dockerfile(&self) -> (r: &'static str)
        ensures
            r@ == self.spec_dockerfile(),
    {
        match self {
            Implementation::Unbound => "FROM ubuntu:22.04\n\nRUN apt-get update && \\\n    apt-get install -y unbound ldnsutils iputils-ping\n",
            Implementation::Hickory => "FROM rust:1-slim-bookworm\n\nRUN apt-get update && \\\n    apt-get install -y iputils-ping && \\\n    cargo install hickory-dns --features recursor\n",
            Implementation::Bind => "FROM ubuntu:22.04\n\nRUN apt-get update && \\\n    apt-get install -y bind9 dnsutils iputils-ping\n",
        }
    }
}

/// The deterministic image tag for a profile: the tool name, a dash, the
/// profile name.
pub open spec fn spec_image_tag(imp: Implementation) -> Seq<char> {
    "dns-test-"@ + imp.spec_name()
}

/// Builds the image tag for `imp`.
pub fn image_tag(imp: &Implementation) -> (r: String)
    ensures
        r@ == spec_image_tag(*imp),
{
    let mut r = String::from_str("dns-test-");
    r.append(imp.name());
    r
}

} // verus!
