//! Capability rules for sandboxed WASM plugins: which grants a package may
//! declare, what each grant opens, how sockets are gated, and which `wasi:http`
//! versions this host can serve.
use vstd::prelude::*;
use vstd::string::StrSliceExecFns;
use crate::call_error::CallError;
use crate::hash::strings_view;
use crate::text::{decimal, decimal_spec, find_char, find_char_from, lemma_find_char_from, str_eq,
    str_starts_with, substring};

verus! {

/// Capability names granted as-is (besides the scoped `env:`/`fs:` forms).
pub const KNOWN_CAPABILITIES: [&'static str; 11] = [
    "args",
    "stdout",
    "stderr",
    "stdin",
    "network",
    "sockets",
    "clocks",
    "random",
    "http",
    "tcp",
    "udp",
];

/// Whether `c` is one of [`KNOWN_CAPABILITIES`].
pub open spec fn known_capability(c: Seq<char>) -> bool {
    c == "args"@ || c == "stdout"@ || c == "stderr"@ || c == "stdin"@ || c == "network"@ || c
        == "sockets"@ || c == "clocks"@ || c == "random"@ || c == "http"@ || c == "tcp"@ || c
        == "udp"@
}

/// A grant of the policy-gated egress tier.
pub open spec fn is_policy_egress(c: Seq<char>) -> bool {
    c == "tcp"@ || c == "udp"@
}

/// A grant of the coarse network tier.
pub open spec fn is_coarse_network(c: Seq<char>) -> bool {
    c == "network"@ || c == "sockets"@
}

/// The message rejecting both egress tiers at once.
pub open spec fn exclusive_tiers_message() -> Seq<char> {
    "wasm capabilities 'tcp'/'udp' and 'network'/'sockets' are mutually exclusive: 'tcp'/'udp' are per-peer policy-gated (EgressPolicy::authorize_tcp/authorize_udp) while 'network'/'sockets' is coarse SSRF-floored access — granting both would silently keep only one gate. Pick one tier."@
}

/// The message rejecting bare `env`.
pub open spec fn bare_env_message() -> Seq<char> {
    "wasm capability 'env' grants ALL host environment variables (every secret) and is not allowed; grant specific variables with 'env:VAR_NAME' instead"@
}

/// The message rejecting `env:` without a name.
pub open spec fn empty_env_message() -> Seq<char> {
    "wasm capability 'env:' requires a variable name (e.g. 'env:STRIPE_API_BASE')"@
}

/// The message rejecting a whole-filesystem grant.
pub open spec fn bare_fs_message() -> Seq<char> {
    "wasm filesystem is path-scoped; grant a directory with 'fs:ro:<path>' (read-only) or 'fs:rw:<path>' — bare 'fs'/'filesystem' (whole filesystem) is not allowed"@
}

/// The message rejecting `fs:ro:`/`fs:rw:` without a path.
pub open spec fn empty_fs_message() -> Seq<char> {
    "wasm capability 'fs:ro:'/'fs:rw:' requires a path (e.g. 'fs:ro:/data')"@
}

/// The message rejecting an unknown capability name.
pub open spec fn unknown_capability_message(c: Seq<char>) -> Seq<char> {
    "unknown wasm capability '"@ + c
        + "'; allowed: args, stdout, stderr, stdin, network, sockets, clocks, random, http, tcp, udp, env:VAR_NAME"@
}

/// Why a single capability string is refused, if it is.
pub open spec fn capability_error(c: String) -> Option<Seq<char>> {
    if c@ == "env"@ {
        Some(bare_env_message())
    } else if "env:"@.is_prefix_of(c@) {
        if c@.len() == "env:"@.len() {
            Some(empty_env_message())
        } else {
            None
        }
    } else if c@ == "fs"@ || c@ == "filesystem"@ {
        Some(bare_fs_message())
    } else if "fs:ro:"@.is_prefix_of(c@) {
        if c@.len() == "fs:ro:"@.len() {
            Some(empty_fs_message())
        } else {
            None
        }
    } else if "fs:rw:"@.is_prefix_of(c@) {
        if c@.len() == "fs:rw:"@.len() {
            Some(empty_fs_message())
        } else {
            None
        }
    } else if known_capability(c@) {
        None
    } else {
        Some(unknown_capability_message(c@))
    }
}

/// The first refused capability's message, scanning in order.
pub open spec fn first_capability_error(caps: Seq<String>) -> Option<Seq<char>>
    decreases caps.len(),
{
    if caps.len() == 0 {
        None
    } else {
        match capability_error(caps[0]) {
            Some(m) => Some(m),
            None => first_capability_error(caps.drop_first()),
        }
    }
}

/// The error `validate_capabilities` reports, if any.
pub open spec fn capabilities_error(caps: Seq<String>) -> Option<Seq<char>> {
    if (exists|i: int| 0 <= i < caps.len() && is_policy_egress(#[trigger] caps[i]@)) && (exists|
        j: int,
    | 0 <= j < caps.len() && is_coarse_network(#[trigger] caps[j]@)) {
        Some(exclusive_tiers_message())
    } else {
        first_capability_error(caps)
    }
}

/// No capability in `caps` is refused on its own.
pub open spec fn each_capability_ok(caps: Seq<String>) -> bool {
    forall|i: int| 0 <= i < caps.len() ==> (#[trigger] capability_error(caps[i])) is None
}

proof fn lemma_first_error_none(caps: Seq<String>)
    ensures
        first_capability_error(caps) is None <==> each_capability_ok(caps),
    decreases caps.len(),
{
    if caps.len() > 0 {
        let rest = caps.drop_first();
        lemma_first_error_none(rest);
        if each_capability_ok(caps) {
            assert(capability_error(caps[0]) is None);
            assert forall|i: int| 0 <= i < rest.len() implies (#[trigger] capability_error(
                rest[i],
            )) is None by {
                assert(rest[i] == caps[i + 1]);
            }
        }
        if capability_error(caps[0]) is None && each_capability_ok(rest) {
            assert forall|i: int| 0 <= i < caps.len() implies (#[trigger] capability_error(
                caps[i],
            )) is None by {
                if i > 0 {
                    assert(caps[i] == rest[i - 1]);
                }
            }
        }
    }
}

/// The capability verdict does not depend on the order the capabilities are
/// declared in: any rearrangement of a list is accepted exactly when the list
/// is.
pub proof fn lemma_capability_verdict_ignores_order(a: Seq<String>, b: Seq<String>)
    requires
        a.to_multiset() == b.to_multiset(),
    ensures
        (capabilities_error(a) is None) == (capabilities_error(b) is None),
{
    a.to_multiset_ensures();
    b.to_multiset_ensures();
    assert forall|x: String| a.contains(x) <==> b.contains(x) by {
        assert(a.contains(x) == (a.to_multiset().count(x) > 0));
        assert(b.contains(x) == (b.to_multiset().count(x) > 0));
        assert(a.to_multiset().count(x) == b.to_multiset().count(x));
    }
    assert forall|x: String| #![trigger a.contains(x)] a.contains(x) ==> exists|j: int|
        0 <= j < b.len() && b[j] == x by {
        if a.contains(x) {
            assert(b.contains(x));
        }
    }
    lemma_first_error_none(a);
    lemma_first_error_none(b);
    if (exists|i: int| 0 <= i < a.len() && is_policy_egress(#[trigger] a[i]@)) {
        let i = choose|i: int| 0 <= i < a.len() && is_policy_egress(#[trigger] a[i]@);
        assert(a.contains(a[i]));
        let j = choose|j: int| 0 <= j < b.len() && b[j] == a[i];
        assert(is_policy_egress(b[j]@));
    }
    if (exists|i: int| 0 <= i < b.len() && is_policy_egress(#[trigger] b[i]@)) {
        let i = choose|i: int| 0 <= i < b.len() && is_policy_egress(#[trigger] b[i]@);
        assert(b.contains(b[i]));
        assert(a.contains(b[i]));
        let j = choose|j: int| 0 <= j < a.len() && a[j] == b[i];
        assert(is_policy_egress(a[j]@));
    }
    if (exists|i: int| 0 <= i < a.len() && is_coarse_network(#[trigger] a[i]@)) {
        let i = choose|i: int| 0 <= i < a.len() && is_coarse_network(#[trigger] a[i]@);
        assert(a.contains(a[i]));
        let j = choose|j: int| 0 <= j < b.len() && b[j] == a[i];
        assert(is_coarse_network(b[j]@));
    }
    if (exists|i: int| 0 <= i < b.len() && is_coarse_network(#[trigger] b[i]@)) {
        let i = choose|i: int| 0 <= i < b.len() && is_coarse_network(#[trigger] b[i]@);
        assert(b.contains(b[i]));
        assert(a.contains(b[i]));
        let j = choose|j: int| 0 <= j < a.len() && a[j] == b[i];
        assert(is_coarse_network(a[j]@));
    }
    if each_capability_ok(a) && !each_capability_ok(b) {
        let i = choose|i: int| 0 <= i < b.len() && !((#[trigger] capability_error(b[i])) is None);
        assert(b.contains(b[i]));
        assert(a.contains(b[i]));
        let j = choose|j: int| 0 <= j < a.len() && a[j] == b[i];
        assert(capability_error(a[j]) is None);
    }
    if each_capability_ok(b) && !each_capability_ok(a) {
        let i = choose|i: int| 0 <= i < a.len() && !((#[trigger] capability_error(a[i])) is None);
        assert(a.contains(a[i]));
        let j = choose|j: int| 0 <= j < b.len() && b[j] == a[i];
        assert(capability_error(b[j]) is None);
    }
}

fn backend_error(message: String) -> (e: CallError)
    ensures
        e matches CallError::Backend { runtime, message: m } && runtime@ == "wasm"@ && m@
            == message@,
{
    CallError::Backend { runtime: String::from_str("wasm"), message }
}

/// Whether `c` is one of [`KNOWN_CAPABILITIES`].
pub fn is_known_capability(c: &str) -> (r: bool)
    ensures
        r == known_capability(c@),
{
    str_eq(c, "args") || str_eq(c, "stdout") || str_eq(c, "stderr") || str_eq(c, "stdin")
        || str_eq(c, "network") || str_eq(c, "sockets") || str_eq(c, "clocks") || str_eq(
        c,
        "random",
    ) || str_eq(c, "http") || str_eq(c, "tcp") || str_eq(c, "udp")
}

fn check_capability(c: &String) -> (r: Option<String>)
    ensures
        match r {
            Some(m) => capability_error(*c) == Some(m@),
            None => capability_error(*c) is None,
        },
{
    let s = c.as_str();
    if str_eq(s, "env") {
        return Some(
            String::from_str(
                "wasm capability 'env' grants ALL host environment variables (every secret) and is not allowed; grant specific variables with 'env:VAR_NAME' instead",
            ),
        );
    }
    if str_starts_with(s, "env:") {
        if s.unicode_len() == "env:".unicode_len() {
            return Some(
                String::from_str(
                    "wasm capability 'env:' requires a variable name (e.g. 'env:STRIPE_API_BASE')",
                ),
            );
        }
        return None;
    }
    if str_eq(s, "fs") || str_eq(s, "filesystem") {
        return Some(
            String::from_str(
                "wasm filesystem is path-scoped; grant a directory with 'fs:ro:<path>' (read-only) or 'fs:rw:<path>' — bare 'fs'/'filesystem' (whole filesystem) is not allowed",
            ),
        );
    }
    if str_starts_with(s, "fs:ro:") {
        if s.unicode_len() == "fs:ro:".unicode_len() {
            return Some(
                String::from_str(
                    "wasm capability 'fs:ro:'/'fs:rw:' requires a path (e.g. 'fs:ro:/data')",
                ),
            );
        }
        return None;
    }
    if str_starts_with(s, "fs:rw:") {
        if s.unicode_len() == "fs:rw:".unicode_len() {
            return Some(
                String::from_str(
                    "wasm capability 'fs:ro:'/'fs:rw:' requires a path (e.g. 'fs:ro:/data')",
                ),
            );
        }
        return None;
    }
    if is_known_capability(s) {
        return None;
    }
    let mut m = String::from_str("unknown wasm capability '");
    m.append(s);
    m.append(
        "'; allowed: args, stdout, stderr, stdin, network, sockets, clocks, random, http, tcp, udp, env:VAR_NAME",
    );
    Some(m)
}

/// Rejects unknown or over-broad capability grants, and declaring both egress
/// tiers, so a typo or a coarse grant fails closed at load.
pub fn validate_capabilities(caps: &[String]) -> (r: Result<(), CallError>)
    ensures
        r is Ok <==> capabilities_error(caps@) is None,
        r matches Err(e) ==> (e matches CallError::Backend { runtime, message } && runtime@
            == "wasm"@ && Some(message@) == capabilities_error(caps@)),
{
    let n = caps.len();
    let mut wants_policy_egress = false;
    let mut wants_network = false;
    for i in 0..n
        invariant
            n == caps@.len(),
            wants_policy_egress == exists|k: int| 0 <= k < i && is_policy_egress(#[trigger] caps@[k]@),
            wants_network == exists|k: int| 0 <= k < i && is_coarse_network(#[trigger] caps@[k]@),
    {
        let s = caps[i].as_str();
        if str_eq(s, "tcp") || str_eq(s, "udp") {
            wants_policy_egress = true;
        }
        if str_eq(s, "network") || str_eq(s, "sockets") {
            wants_network = true;
        }
    }
    if wants_policy_egress && wants_network {
        return Err(
            backend_error(
                String::from_str(
                    "wasm capabilities 'tcp'/'udp' and 'network'/'sockets' are mutually exclusive: 'tcp'/'udp' are per-peer policy-gated (EgressPolicy::authorize_tcp/authorize_udp) while 'network'/'sockets' is coarse SSRF-floored access — granting both would silently keep only one gate. Pick one tier.",
                ),
            ),
        );
    }
    assert(first_capability_error(caps@) == first_capability_error(caps@.skip(0))) by {
        assert(caps@.skip(0) =~= caps@);
    }
    for i in 0..n
        invariant
            n == caps@.len(),
            capabilities_error(caps@) == first_capability_error(caps@),
            first_capability_error(caps@) == first_capability_error(caps@.skip(i as int)),
    {
        match check_capability(&caps[i]) {
            Some(m) => {
                return Err(backend_error(m));
            },
            None => {},
        }
        assert(caps@.skip(i as int).drop_first() =~= caps@.skip(i as int + 1));
    }
    assert(caps@.skip(n as int).len() == 0);
    Ok(())
}


/// What a validated capability list opens in a guest's WASI context. Anything
/// not listed stays denied.
#[derive(Debug, Clone)]
pub struct WasiGrants {
    /// Inherit the host's arguments.
    pub args: bool,
    /// Inherit stdout.
    pub stdout: bool,
    /// Inherit stderr.
    pub stderr: bool,
    /// Inherit stdin.
    pub stdin: bool,
    /// Coarse outbound sockets behind the SSRF floor (`network`/`sockets`).
    pub network: bool,
    /// Policy-gated outbound TCP.
    pub tcp: bool,
    /// Policy-gated outbound UDP.
    pub udp: bool,
    /// Host environment variables exposed by name (`env:NAME`), in order.
    pub env_vars: Vec<String>,
    /// Directories preopened read-only (`fs:ro:PATH`), in order.
    pub fs_read_only: Vec<String>,
    /// Directories preopened read-write (`fs:rw:PATH`), in order.
    pub fs_read_write: Vec<String>,
}

/// Some capability equals `name`.
pub open spec fn granted(caps: Seq<String>, name: Seq<char>) -> bool {
    exists|i: int| 0 <= i < caps.len() && #[trigger] caps[i]@ == name
}

/// The suffixes, in order, of the capabilities that start with `prefix`.
pub open spec fn scoped_grants(caps: Seq<String>, prefix: Seq<char>) -> Seq<Seq<char>>
    decreases caps.len(),
{
    if caps.len() == 0 {
        Seq::empty()
    } else {
        let rest = scoped_grants(caps.drop_last(), prefix);
        let c = caps.last()@;
        if prefix.is_prefix_of(c) {
            rest.push(c.subrange(prefix.len() as int, c.len() as int))
        } else {
            rest
        }
    }
}

fn push_scoped(out: &mut Vec<String>, s: &str, prefix: &str) -> (matched: bool)
    ensures
        matched == prefix@.is_prefix_of(s@),
        matched ==> strings_view(final(out)@) == strings_view(old(out)@).push(
            s@.subrange(prefix@.len() as int, s@.len() as int),
        ),
        !matched ==> final(out)@ == old(out)@,
{
    if str_starts_with(s, prefix) {
        let rest = substring(s, prefix.unicode_len(), s.unicode_len());
        let ghost before = out@;
        out.push(String::from_str(rest));
        assert(strings_view(out@) =~= strings_view(before).push(
            s@.subrange(prefix@.len() as int, s@.len() as int),
        ));
        true
    } else {
        false
    }
}

/// Reads a capability list into the grants it makes. Every grant starts denied;
/// names outside the list open nothing.
pub fn wasi_grants(caps: &[String]) -> (g: WasiGrants)
    ensures
        g.args == granted(caps@, "args"@),
        g.stdout == granted(caps@, "stdout"@),
        g.stderr == granted(caps@, "stderr"@),
        g.stdin == granted(caps@, "stdin"@),
        g.network == (granted(caps@, "network"@) || granted(caps@, "sockets"@)),
        g.tcp == granted(caps@, "tcp"@),
        g.udp == granted(caps@, "udp"@),
        strings_view(g.env_vars@) == scoped_grants(caps@, "env:"@),
        strings_view(g.fs_read_only@) == scoped_grants(caps@, "fs:ro:"@),
        strings_view(g.fs_read_write@) == scoped_grants(caps@, "fs:rw:"@),
{
    let mut g = WasiGrants {
        args: false,
        stdout: false,
        stderr: false,
        stdin: false,
        network: false,
        tcp: false,
        udp: false,
        env_vars: Vec::new(),
        fs_read_only: Vec::new(),
        fs_read_write: Vec::new(),
    };
    let n = caps.len();
    assert(strings_view(g.env_vars@) =~= scoped_grants(caps@.take(0), "env:"@));
    assert(strings_view(g.fs_read_only@) =~= scoped_grants(caps@.take(0), "fs:ro:"@));
    assert(strings_view(g.fs_read_write@) =~= scoped_grants(caps@.take(0), "fs:rw:"@));
    for i in 0..n
        invariant
            n == caps@.len(),
            g.args == granted(caps@.take(i as int), "args"@),
            g.stdout == granted(caps@.take(i as int), "stdout"@),
            g.stderr == granted(caps@.take(i as int), "stderr"@),
            g.stdin == granted(caps@.take(i as int), "stdin"@),
            g.network == (granted(caps@.take(i as int), "network"@) || granted(
                caps@.take(i as int),
                "sockets"@,
            )),
            g.tcp == granted(caps@.take(i as int), "tcp"@),
            g.udp == granted(caps@.take(i as int), "udp"@),
            strings_view(g.env_vars@) == scoped_grants(caps@.take(i as int), "env:"@),
            strings_view(g.fs_read_only@) == scoped_grants(caps@.take(i as int), "fs:ro:"@),
            strings_view(g.fs_read_write@) == scoped_grants(caps@.take(i as int), "fs:rw:"@),
    {
        let s = caps[i].as_str();
        let ghost prefix = caps@.take(i as int);
        let ghost next = caps@.take(i as int + 1);
        assert(next =~= prefix.push(caps@[i as int]));
        assert(next.drop_last() =~= prefix);
        assert(forall|name: Seq<char>| #[trigger] granted(next, name) == (granted(prefix, name) || caps@[i as int]@ == name)) by {
            assert forall|name: Seq<char>| #[trigger] granted(next, name) == (granted(prefix, name) || caps@[i as int]@ == name) by {
                if caps@[i as int]@ == name {
                    assert(next[i as int]@ == name);
                }
                if granted(prefix, name) {
                    let k = choose|k: int| 0 <= k < prefix.len() && #[trigger] prefix[k]@ == name;
                    assert(next[k]@ == name);
                }
            }
        }
        if str_eq(s, "args") {
            g.args = true;
        }
        if str_eq(s, "stdout") {
            g.stdout = true;
        }
        if str_eq(s, "stderr") {
            g.stderr = true;
        }
        if str_eq(s, "stdin") {
            g.stdin = true;
        }
        if str_eq(s, "network") || str_eq(s, "sockets") {
            g.network = true;
        }
        if str_eq(s, "tcp") {
            g.tcp = true;
        }
        if str_eq(s, "udp") {
            g.udp = true;
        }
        push_scoped(&mut g.env_vars, s, "env:");
        push_scoped(&mut g.fs_read_only, s, "fs:ro:");
        push_scoped(&mut g.fs_read_write, s, "fs:rw:");
    }
    assert(caps@.take(n as int) =~= caps@);
    g
}

/// Whether some capability equals `name`.
fn capability_granted(caps: &[String], name: &str) -> (r: bool)
    ensures
        r == granted(caps@, name@),
{
    let n = caps.len();
    for i in 0..n
        invariant
            n == caps@.len(),
            forall|k: int| 0 <= k < i ==> caps@[k]@ != name@,
    {
        if str_eq(caps[i].as_str(), name) {
            return true;
        }
    }
    false
}

/// Which policy-gated host interfaces a sandbox links for a guest.
#[derive(Debug, Clone, Copy, PartialEq, Eq)]
pub struct LinkPlan {
    /// `wasi:http`: outbound HTTP through the embedder's policy.
    pub http: bool,
    /// The pinning `wasi:sockets/ip-name-lookup`, which also turns name
    /// resolution on.
    pub name_lookup: bool,
}

/// The two-key rule for the policy-gated interfaces: each is linked only when
/// the package asks for it (`http`; `tcp` or `udp` for name lookup) and the
/// embedder supplied an egress policy. Missing either key leaves the
/// interface out, so a guest that imports it fails closed.
pub fn link_plan(caps: &[String], has_policy: bool) -> (p: LinkPlan)
    ensures
        p.http == (granted(caps@, "http"@) && has_policy),
        p.name_lookup == ((granted(caps@, "tcp"@) || granted(caps@, "udp"@)) && has_policy),
{
    let http = capability_granted(caps, "http");
    let tcp = capability_granted(caps, "tcp");
    let udp = capability_granted(caps, "udp");
    LinkPlan { http: http && has_policy, name_lookup: (tcp || udp) && has_policy }
}

/// How one socket operation of a guest with the policy-gated tier is decided.
#[derive(Debug, Clone, Copy, PartialEq, Eq)]
pub enum SocketUse {
    /// Binding a TCP listener.
    TcpBind,
    /// An outbound TCP connect.
    TcpConnect,
    /// Binding a local UDP socket.
    UdpBind,
    /// Connecting a UDP socket to a peer.
    UdpConnect,
    /// Sending a datagram to a peer.
    UdpOutgoingDatagram,
}

/// The verdict for one socket operation under the policy-gated tier.
#[derive(Debug, Clone, Copy, PartialEq, Eq)]
pub enum SocketCheck {
    /// Refused outright.
    Deny,
    /// Permitted as setup.
    Allow,
    /// Permitted iff the embedder's TCP policy authorizes the peer.
    AskTcpPolicy,
    /// Permitted iff the embedder's UDP policy authorizes the peer.
    AskUdpPolicy,
}

/// Decides a socket operation for a guest granted `tcp` and/or `udp`. Without
/// an embedder policy nothing is reachable (fail-closed). With one, inbound
/// TCP is never reachable, a local UDP bind is setup, and every outbound peer
/// goes through the matching policy hook.
pub fn socket_check(use_: SocketUse, wants_tcp: bool, wants_udp: bool, has_policy: bool) -> (c:
    SocketCheck)
    ensures
        !has_policy ==> c == SocketCheck::Deny,
        has_policy ==> c == match use_ {
            SocketUse::TcpConnect => if wants_tcp {
                SocketCheck::AskTcpPolicy
            } else {
                SocketCheck::Deny
            },
            SocketUse::UdpConnect | SocketUse::UdpOutgoingDatagram => if wants_udp {
                SocketCheck::AskUdpPolicy
            } else {
                SocketCheck::Deny
            },
            SocketUse::UdpBind => if wants_udp {
                SocketCheck::Allow
            } else {
                SocketCheck::Deny
            },
            SocketUse::TcpBind => SocketCheck::Deny,
        },
{
    if !has_policy {
        return SocketCheck::Deny;
    }
    match use_ {
        SocketUse::TcpConnect => if wants_tcp {
            SocketCheck::AskTcpPolicy
        } else {
            SocketCheck::Deny
        },
        SocketUse::UdpConnect | SocketUse::UdpOutgoingDatagram => if wants_udp {
            SocketCheck::AskUdpPolicy
        } else {
            SocketCheck::Deny
        },
        SocketUse::UdpBind => if wants_udp {
            SocketCheck::Allow
        } else {
            SocketCheck::Deny
        },
        SocketUse::TcpBind => SocketCheck::Deny,
    }
}

/// A denial returned by an egress policy to refuse an outbound request.
#[derive(Debug, Clone)]
pub struct EgressDenied {
    /// Human-readable reason, for the embedder's logs.
    pub reason: String,
}

impl EgressDenied {
    /// A denial with a reason.
    pub fn new(reason: &str) -> (d: EgressDenied)
        ensures
            d.reason@ == reason@,
    {
        EgressDenied { reason: String::from_str(reason) }
    }
}

/// What an egress policy wants done with a response it observed.
#[derive(Debug, Clone, Copy, PartialEq, Eq)]
pub enum ResponseDirective {
    /// Hand the response to the guest unchanged (the default).
    Forward,
    /// Discard this response, re-authorize the initial request and dispatch
    /// it once more.
    RetryOnce,
}

/// Whether a policy's directive leads to a retry: only a `RetryOnce` while a
/// retry is still available (the first observation of a replayable request).
pub fn should_retry(directive: ResponseDirective, retry_available: bool) -> (r: bool)
    ensures
        r == (directive == ResponseDirective::RetryOnce && retry_available),
{
    match directive {
        ResponseDirective::RetryOnce => retry_available,
        ResponseDirective::Forward => false,
    }
}

/// A method on the WASM interface, in declaration (vtable) order.
#[derive(Debug, Clone)]
pub struct WasmMethod {
    /// Export name within the interface (e.g. `"greet"`).
    pub name: String,
    /// Whether this method passes raw bytes both ways.
    pub wire_raw: bool,
    /// Whether this method is server-streaming.
    pub streaming: bool,
}

/// The method at `index` of `methods`, provided the call uses the wire path
/// the method declares (raw bytes or typed).
pub fn select_method(methods: &[WasmMethod], index: usize, want_raw: bool) -> (r: Result<
    &WasmMethod,
    CallError,
>)
    ensures
        index >= methods@.len() ==> (r matches Err(CallError::InvalidMethodIndex { index: i, count })
            && i == index && count == methods@.len() as u32),
        index < methods@.len() && methods@[index as int].wire_raw != want_raw ==> (r matches Err(
            CallError::WireModeMismatch { method, declared, attempted },
        ) && method@ == methods@[index as int].name@ && declared == methods@[index as int].wire_raw
            && attempted == want_raw),
        index < methods@.len() && methods@[index as int].wire_raw == want_raw ==> r == Ok::<
            &WasmMethod,
            CallError,
        >(&methods@[index as int]),
{
    if index >= methods.len() {
        return Err(CallError::InvalidMethodIndex { index, count: methods.len() as u32 });
    }
    let m = &methods[index];
    if m.wire_raw != want_raw {
        return Err(
            CallError::WireModeMismatch {
                method: m.name.clone(),
                declared: m.wire_raw,
                attempted: want_raw,
            },
        );
    }
    Ok(m)
}

/// The message for a stream started on a method that does not stream.
pub open spec fn not_streaming_message(name: Seq<char>) -> Seq<char> {
    "method '"@ + name + "' is not a server-streaming method"@
}

/// The method at `index` of `methods` for a server stream: a typed method
/// that streams.
pub fn select_streaming_method(methods: &[WasmMethod], index: usize) -> (r: Result<&WasmMethod, CallError>)
    ensures
        index >= methods@.len() ==> (r matches Err(CallError::InvalidMethodIndex { index: i, count })
            && i == index && count == methods@.len() as u32),
        index < methods@.len() && methods@[index as int].wire_raw ==> (r matches Err(
            CallError::WireModeMismatch { method, declared, attempted },
        ) && method@ == methods@[index as int].name@ && declared && !attempted),
        index < methods@.len() && !methods@[index as int].wire_raw && !methods@[index as int].streaming
            ==> (r matches Err(CallError::Backend { runtime, message }) && runtime@ == "wasm"@
            && message@ == not_streaming_message(methods@[index as int].name@)),
        index < methods@.len() && !methods@[index as int].wire_raw && methods@[index as int].streaming
            ==> r == Ok::<&WasmMethod, CallError>(&methods@[index as int]),
{
    let m = select_method(methods, index, false)?;
    if !m.streaming {
        let mut message = String::from_str("method '");
        message.append(m.name.as_str());
        message.append("' is not a server-streaming method");
        return Err(CallError::Backend { runtime: String::from_str("wasm"), message });
    }
    Ok(m)
}

/// The shape of what one poll of a guest's stream resource came back with.
#[derive(Debug, Clone, Copy, PartialEq, Eq)]
pub enum PollShape {
    /// The call itself failed.
    Trapped,
    /// `ok` carrying a value (`some(v)`, or any other value).
    OkValue,
    /// `ok(none)`, or `ok` with no payload: the clean end.
    OkEnd,
    /// `err(e)`: the plugin's error.
    PluginErr,
    /// A value that is no `result`.
    Bare,
}

/// What the pump feeding a host-side stream does after one poll.
#[derive(Debug, Clone, Copy, PartialEq, Eq)]
pub enum PumpStep {
    /// Hand the consumer an item (`error` false) or an error (`error` true).
    Forward { error: bool },
    /// The stream is over; hand over nothing more.
    Finish,
}

/// One poll's outcome: a failed call and a plugin error are forwarded as
/// errors, a clean end finishes the stream, and any other value is an item.
pub fn pump_step(shape: PollShape) -> (s: PumpStep)
    ensures
        s == match shape {
            PollShape::Trapped | PollShape::PluginErr => PumpStep::Forward { error: true },
            PollShape::OkValue | PollShape::Bare => PumpStep::Forward { error: false },
            PollShape::OkEnd => PumpStep::Finish,
        },
{
    match shape {
        PollShape::Trapped | PollShape::PluginErr => PumpStep::Forward { error: true },
        PollShape::OkValue | PollShape::Bare => PumpStep::Forward { error: false },
        PollShape::OkEnd => PumpStep::Finish,
    }
}

/// Whether the pump polls again after `step`, given whether the consumer
/// took what was forwarded: only after an item the consumer took, so an
/// error is the last thing a stream yields and a dropped consumer cancels it.
pub fn pump_continues(step: PumpStep, delivered: bool) -> (r: bool)
    ensures
        r == (step == PumpStep::Forward { error: false } && delivered),
{
    match step {
        PumpStep::Forward { error } => !error && delivered,
        PumpStep::Finish => false,
    }
}

/// The `wasi:http` version this host provides (major, minor, patch): the
/// ceiling for a guest on the same `major.minor` line.
pub const HOST_WASI_HTTP_MAJOR: u32 = 0;
/// See [`HOST_WASI_HTTP_MAJOR`].
pub const HOST_WASI_HTTP_MINOR: u32 = 2;
/// See [`HOST_WASI_HTTP_MAJOR`].
pub const HOST_WASI_HTTP_PATCH: u32 = 12;

/// The value of decimal digit characters, most significant first.
pub open spec fn digits_value(d: Seq<char>) -> nat
    decreases d.len(),
{
    if d.len() == 0 {
        0
    } else {
        digits_value(d.drop_last()) * 10 + ((d.last() as u32) - 48) as nat
    }
}

/// All characters are ASCII digits.
pub open spec fn all_digits(d: Seq<char>) -> bool {
    forall|i: int| 0 <= i < d.len() ==> '0' <= #[trigger] d[i] <= '9'
}

/// How `str::parse::<u32>` reads a string: an optional `+`, then at least one
/// decimal digit, with no overflow.
pub open spec fn parse_u32_spec(s: Seq<char>) -> Option<u32> {
    let d = if s.len() > 0 && s[0] == '+' {
        s.drop_first()
    } else {
        s
    };
    if d.len() == 0 || !all_digits(d) || digits_value(d) > u32::MAX {
        None
    } else {
        Some(digits_value(d) as u32)
    }
}

proof fn lemma_digits_value_prefix(d: Seq<char>, i: int)
    requires
        all_digits(d),
        0 <= i <= d.len(),
    ensures
        digits_value(d.take(i)) <= digits_value(d),
    decreases d.len() - i,
{
    if i < d.len() {
        lemma_digits_value_prefix(d, i + 1);
        assert(d.take(i + 1).drop_last() =~= d.take(i));
    } else {
        assert(d.take(i) =~= d);
    }
}

/// Parses a decimal `u32` the way `str::parse::<u32>` does.
pub fn parse_u32(s: &str) -> (r: Option<u32>)
    ensures
        r == parse_u32_spec(s@),
{
    let n = s.unicode_len();
    let start: usize = if n > 0 && s.get_char(0) == '+' {
        1
    } else {
        0
    };
    let ghost d = s@.subrange(start as int, n as int);
    assert(d =~= if s@.len() > 0 && s@[0] == '+' {
        s@.drop_first()
    } else {
        s@
    });
    if start == n {
        return None;
    }
    let mut i = start;
    let mut v: u64 = 0;
    while i < n
        invariant
            n == s@.len(),
            start <= i <= n,
            d == s@.subrange(start as int, n as int),
            d == if s@.len() > 0 && s@[0] == '+' {
                s@.drop_first()
            } else {
                s@
            },
            d.len() > 0,
            all_digits(d.take(i - start)),
            v == digits_value(d.take(i - start)),
            v <= u32::MAX,
        decreases n - i,
    {
        let c = s.get_char(i);
        if c < '0' || c > '9' {
            assert(!all_digits(d)) by {
                assert(d[i - start] == c);
            }
            return None;
        }
        assert(d.take(i - start + 1).drop_last() =~= d.take(i - start));
        assert(all_digits(d.take(i - start + 1))) by {
            assert forall|k: int| 0 <= k < d.take(i - start + 1).len() implies '0' <= #[trigger] d.take(i - start + 1)[k] <= '9' by {
                if k < i - start {
                    assert(d.take(i - start + 1)[k] == d.take(i - start)[k]);
                }
            }
        }
        v = v * 10 + ((c as u32) - 48) as u64;
        i += 1;
        if v > 0xffff_ffff {
            proof {
                if all_digits(d) {
                    lemma_digits_value_prefix(d, i - start);
                }
            }
            return None;
        }
    }
    assert(d.take(i - start) =~= d);
    Some(v as u32)
}

/// The `major.minor.patch` of a `wasi:http/...@M.m.p` import name, when it is
/// one and its version parses.
pub open spec fn wasi_http_import_version(name: Seq<char>) -> Option<(u32, u32, u32)> {
    let p = "wasi:http/"@;
    if !p.is_prefix_of(name) {
        None
    } else {
        let rest = name.subrange(p.len() as int, name.len() as int);
        match find_char_from(rest, 0, '@') {
            None => None,
            Some(a) => {
                let end = match find_char_from(rest, a + 1, '@') {
                    Some(b) => b,
                    None => rest.len() as int,
                };
                let ver = rest.subrange(a + 1, end);
                match find_char_from(ver, 0, '.') {
                    None => None,
                    Some(d1) => match find_char_from(ver, d1 + 1, '.') {
                        None => None,
                        Some(d2) => if find_char_from(ver, d2 + 1, '.') is Some {
                            None
                        } else {
                            match (
                                parse_u32_spec(ver.subrange(0, d1)),
                                parse_u32_spec(ver.subrange(d1 + 1, d2)),
                                parse_u32_spec(ver.subrange(d2 + 1, ver.len() as int)),
                            ) {
                                (Some(x), Some(y), Some(z)) => Some((x, y, z)),
                                _ => None,
                            }
                        },
                    },
                }
            },
        }
    }
}

/// The version named by the first import that names a parsable `wasi:http`
/// version this host cannot serve.
pub open spec fn first_incompatible_wasi_http(names: Seq<Seq<char>>) -> Option<(u32, u32, u32)>
    decreases names.len(),
{
    if names.len() == 0 {
        None
    } else {
        match wasi_http_import_version(names[0]) {
            Some(v) => if wasi_http_compatible(v) {
                first_incompatible_wasi_http(names.drop_first())
            } else {
                Some(v)
            },
            None => first_incompatible_wasi_http(names.drop_first()),
        }
    }
}

/// The import names a `wasi:http` version this host cannot serve.
pub open spec fn incompatible_import(name: Seq<char>) -> bool {
    match wasi_http_import_version(name) {
        Some(v) => !wasi_http_compatible(v),
        None => false,
    }
}

/// Some import names a `wasi:http` version this host cannot serve.
pub open spec fn some_import_incompatible(names: Seq<Seq<char>>) -> bool {
    exists|i: int| 0 <= i < names.len() && #[trigger] incompatible_import(names[i])
}

/// An incompatibility is found exactly when some import, wherever it stands,
/// names a `wasi:http` version this host cannot serve; the one reported is
/// named by an import.
#[verifier::spinoff_prover]
#[verifier::rlimit(40)]
pub proof fn lemma_incompatibility_found_anywhere(names: Seq<Seq<char>>)
    ensures
        first_incompatible_wasi_http(names) is Some <==> some_import_incompatible(names),
        first_incompatible_wasi_http(names) matches Some(v) ==> !wasi_http_compatible(v) && exists|
            i: int,
        | 0 <= i < names.len() && wasi_http_import_version(names[i]) == Some(v),
    decreases names.len(),
{
    if names.len() > 0 {
        let rest = names.drop_first();
        lemma_incompatibility_found_anywhere(rest);
        if incompatible_import(names[0]) {
            assert(some_import_incompatible(names));
        }
        if some_import_incompatible(names) {
            let i = choose|i: int| 0 <= i < names.len() && #[trigger] incompatible_import(names[i]);
            if i > 0 {
                assert(rest[i - 1] == names[i]);
                assert(incompatible_import(rest[i - 1]));
            }
        }
        if some_import_incompatible(rest) {
            let i = choose|i: int| 0 <= i < rest.len() && #[trigger] incompatible_import(rest[i]);
            assert(names[i + 1] == rest[i]);
            assert(incompatible_import(names[i + 1]));
        }
        if first_incompatible_wasi_http(rest) is Some && first_incompatible_wasi_http(names)
            == first_incompatible_wasi_http(rest) {
            let v = first_incompatible_wasi_http(rest)->0;
            let i = choose|i: int| 0 <= i < rest.len() && wasi_http_import_version(rest[i]) == Some(v);
            assert(names[i + 1] == rest[i]);
        }
    }
}

/// Whether this host serves a guest's `wasi:http` version: same major and minor,
/// patch no newer than the host's.
pub open spec fn wasi_http_compatible(v: (u32, u32, u32)) -> bool {
    v.0 == HOST_WASI_HTTP_MAJOR && v.1 == HOST_WASI_HTTP_MINOR && v.2 <= HOST_WASI_HTTP_PATCH
}

/// The message naming an unservable `wasi:http` version.
pub open spec fn wasi_http_incompatibility_message(v: (u32, u32, u32)) -> Seq<char> {
    "plugin requires wasi:http "@ + decimal_spec(v.0 as nat) + "."@ + decimal_spec(v.1 as nat)
        + "."@ + decimal_spec(v.2 as nat) + ", but this host provides "@ + decimal_spec(
        HOST_WASI_HTTP_MAJOR as nat,
    ) + "."@ + decimal_spec(HOST_WASI_HTTP_MINOR as nat) + "."@ + decimal_spec(
        HOST_WASI_HTTP_PATCH as nat,
    )
        + " — upgrade the host (newer wasmtime) or rebuild the plugin against an older fidius-guest"@
}

/// The views of a sequence of string slices.
pub open spec fn strs_view(v: Seq<&str>) -> Seq<Seq<char>> {
    v.map_values(|s: &str| s@)
}

fn import_version(name: &str) -> (r: Option<(u32, u32, u32)>)
    ensures
        r == wasi_http_import_version(name@),
{
    if !str_starts_with(name, "wasi:http/") {
        return None;
    }
    let rest = substring(name, "wasi:http/".unicode_len(), name.unicode_len());
    let a = match find_char(rest, 0, '@') {
        Some(a) => a,
        None => return None,
    };
    proof {
        assert(find_char_from(rest@, 0, '@') == Some(a as int));
        lemma_find_char_from(rest@, 0, '@');
    }
    let end = match find_char(rest, a + 1, '@') {
        Some(b) => {
            proof {
                lemma_find_char_from(rest@, a + 1, '@');
            }
            b
        },
        None => rest.unicode_len(),
    };
    let ver = substring(rest, a + 1, end);
    let d1 = match find_char(ver, 0, '.') {
        Some(d) => d,
        None => return None,
    };
    proof {
        lemma_find_char_from(ver@, 0, '.');
    }
    let d2 = match find_char(ver, d1 + 1, '.') {
        Some(d) => d,
        None => return None,
    };
    proof {
        lemma_find_char_from(ver@, d1 + 1, '.');
    }
    if find_char(ver, d2 + 1, '.').is_some() {
        return None;
    }
    let maj = parse_u32(substring(ver, 0, d1));
    let min = parse_u32(substring(ver, d1 + 1, d2));
    let pat = parse_u32(substring(ver, d2 + 1, ver.unicode_len()));
    match (maj, min, pat) {
        (Some(x), Some(y), Some(z)) => Some((x, y, z)),
        _ => None,
    }
}

/// Scans a component's import names for a `wasi:http` version this host cannot
/// serve, returning the message naming the first such version if any import
/// names one, wherever it stands.
#[verifier::spinoff_prover]
#[verifier::rlimit(40)]
pub fn wasi_http_incompatibility(import_names: &[&str]) -> (r: Option<String>)
    ensures
        match first_incompatible_wasi_http(strs_view(import_names@)) {
            Some(v) => r matches Some(m) && m@ == wasi_http_incompatibility_message(v),
            None => r is None,
        },
        r is Some <==> some_import_incompatible(strs_view(import_names@)),
{
    let n = import_names.len();
    let ghost names = strs_view(import_names@);
    assert(names.skip(0) =~= names);
    proof {
        lemma_incompatibility_found_anywhere(names);
    }
    for i in 0..n
        invariant
            n == import_names@.len(),
            names == strs_view(import_names@),
            first_incompatible_wasi_http(names) == first_incompatible_wasi_http(
                names.skip(i as int),
            ),
            first_incompatible_wasi_http(names) is Some <==> some_import_incompatible(names),
    {
        match import_version(import_names[i]) {
            None => {
                assert(names.skip(i as int).drop_first() =~= names.skip(i as int + 1));
            },
            Some((maj, min, pat)) => {
                if maj == HOST_WASI_HTTP_MAJOR && min == HOST_WASI_HTTP_MINOR && pat
                    <= HOST_WASI_HTTP_PATCH {
                    assert(names.skip(i as int).drop_first() =~= names.skip(i as int + 1));
                } else {
                let mut m = String::from_str("plugin requires wasi:http ");
                m.append(decimal(maj as u64).as_str());
                m.append(".");
                m.append(decimal(min as u64).as_str());
                m.append(".");
                m.append(decimal(pat as u64).as_str());
                m.append(", but this host provides ");
                m.append(decimal(HOST_WASI_HTTP_MAJOR as u64).as_str());
                m.append(".");
                m.append(decimal(HOST_WASI_HTTP_MINOR as u64).as_str());
                m.append(".");
                m.append(decimal(HOST_WASI_HTTP_PATCH as u64).as_str());
                m.append(
                    " — upgrade the host (newer wasmtime) or rebuild the plugin against an older fidius-guest",
                );
                return Some(m);
                }
            },
        }
    }
    assert(names.skip(n as int).len() == 0);
    None
}

/// Every capability name the sandbox knows is accepted on its own: `args`,
/// `stdout`, `stderr`, `stdin`, `network`, `sockets`, `clocks`, `random`,
/// `http`, `tcp` and `udp` each validate as a one-entry list.
pub proof fn lemma_known_names_validate(c: String)
    requires
        c@ == "args"@ || c@ == "stdout"@ || c@ == "stderr"@ || c@ == "stdin"@ || c@ == "network"@
            || c@ == "sockets"@ || c@ == "clocks"@ || c@ == "random"@ || c@ == "http"@ || c@
            == "tcp"@ || c@ == "udp"@,
    ensures
        known_capability(c@),
        capability_error(c) is None,
        capabilities_error(seq![c]) is None,
{
    reveal_strlit("env");
    reveal_strlit("env:");
    reveal_strlit("fs");
    reveal_strlit("filesystem");
    reveal_strlit("fs:ro:");
    reveal_strlit("fs:rw:");
    reveal_strlit("args");
    reveal_strlit("stdout");
    reveal_strlit("stderr");
    reveal_strlit("stdin");
    reveal_strlit("network");
    reveal_strlit("sockets");
    reveal_strlit("clocks");
    reveal_strlit("random");
    reveal_strlit("http");
    reveal_strlit("tcp");
    reveal_strlit("udp");
    let x = c@;
    assert(x.len() > 0 && x[0] != 'e' && x[0] != 'f');
    assert(x != "env"@ && x != "fs"@ && x != "filesystem"@) by {
        assert("env"@[0] == 'e');
        assert("fs"@[0] == 'f');
        assert("filesystem"@[0] == 'f');
    }
    assert(!"env:"@.is_prefix_of(x)) by {
        assert("env:"@[0] == 'e');
        if "env:"@.is_prefix_of(x) {
            assert(x[0] == "env:"@[0]);
        }
    }
    assert(!"fs:ro:"@.is_prefix_of(x)) by {
        assert("fs:ro:"@[0] == 'f');
        if "fs:ro:"@.is_prefix_of(x) {
            assert(x[0] == "fs:ro:"@[0]);
        }
    }
    assert(!"fs:rw:"@.is_prefix_of(x)) by {
        assert("fs:rw:"@[0] == 'f');
        if "fs:rw:"@.is_prefix_of(x) {
            assert(x[0] == "fs:rw:"@[0]);
        }
    }
    let l = seq![c];
    assert(l.drop_first() =~= Seq::<String>::empty());
    assert(first_capability_error(l.drop_first()) is None);
    assert(!(is_policy_egress(x) && is_coarse_network(x))) by {
        assert("network"@[0] == 'n' && "sockets"@[0] == 's' && "tcp"@[0] == 't' && "udp"@[0] == 'u');
    }
    if (exists|i: int| 0 <= i < l.len() && is_policy_egress(#[trigger] l[i]@)) && (exists|j: int|
        0 <= j < l.len() && is_coarse_network(#[trigger] l[j]@)) {
        let i = choose|i: int| 0 <= i < l.len() && is_policy_egress(#[trigger] l[i]@);
        let j = choose|j: int| 0 <= j < l.len() && is_coarse_network(#[trigger] l[j]@);
        assert(i == 0 && j == 0);
        assert(l[0] == c);
    }
    assert(first_capability_error(l) == capability_error(c));
}

} // verus!
