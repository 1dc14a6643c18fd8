//! Network permissions: the allow-list of `host[:port]` entries a sandbox
//! may contact, the permission decision `fetch` is gated by, and the
//! derivation of the allow-list from upstream server URLs.

use vstd::prelude::*;

verus! {

use crate::registry::McpError;
use crate::text::chars_of;
use crate::text::push_str_chars;
use crate::text::push_decimal;
use crate::text::spec_decimal;
use crate::text::str_eq;
use crate::text::string_from_chars;

/// The host, explicit port, and scheme of an absolute URL, a function of
/// the text alone per the URL Standard; nothing when the text is not an
/// absolute URL with a host.
pub uninterp spec fn url_parts_of(s: Seq<char>) -> Option<(Seq<char>, Option<u16>, Seq<char>)>;

/// Relies on `url::Url::parse` and its `host_str`, `port` and `scheme`
/// accessors: the parsed host, the explicit port (none when absent or the
/// scheme default), and the scheme of an absolute URL.
#[verifier::external_body]
fn url_parts(s: &str) -> (r: Option<(String, Option<u16>, String)>)
    ensures
        r is Some <==> url_parts_of(s@) is Some,
        r matches Some(p) ==> url_parts_of(s@) == Some((p.0@, p.1, p.2@)),
{
    match url::Url::parse(s) {
        Ok(u) => match u.host_str() {
            Some(h) => Some((h.to_string(), u.port(), u.scheme().to_string())),
            None => None,
        },
        Err(_) => None,
    }
}

/// The `host:port` form permission checks use: the bare host when no
/// port is given.
pub open spec fn spec_host_with_port(host: Seq<char>, port: Option<u16>) -> Seq<char> {
    match port {
        Some(p) => host + seq![':'] + spec_decimal(p as nat),
        None => host,
    }
}

/// Render the `host:port` form.
pub fn host_with_port(host: &str, port: Option<u16>) -> (r: String)
    ensures
        r@ == spec_host_with_port(host@, port),
{
    match port {
        Some(p) => {
            let mut out = chars_of(host);
            out.push(':');
            push_decimal(&mut out, p as u64);
            assert(out@ =~= spec_host_with_port(host@, Some(p)));
            string_from_chars(&out)
        },
        None => String::from_str(host),
    }
}

/// The allow-list of hosts a sandbox may contact.  An empty list denies
/// every request.
pub struct AllowedHosts {
    hosts: Vec<String>,
}

/// Whether `hosts` holds an entry reading `h`.
pub open spec fn spec_hosts_contain(hosts: Seq<String>, h: Seq<char>) -> bool {
    exists|j: int| 0 <= j < hosts.len() && (#[trigger] hosts[j])@ == h
}

impl AllowedHosts {
    /// The set of permitted entries.
    pub closed spec fn permitted(self) -> Set<Seq<char>> {
        Set::new(|h: Seq<char>| spec_hosts_contain(self.hosts@, h))
    }

    /// An allow-list holding exactly the given entries; none means none.
    pub fn new(hosts: Option<Vec<String>>) -> (r: AllowedHosts)
        ensures
            match hosts {
                Some(hs) => forall|h: Seq<char>|
                    #[trigger] r.permitted().contains(h) <==> spec_hosts_contain(hs@, h),
                None => r.permitted() =~= Set::empty(),
            },
    {
        match hosts {
            Some(hs) => {
                let r = AllowedHosts { hosts: hs };
                proof {
                    assert(forall|h: Seq<char>|
                        #[trigger] r.permitted().contains(h) <==> spec_hosts_contain(hs@, h));
                }
                r
            },
            None => {
                let r = AllowedHosts { hosts: Vec::new() };
                proof {
                    assert(r.permitted() =~= Set::empty());
                }
                r
            },
        }
    }

    /// Whether this exact entry is permitted.  With an empty allow-list
    /// nothing is.
    pub fn is_allowed(&self, host: &str) -> (r: bool)
        ensures
            r == self.permitted().contains(host@),
    {
        let mut i: usize = 0;
        while i < self.hosts.len()
            invariant
                i <= self.hosts@.len(),
                forall|j: int| 0 <= j < i ==> (#[trigger] self.hosts@[j])@ != host@,
            decreases self.hosts@.len() - i,
        {
            if str_eq(self.hosts[i].as_str(), host) {
                return true;
            }
            i = i + 1;
        }
        false
    }

    /// Add an entry to the allow-list.
    pub fn add(&mut self, host: String)
        ensures
            forall|h: Seq<char>|
                #[trigger] final(self).permitted().contains(h) <==> (old(
                    self,
                ).permitted().contains(h) || h == host@),
    {
        let ghost hv = host@;
        self.hosts.push(host);
        proof {
            let nh = self.hosts@;
            let oh = old(self).hosts@;
            assert forall|h: Seq<char>|
                #[trigger] final(self).permitted().contains(h) <==> (old(
                    self,
                ).permitted().contains(h) || h == hv) by {
                if spec_hosts_contain(nh, h) {
                    let j = choose|j: int| 0 <= j < nh.len() && (#[trigger] nh[j])@ == h;
                    if j < oh.len() {
                        assert(oh[j] == nh[j]);
                    }
                }
                if spec_hosts_contain(oh, h) {
                    let j = choose|j: int| 0 <= j < oh.len() && (#[trigger] oh[j])@ == h;
                    assert(nh[j]@ == h);
                }
                if h == hv {
                    assert(nh[oh.len() as int]@ == h);
                }
            }
        }
    }

    /// Remove every entry reading `host`; whether any was there comes
    /// back.
    #[verifier::loop_isolation(false)]
    pub fn remove(&mut self, host: &str) -> (r: bool)
        ensures
            r == old(self).permitted().contains(host@),
            forall|h: Seq<char>|
                #[trigger] final(self).permitted().contains(h) <==> (old(
                    self,
                ).permitted().contains(h) && h != host@),
    {
        let ghost orig = self.hosts@;
        let mut kept: Vec<String> = Vec::new();
        let mut found = false;
        let mut i: usize = 0;
        while i < self.hosts.len()
            invariant
                self.hosts@ == orig,
                i <= orig.len(),
                found == (exists|j: int| 0 <= j < i && (#[trigger] orig[j])@ == host@),
                forall|h: Seq<char>|
                    #[trigger] spec_hosts_contain(kept@, h) <==> (exists|j: int|
                        0 <= j < i && (#[trigger] orig[j])@ == h) && h != host@,
            decreases orig.len() - i,
        {
            let ghost kept0 = kept@;
            if str_eq(self.hosts[i].as_str(), host) {
                found = true;
            } else {
                let entry = self.hosts[i].clone();
                kept.push(entry);
            }
            i = i + 1;
            proof {
                if orig[i - 1]@ == host@ {
                    assert(kept@ == kept0);
                } else {
                    assert(kept@ =~= kept0.push(orig[i - 1]));
                }
                assert forall|h: Seq<char>|
                    #[trigger] spec_hosts_contain(kept@, h) implies ((exists|j: int|
                    0 <= j < i && (#[trigger] orig[j])@ == h) && h != host@) by {
                    let k = choose|k: int| 0 <= k < kept@.len() && (#[trigger] kept@[k])@ == h;
                    if k < kept0.len() {
                        assert(kept0[k]@ == h);
                        assert(spec_hosts_contain(kept0, h));
                    } else {
                        assert(kept@[k] == orig[i - 1]);
                        assert(orig[i - 1]@ == h);
                    }
                }
                assert forall|h: Seq<char>|
                    ((exists|j: int| 0 <= j < i && (#[trigger] orig[j])@ == h) && h != host@)
                        implies #[trigger] spec_hosts_contain(kept@, h) by {
                    let j = choose|j: int| 0 <= j < i && (#[trigger] orig[j])@ == h;
                    if j < i - 1 {
                        assert(spec_hosts_contain(kept0, h));
                        let k = choose|k: int|
                            0 <= k < kept0.len() && (#[trigger] kept0[k])@ == h;
                        assert(kept@[k]@ == h);
                    } else {
                        assert(orig[i - 1]@ == h);
                        assert(kept@[kept@.len() - 1]@ == h);
                    }
                }
            }
        }
        self.hosts = kept;
        found
    }

    /// Empty the allow-list.
    pub fn clear(&mut self)
        ensures
            final(self).permitted() =~= Set::empty(),
    {
        self.hosts.clear();
    }

    /// The permission decision for a parsed host and port: the request
    /// may proceed when `host:port` (or, failing that, the bare host) is
    /// a permitted entry.
    pub fn host_permitted(&self, host: &str, port: Option<u16>) -> (r: bool)
        ensures
            r == (self.permitted().contains(spec_host_with_port(host@, port))
                || self.permitted().contains(host@)),
    {
        let hp = host_with_port(host, port);
        if self.is_allowed(hp.as_str()) {
            true
        } else {
            self.is_allowed(host)
        }
    }

    /// The full permission gate of the sandbox's `fetch`: parse the URL,
    /// derive the host (with its explicit port when present), and check
    /// it against the allow-list.  The result names the permitted
    /// `host:port` entry form; a denial rejects with a network access
    /// message, and an unparseable URL with an invalid-URL message.
    pub fn fetch_permission(&self, url: &str) -> (r: Result<String, McpError>)
        ensures
            r is Ok <==> (url_parts_of(url@) matches Some(p) && (self.permitted().contains(
                spec_host_with_port(p.0, p.1),
            ) || self.permitted().contains(p.0))),
            r matches Ok(h) ==> h@ == spec_host_with_port(
                (url_parts_of(url@)->0).0,
                (url_parts_of(url@)->0).1,
            ),
            r matches Err(e) ==> e matches McpError::ToolCall(m) && (url_parts_of(url@) is None
                ==> m@ == "Invalid URL"@) && (url_parts_of(url@) matches Some(p) ==> m@
                == "Network access to host '"@ + spec_host_with_port(p.0, p.1)
                    + "' is not allowed"@),
    {
        match url_parts(url) {
            None => Err(McpError::ToolCall(String::from_str("Invalid URL"))),
            Some((host, port, _scheme)) => {
                let hp = host_with_port(host.as_str(), port);
                if self.is_allowed(hp.as_str()) || self.is_allowed(host.as_str()) {
                    Ok(hp)
                } else {
                    let mut msg = chars_of("Network access to host '");
                    push_str_chars(&mut msg, hp.as_str());
                    push_str_chars(&mut msg, "' is not allowed");
                    Err(McpError::ToolCall(string_from_chars(&msg)))
                }
            },
        }
    }
}

/// The ASCII-uppercased form of `s`, character by character.
pub open spec fn spec_ascii_upper(s: Seq<char>, i: int) -> Seq<char>
    decreases i,
{
    if i <= 0 {
        Seq::empty()
    } else {
        spec_ascii_upper(s, i - 1).push(crate::case::spec_upper(s[i - 1]))
    }
}

/// Whether an uppercased method name is one the sandbox's fetch issues.
pub open spec fn spec_supported_method(m: Seq<char>) -> bool {
    ||| m == "GET"@
    ||| m == "POST"@
    ||| m == "PUT"@
    ||| m == "DELETE"@
    ||| m == "PATCH"@
}

/// Gate the HTTP method of a sandbox fetch: the ASCII-uppercased name
/// must be one of the five the runtime issues; anything else is refused
/// with the unsupported-method message carrying the name as given.
#[verifier::loop_isolation(false)]
pub fn validate_fetch_method(method: &str) -> (r: Result<String, McpError>)
    ensures
        r is Ok <==> spec_supported_method(spec_ascii_upper(method@, method@.len() as int)),
        r matches Ok(m) ==> m@ == spec_ascii_upper(method@, method@.len() as int),
        r matches Err(e) ==> e matches McpError::ToolCall(msg) && msg@
            == "Unsupported HTTP method: "@ + method@,
{
    let cs = chars_of(method);
    let mut up: Vec<char> = Vec::new();
    let mut i: usize = 0;
    while i < cs.len()
        invariant
            i <= cs@.len(),
            cs@ == method@,
            up@ == spec_ascii_upper(method@, i as int),
        decreases cs@.len() - i,
    {
        let c = crate::case::upper_char(cs[i]);
        up.push(c);
        i = i + 1;
    }
    let upper = string_from_chars(&up);
    if str_eq(upper.as_str(), "GET") || str_eq(upper.as_str(), "POST") || str_eq(
        upper.as_str(),
        "PUT",
    ) || str_eq(upper.as_str(), "DELETE") || str_eq(upper.as_str(), "PATCH") {
        Ok(upper)
    } else {
        let mut msg = chars_of("Unsupported HTTP method: ");
        push_str_chars(&mut msg, method);
        Err(McpError::ToolCall(string_from_chars(&msg)))
    }
}

/// The allow-list entry one upstream URL contributes: its host joined
/// with its explicit port, or with the scheme default (443 for `https`,
/// 80 otherwise).
pub open spec fn spec_upstream_entry(host: Seq<char>, port: Option<u16>, scheme: Seq<char>) -> Seq<
    char,
> {
    match port {
        Some(p) => spec_host_with_port(host, Some(p)),
        None => spec_host_with_port(
            host,
            Some(
                if scheme == "https"@ {
                    443u16
                } else {
                    80u16
                },
            ),
        ),
    }
}

/// The entries of the upstream URLs from index `i` on that parse, in
/// order.
pub open spec fn spec_derived_hosts(urls: Seq<String>, i: int) -> Seq<Seq<char>>
    decreases urls.len() - i,
{
    if i < 0 || i >= urls.len() {
        Seq::empty()
    } else {
        (match url_parts_of(urls[i]@) {
            Some(p) => seq![spec_upstream_entry(p.0, p.1, p.2)],
            None => Seq::empty(),
        }) + spec_derived_hosts(urls, i + 1)
    }
}

/// Derive the sandbox allow-list from the upstream server URLs: one
/// `host:port` entry per URL that parses, using scheme defaults when the
/// port is implicit.
#[verifier::loop_isolation(false)]
pub fn derive_allowed_hosts(urls: &Vec<String>) -> (r: Vec<String>)
    ensures
        r@.len() == spec_derived_hosts(urls@, 0).len(),
        forall|j: int|
            0 <= j < r@.len() ==> (#[trigger] r@[j])@ == spec_derived_hosts(urls@, 0)[j],
{
    let mut out: Vec<String> = Vec::new();
    let mut i: usize = 0;
    while i < urls.len()
        invariant
            i <= urls@.len(),
            spec_derived_hosts(urls@, 0) == out_views(out@) + spec_derived_hosts(
                urls@,
                i as int,
            ),
        decreases urls@.len() - i,
    {
        match url_parts(urls[i].as_str()) {
            Some((host, port, scheme)) => {
                let entry = match port {
                    Some(p) => host_with_port(host.as_str(), Some(p)),
                    None => {
                        let is_https = str_eq(scheme.as_str(), "https");
                        host_with_port(
                            host.as_str(),
                            Some(
                                if is_https {
                                    443u16
                                } else {
                                    80u16
                                },
                            ),
                        )
                    },
                };
                out.push(entry);
            },
            None => {},
        }
        i = i + 1;
        assert(spec_derived_hosts(urls@, 0) =~= out_views(out@) + spec_derived_hosts(
            urls@,
            i as int,
        ));
    }
    proof {
        assert(spec_derived_hosts(urls@, 0) =~= out_views(out@));
    }
    out
}

/// The views of a vector of strings, in order.
pub open spec fn out_views(v: Seq<String>) -> Seq<Seq<char>> {
    v.map(|_i: int, s: String| s@)
}

} // verus!
