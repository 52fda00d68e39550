//! Operator configuration: the DNS backend, the router's address, the DNS
//! domain and the naming rules built on them.

use vstd::prelude::*;
use crate::text::{lemma_trim, chars_of, concat3, lowercase, owned, push_char, str_eq, string_views, to_lowercase, trim, trim_whitespace};

verus! {

broadcast use vstd::string::group_string_axioms;

/// Supported DNS backends.
#[derive(Debug, Clone, Copy, PartialEq, Eq, Structural)]
pub enum DnsBackend {
    RouterOs,
    GlInet,
}

impl Default for DnsBackend {
    fn default() -> (r: Self)
        ensures
            r == DnsBackend::RouterOs,
    {
        DnsBackend::RouterOs
    }
}

/// The backend named by an already lowercased name, if any.
pub open spec fn backend_named(lower: Seq<char>) -> Option<DnsBackend> {
    if lower == "routeros"@ || lower == "ros"@ || lower == "mikrotik"@ {
        Some(DnsBackend::RouterOs)
    } else if lower == "glinet"@ || lower == "gl-inet"@ || lower == "gl.inet"@ {
        Some(DnsBackend::GlInet)
    } else {
        None
    }
}

/// The display name of a backend.
pub open spec fn backend_display(b: DnsBackend) -> Seq<char> {
    match b {
        DnsBackend::RouterOs => "routeros"@,
        DnsBackend::GlInet => "glinet"@,
    }
}

impl DnsBackend {
    /// Parse a backend name, ignoring case.
    pub fn parse_name(s: &str) -> (r: Result<DnsBackend, String>)
        ensures
            match backend_named(lowercase(s@)) {
                Some(b) => r == Ok::<DnsBackend, String>(b),
                None => r is Err && r->Err_0@ == "Unknown DNS backend: "@ + s@,
            },
    {
        let lower = to_lowercase(s);
        let l = lower.as_str();
        if str_eq(l, "routeros") || str_eq(l, "ros") || str_eq(l, "mikrotik") {
            Ok(DnsBackend::RouterOs)
        } else if str_eq(l, "glinet") || str_eq(l, "gl-inet") || str_eq(l, "gl.inet") {
            Ok(DnsBackend::GlInet)
        } else {
            let mut msg = owned("Unknown DNS backend: ");
            msg.append(s);
            Err(msg)
        }
    }

    /// The name under which the backend is shown.
    pub fn display_name(&self) -> (r: &'static str)
        ensures
            r@ == backend_display(*self),
    {
        match self {
            DnsBackend::RouterOs => "routeros",
            DnsBackend::GlInet => "glinet",
        }
    }
}

impl std::str::FromStr for DnsBackend {
    type Err = String;

    fn from_str(s: &str) -> (r: Result<Self, Self::Err>)
        ensures
            match backend_named(lowercase(s@)) {
                Some(b) => r == Ok::<DnsBackend, String>(b),
                None => r is Err && r->Err_0@ == "Unknown DNS backend: "@ + s@,
            },
    {
        DnsBackend::parse_name(s)
    }
}

/// Operator configuration.
#[derive(Debug, Clone)]
pub struct Config {
    /// DNS backend to use: `routeros` or `glinet`.
    pub dns_backend: DnsBackend,
    /// Router host, an IP or a hostname.
    pub dns_host: String,
    /// API username (RouterOS only).
    pub dns_username: String,
    /// API/admin password.
    pub dns_password: String,
    /// Use HTTPS (true) or HTTP (false).
    pub dns_use_tls: bool,
    /// Verify the router's TLS certificate.
    pub dns_tls_verify: bool,
    /// Domain suffix appended to host names, e.g. "lab.example.com".
    pub dns_domain: String,
    /// TTL of created records, in RouterOS format, e.g. "15m".
    pub dns_ttl: String,
    /// Comment written to every managed record.
    pub dns_comment_tag: String,
    /// Comma-separated namespaces to watch; empty means all.
    pub watch_namespaces: String,
    /// Whether the guest cluster label of a VM names its host.
    pub dns_use_guest_cluster_label: bool,
}

/// The base URL of the backend's API.
pub open spec fn base_url_spec(backend: DnsBackend, use_tls: bool, host: Seq<char>) -> Seq<char> {
    let scheme = if use_tls { "https"@ } else { "http"@ };
    match backend {
        DnsBackend::RouterOs => scheme + "://"@ + host + "/rest"@,
        DnsBackend::GlInet => scheme + "://"@ + host,
    }
}

/// The fully qualified name of `name` in `domain`: its lowercase form, a dot, the domain.
pub open spec fn fqdn_spec(name: Seq<char>, domain: Seq<char>) -> Seq<char> {
    lowercase(name) + "."@ + domain
}

/// The pieces of `s` between the occurrences of `sep`, as `str::split` gives them.
pub open spec fn split_on(s: Seq<char>, sep: char) -> Seq<Seq<char>>
    decreases s.len(),
{
    if s.len() == 0 {
        seq![Seq::<char>::empty()]
    } else {
        let prev = split_on(s.drop_last(), sep);
        if s.last() == sep {
            prev.push(Seq::<char>::empty())
        } else {
            prev.update(prev.len() - 1, prev.last().push(s.last()))
        }
    }
}

/// The trimmed pieces that are not empty, in order.
pub open spec fn trimmed_nonempty(pieces: Seq<Seq<char>>) -> Seq<Seq<char>>
    decreases pieces.len(),
{
    if pieces.len() == 0 {
        Seq::empty()
    } else {
        let rest = trimmed_nonempty(pieces.drop_last());
        let t = trim_whitespace(pieces.last());
        if t.len() > 0 {
            rest.push(t)
        } else {
            rest
        }
    }
}

/// The namespaces named by a watch list: none for an empty list, else the
/// trimmed comma-separated entries that are not empty.
pub open spec fn namespaces_spec(list: Seq<char>) -> Seq<Seq<char>> {
    if list.len() == 0 {
        Seq::empty()
    } else {
        trimmed_nonempty(split_on(list, ','))
    }
}

/// The pieces joined back together, with `sep` between each two.
pub open spec fn join_with(pieces: Seq<Seq<char>>, sep: char) -> Seq<char>
    decreases pieces.len(),
{
    if pieces.len() <= 1 {
        if pieces.len() == 0 {
            Seq::empty()
        } else {
            pieces[0]
        }
    } else {
        join_with(pieces.drop_last(), sep).push(sep) + pieces.last()
    }
}

/// Splitting loses nothing: the pieces joined with the separator give the
/// string back. With `lemma_split_on_pieces` (no piece holds the separator)
/// this fixes the pieces.
pub proof fn lemma_split_on_joins(s: Seq<char>, sep: char)
    ensures
        join_with(split_on(s, sep), sep) == s,
    decreases s.len(),
{
    if s.len() > 0 {
        let init = s.drop_last();
        lemma_split_on_joins(init, sep);
        lemma_split_on_nonempty(init, sep);
        let prev = split_on(init, sep);
        if s.last() == sep {
            assert(prev.push(Seq::<char>::empty()).drop_last() =~= prev);
            assert(join_with(prev, sep).push(sep) =~= s);
        } else {
            let cur = prev.update(prev.len() - 1, prev.last().push(s.last()));
            if prev.len() == 1 {
                assert(cur[0] =~= init.push(s.last()));
            } else {
                assert(cur.drop_last() =~= prev.drop_last());
                assert(join_with(prev.drop_last(), sep).push(sep) + prev.last().push(s.last())
                    =~= (join_with(prev.drop_last(), sep).push(sep) + prev.last()).push(s.last()));
            }
            assert(init.push(s.last()) =~= s);
        }
    }
}

/// The kept entries are exactly the trimmed pieces that are not empty, in order.
pub proof fn lemma_trimmed_nonempty_is_filter(pieces: Seq<Seq<char>>)
    ensures
        trimmed_nonempty(pieces) == pieces.map_values(|p: Seq<char>| trim_whitespace(p)).filter(
            |t: Seq<char>| t.len() > 0,
        ),
    decreases pieces.len(),
{
    reveal(Seq::filter);
    let ts = pieces.map_values(|p: Seq<char>| trim_whitespace(p));
    if pieces.len() > 0 {
        let init = pieces.drop_last();
        lemma_trimmed_nonempty_is_filter(init);
        assert(ts.drop_last() =~= init.map_values(|p: Seq<char>| trim_whitespace(p)));
        assert(ts.last() == trim_whitespace(pieces.last()));
    } else {
        assert(ts =~= Seq::<Seq<char>>::empty());
    }
}

/// `split_on` always yields at least one piece.
pub proof fn lemma_split_on_nonempty(s: Seq<char>, sep: char)
    ensures
        split_on(s, sep).len() >= 1,
    decreases s.len(),
{
    if s.len() > 0 {
        lemma_split_on_nonempty(s.drop_last(), sep);
    }
}

/// Every namespace parsed from a watch list is a trimmed entry that is not empty.
pub proof fn lemma_namespaces_nonempty(pieces: Seq<Seq<char>>)
    ensures
        forall|i: int|
            0 <= i < trimmed_nonempty(pieces).len() ==> (#[trigger] trimmed_nonempty(pieces)[i]).len() > 0,
    decreases pieces.len(),
{
    if pieces.len() > 0 {
        lemma_namespaces_nonempty(pieces.drop_last());
        let rest = trimmed_nonempty(pieces.drop_last());
        assert forall|i: int| 0 <= i < trimmed_nonempty(pieces).len() implies (
        #[trigger] trimmed_nonempty(pieces)[i]).len() > 0 by {
            if i < rest.len() {
                assert(trimmed_nonempty(pieces)[i] == rest[i]);
            }
        }
    }
}

/// No piece of `split_on` holds the separator.
pub proof fn lemma_split_on_pieces(s: Seq<char>, sep: char)
    ensures
        forall|i: int, j: int|
            0 <= i < split_on(s, sep).len() && 0 <= j < split_on(s, sep)[i].len() ==> #[trigger] split_on(
                s,
                sep,
            )[i][j] != sep,
    decreases s.len(),
{
    if s.len() > 0 {
        lemma_split_on_pieces(s.drop_last(), sep);
        lemma_split_on_nonempty(s.drop_last(), sep);
        let prev = split_on(s.drop_last(), sep);
        let cur = split_on(s, sep);
        assert forall|i: int, j: int|
            0 <= i < cur.len() && 0 <= j < cur[i].len() implies #[trigger] cur[i][j] != sep by {
            if s.last() == sep {
                if i < prev.len() {
                    assert(cur[i] == prev[i]);
                }
            } else if i == prev.len() - 1 {
                if j < prev.last().len() {
                    assert(cur[i][j] == prev[i][j]);
                }
            } else {
                assert(cur[i] == prev[i]);
            }
        }
    }
}

/// Each entry kept by `trimmed_nonempty` is the trim of one of the pieces,
/// and is not empty.
pub proof fn lemma_trimmed_nonempty_members(pieces: Seq<Seq<char>>)
    ensures
        forall|i: int|
            0 <= i < trimmed_nonempty(pieces).len() ==> exists|k: int|
                0 <= k < pieces.len() && #[trigger] trimmed_nonempty(pieces)[i] == trim_whitespace(
                    #[trigger] pieces[k],
                ),
    decreases pieces.len(),
{
    if pieces.len() > 0 {
        let init = pieces.drop_last();
        lemma_trimmed_nonempty_members(init);
        let rest = trimmed_nonempty(init);
        assert forall|i: int| 0 <= i < trimmed_nonempty(pieces).len() implies exists|k: int|
            0 <= k < pieces.len() && #[trigger] trimmed_nonempty(pieces)[i] == trim_whitespace(
                #[trigger] pieces[k],
            ) by {
            if i < rest.len() {
                assert(trimmed_nonempty(pieces)[i] == rest[i]);
                let k = choose|k: int|
                    0 <= k < init.len() && #[trigger] rest[i] == trim_whitespace(#[trigger] init[k]);
                assert(pieces[k] == init[k]);
            } else {
                assert(pieces[pieces.len() - 1] == pieces.last());
            }
        }
    }
}

/// Every namespace of a watch list is not empty, is already trimmed, and
/// holds no comma.
pub proof fn lemma_namespaces_trimmed(list: Seq<char>)
    ensures
        forall|i: int|
            0 <= i < namespaces_spec(list).len() ==> {
                let n = #[trigger] namespaces_spec(list)[i];
                &&& n.len() > 0
                &&& trim_whitespace(n) == n
                &&& !n.contains(',')
            },
{
    if list.len() > 0 {
        let pieces = split_on(list, ',');
        lemma_split_on_pieces(list, ',');
        lemma_trimmed_nonempty_members(pieces);
        lemma_namespaces_nonempty(pieces);
        assert forall|i: int| 0 <= i < namespaces_spec(list).len() implies {
            let n = #[trigger] namespaces_spec(list)[i];
            &&& n.len() > 0
            &&& trim_whitespace(n) == n
            &&& !n.contains(',')
        } by {
            let n = namespaces_spec(list)[i];
            assert(n == trimmed_nonempty(pieces)[i]);
            let k = choose|k: int|
                0 <= k < pieces.len() && #[trigger] trimmed_nonempty(pieces)[i] == trim_whitespace(
                    #[trigger] pieces[k],
                );
            lemma_trim(pieces[k]);
            if n.contains(',') {
                let j = choose|j: int| 0 <= j < n.len() && n[j] == ',';
                assert(pieces[k].contains(n[j]));
                let m = choose|m: int| 0 <= m < pieces[k].len() && pieces[k][m] == n[j];
                assert(split_on(list, ',')[k][m] != ',');
            }
        }
    }
}

/// Append the trimmed piece to `out` when it is not empty.
fn push_trimmed(out: &mut Vec<String>, piece: &String)
    ensures
        string_views(final(out)@) == ({
            let t = trim_whitespace(piece@);
            if t.len() > 0 {
                string_views(old(out)@).push(t)
            } else {
                string_views(old(out)@)
            }
        }),
{
    let t = trim(piece.as_str());
    if t.as_str().unicode_len() > 0 {
        out.push(t);
        assert(string_views(final(out)@) =~= string_views(old(out)@).push(
            trim_whitespace(piece@),
        ));
    }
}

impl Config {
    /// Build the base URL for the DNS backend API.
    pub fn dns_base_url(&self) -> (r: String)
        ensures
            r@ == base_url_spec(self.dns_backend, self.dns_use_tls, self.dns_host@),
    {
        let scheme = if self.dns_use_tls { "https" } else { "http" };
        match self.dns_backend {
            DnsBackend::RouterOs => {
                let mut r = concat3(scheme, "://", self.dns_host.as_str());
                r.append("/rest");
                r
            },
            DnsBackend::GlInet => concat3(scheme, "://", self.dns_host.as_str()),
        }
    }

    /// Build the FQDN for a VM.
    pub fn fqdn_for(&self, vm_name: &str) -> (r: String)
        ensures
            r@ == fqdn_spec(vm_name@, self.dns_domain@),
    {
        let lower = to_lowercase(vm_name);
        concat3(lower.as_str(), ".", self.dns_domain.as_str())
    }

    /// Parse the watch list into namespaces. An empty list watches all.
    pub fn namespaces(&self) -> (r: Vec<String>)
        ensures
            string_views(r@) == namespaces_spec(self.watch_namespaces@),
    {
        let mut out: Vec<String> = Vec::new();
        if self.watch_namespaces.as_str().is_empty() {
            assert(string_views(out@) =~= Seq::<Seq<char>>::empty());
            return out;
        }
        let cs = chars_of(self.watch_namespaces.as_str());
        let ghost s = self.watch_namespaces@;
        let mut cur = String::new();
        let mut i: usize = 0;
        proof {
            assert(s.take(0) =~= Seq::<char>::empty());
            assert(string_views(out@) =~= Seq::<Seq<char>>::empty());
        }
        while i < cs.len()
            invariant
                cs@ == s,
                i <= cs.len(),
                split_on(s.take(i as int), ',').len() >= 1,
                cur@ == split_on(s.take(i as int), ',').last(),
                string_views(out@) == trimmed_nonempty(
                    split_on(s.take(i as int), ',').drop_last(),
                ),
            decreases cs.len() - i,
        {
            let c = cs[i];
            let ghost prev = split_on(s.take(i as int), ',');
            proof {
                assert(s.take(i + 1).drop_last() =~= s.take(i as int));
                assert(s.take(i + 1).last() == c);
            }
            if c == ',' {
                push_trimmed(&mut out, &cur);
                cur = String::new();
                proof {
                    let next = split_on(s.take(i + 1), ',');
                    assert(next == prev.push(Seq::<char>::empty()));
                    assert(next.drop_last() =~= prev);
                    assert(prev == prev.drop_last().push(prev.last()));
                }
            } else {
                push_char(&mut cur, c);
                proof {
                    let next = split_on(s.take(i + 1), ',');
                    assert(next.drop_last() =~= prev.drop_last());
                }
            }
            i = i + 1;
        }
        push_trimmed(&mut out, &cur);
        proof {
            let all = split_on(s, ',');
            assert(s.take(cs.len() as int) =~= s);
            assert(all == all.drop_last().push(all.last()));
        }
        out
    }
}

/// Default router host.
pub fn default_dns_host() -> (r: String)
    ensures
        r@ == "192.168.1.1"@,
{
    owned("192.168.1.1")
}

/// Default API user name.
pub fn default_dns_username() -> (r: String)
    ensures
        r@ == "admin"@,
{
    owned("admin")
}

/// TLS certificates are verified by default.
pub fn default_tls_verify() -> (r: bool)
    ensures
        r,
{
    true
}

/// HTTPS is used by default.
pub fn default_tls() -> (r: bool)
    ensures
        r,
{
    true
}

/// Default record TTL.
pub fn default_ttl() -> (r: String)
    ensures
        r@ == "15m"@,
{
    owned("15m")
}

/// Default comment tag of managed records.
pub fn default_comment_tag() -> (r: String)
    ensures
        r@ == "managed-by=harvester-dns-controller"@,
{
    owned("managed-by=harvester-dns-controller")
}

/// The guest cluster label names hosts by default.
pub fn default_use_guest_cluster_label() -> (r: bool)
    ensures
        r,
{
    true
}

} // verus!
