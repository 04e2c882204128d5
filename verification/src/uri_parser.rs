//! Classification of server addresses: scheme, host list, onion or DNS, and
//! whether the address belongs to the operator.

use crate::text::{
    before, chars_of, contains, ends_with, find_from, has_substring, has_suffix,
    lemma_split_first, same_chars, slice_of, split, split_chars, string_of, texts_of, views_of,
};
use vstd::prelude::*;

verus! {

/// How the hosts of an address are reached.
#[derive(Clone, Copy, Debug, PartialEq, Eq, Structural)]
pub enum DomainKind {
    Onion,
    Dns,
}

/// Why an address was rejected.
#[derive(Clone, Copy, Debug, PartialEq, Eq, Structural)]
pub enum UriError {
    /// The scheme is neither `smp` nor `xftp`.
    InvalidUri,
}

/// What the host field of a server says about it.
#[derive(Debug)]
pub struct DomainInfo {
    pub kind: DomainKind,
    pub hosts: Vec<String>,
    pub is_official: bool,
}

/// The text that marks an address as the operator's own.
pub open spec fn official_marker() -> Seq<char> {
    "simplex.im"@
}

/// The suffix of hosts on the anonymized network.
pub open spec fn onion_suffix() -> Seq<char> {
    ".onion"@
}

/// `address` holds the operator's marker anywhere in it.
pub open spec fn is_official(address: Seq<char>) -> bool {
    has_substring(address, official_marker())
}

/// `domain` is a host on the anonymized network.
pub open spec fn is_onion(domain: Seq<char>) -> bool {
    has_suffix(domain, onion_suffix())
}

/// The `host[:port]` entry without its port.
pub open spec fn bare_host(entry: Seq<char>) -> Seq<char> {
    before(entry, ':')
}

/// Each of `entries` without its port, in order.
pub open spec fn without_ports(entries: Seq<Seq<char>>) -> Seq<Seq<char>> {
    entries.map_values(|entry: Seq<char>| bare_host(entry))
}

/// The bare hosts of a comma-separated host list, in order.
pub open spec fn bare_hosts(host: Seq<char>) -> Seq<Seq<char>> {
    without_ports(split(host, ','))
}

/// At least one of `hosts` is an onion host.
pub open spec fn any_onion(hosts: Seq<Seq<char>>) -> bool {
    exists|i: int| 0 <= i < hosts.len() && is_onion(#[trigger] hosts[i])
}

/// Onion where any host is an onion host, else DNS.
pub open spec fn kind_of(hosts: Seq<Seq<char>>) -> DomainKind {
    if any_onion(hosts) {
        DomainKind::Onion
    } else {
        DomainKind::Dns
    }
}

/// The first bare host of a host list: the one that is located and whose info
/// page is fetched.
pub open spec fn primary_domain(host: Seq<char>) -> Seq<char> {
    bare_hosts(host)[0]
}

/// What follows the first `@` of `input` up to the next `@`, empty where
/// `input` holds no `@`.
pub open spec fn host_part(input: Seq<char>) -> Seq<char> {
    let parts = split(input, '@');
    if parts.len() > 1 {
        parts[1]
    } else {
        Seq::empty()
    }
}

/// The `host[:port]` entries of an address.
pub open spec fn hostnames(input: Seq<char>) -> Seq<Seq<char>> {
    split(host_part(input), ',')
}

/// The part of an address before its first colon.
pub open spec fn uri_scheme(uri: Seq<char>) -> Seq<char> {
    before(uri, ':')
}

/// The scheme of `uri` is one of the two that are validated.
pub open spec fn is_recognised(uri: Seq<char>) -> bool {
    uri_scheme(uri) == "smp"@ || uri_scheme(uri) == "xftp"@
}

/// Those of `hosts` that are not the operator's own, in order.
pub open spec fn unofficial(hosts: Seq<Seq<char>>) -> Seq<Seq<char>> {
    hosts.filter(|h: Seq<char>| !is_official(h))
}

/// The hosts of `uri` that are to be validated: its entries that are not the
/// operator's own, each without its port.
pub open spec fn hosts_to_validate(uri: Seq<char>) -> Seq<Seq<char>> {
    without_ports(unofficial(hostnames(uri)))
}

impl DomainInfo {
    /// This is what the host list `host` is classified as.
    pub open spec fn describes(&self, host: Seq<char>) -> bool {
        &&& texts_of(self.hosts@) == bare_hosts(host)
        &&& self.kind == kind_of(bare_hosts(host))
        &&& self.is_official == is_official(host)
    }

    /// The first bare host, where the list holds one.
    pub fn primary(&self) -> (domain: Option<&str>)
        ensures
            match domain {
                Some(first) => self.hosts.len() > 0 && first@ == self.hosts[0]@,
                None => self.hosts.len() == 0,
            },
    {
        if self.hosts.len() > 0 {
            Some(self.hosts[0].as_str())
        } else {
            None
        }
    }
}

impl UriError {
    /// What went wrong, in words.
    pub fn message(&self) -> (text: String)
        ensures
            text@ == "Invalid SMP/XFTP URI"@,
    {
        "Invalid SMP/XFTP URI".to_owned()
    }
}

/// Whether the characters of an address hold the operator's marker.
fn official_chars(address: &Vec<char>) -> (r: bool)
    ensures
        r == is_official(address@),
{
    let marker = chars_of("simplex.im");
    contains(address, &marker)
}

/// Whether the characters of a domain end in the onion suffix.
fn onion_chars(domain: &Vec<char>) -> (r: bool)
    ensures
        r == is_onion(domain@),
{
    let suffix = chars_of(".onion");
    ends_with(domain, &suffix)
}

/// Whether `uri` is one of the operator's own addresses. This is a substring
/// test and holds of malformed addresses too.
pub fn is_server_official(uri: &str) -> (r: bool)
    ensures
        r == is_official(uri@),
{
    let chars = chars_of(uri);
    official_chars(&chars)
}

/// Whether `domain` is a host on the anonymized network.
pub fn is_onion_domain(domain: &str) -> (r: bool)
    ensures
        r == is_onion(domain@),
{
    let chars = chars_of(domain);
    onion_chars(&chars)
}

/// The `host[:port]` entries of `input`: what stands between the first `@`
/// and the next, split at commas. An address without `@` has the one empty
/// entry.
pub fn extract_hostnames(input: &str) -> (entries: Vec<String>)
    ensures
        texts_of(entries@) == hostnames(input@),
{
    let chars = chars_of(input);
    let parts = split_chars(&chars, '@');
    let empty: Vec<char> = Vec::new();
    let part: &Vec<char> = if parts.len() > 1 {
        &parts[1]
    } else {
        &empty
    };
    let pieces = split_chars(part, ',');
    strings_of(&pieces)
}

/// Each piece as a string.
fn strings_of(pieces: &Vec<Vec<char>>) -> (strings: Vec<String>)
    ensures
        texts_of(strings@) == views_of(pieces@),
{
    let mut strings: Vec<String> = Vec::new();
    let mut i: usize = 0;
    while i < pieces.len()
        invariant
            i <= pieces.len(),
            strings.len() == i,
            forall|k: int| 0 <= k < i ==> strings@[k]@ == pieces@[k]@,
        decreases pieces.len() - i,
    {
        strings.push(string_of(&pieces[i]));
        i += 1;
    }
    strings
}

/// The hosts of `uri` that are to be validated. The scheme, the part before
/// the first colon, must be `smp` or `xftp`; the entries that belong to the
/// operator are left out, and each of the others is given without its port.
pub fn parse_uri(uri: &str) -> (parsed: Result<Vec<String>, UriError>)
    ensures
        is_recognised(uri@) ==> parsed is Ok && texts_of(parsed->Ok_0@) == hosts_to_validate(
            uri@,
        ),
        !is_recognised(uri@) ==> parsed == Err::<Vec<String>, UriError>(UriError::InvalidUri),
{
    let chars = chars_of(uri);
    let colon = find_from(&chars, 0, ':');
    let scheme = slice_of(&chars, 0, colon);
    assert(scheme@ == uri_scheme(uri@)) by {
        assert(chars@.skip(0) == chars@);
    }
    let smp = chars_of("smp");
    let xftp = chars_of("xftp");
    if !same_chars(&scheme, &smp) && !same_chars(&scheme, &xftp) {
        return Err(UriError::InvalidUri);
    }
    let entries = extract_hostnames(uri);
    let ghost all = hostnames(uri@);
    let ghost keep = |h: Seq<char>| !is_official(h);
    let mut kept: Vec<String> = Vec::new();
    let mut i: usize = 0;
    while i < entries.len()
        invariant
            i <= entries.len(),
            texts_of(entries@) == all,
            all.len() == entries.len(),
            keep == |h: Seq<char>| !is_official(h),
            texts_of(kept@) == without_ports(all.take(i as int).filter(keep)),
        decreases entries.len() - i,
    {
        let ghost passed = all.take(i as int).filter(keep);
        proof {
            reveal(Seq::filter);
            assert(all.take(i + 1).drop_last() == all.take(i as int));
        }
        if !is_server_official(entries[i].as_str()) {
            let entry = chars_of(entries[i].as_str());
            let colon = find_from(&entry, 0, ':');
            let bare = slice_of(&entry, 0, colon);
            assert(entry@.skip(0) == entry@);
            let ghost so_far = texts_of(kept@);
            kept.push(string_of(&bare));
            assert(entry@ == all[i as int]);
            assert(texts_of(kept@) =~= so_far.push(bare_host(all[i as int])));
            assert(without_ports(passed.push(all[i as int])) =~= without_ports(passed).push(
                bare_host(all[i as int]),
            ));
        }
        i += 1;
    }
    assert(all.take(entries.len() as int) == all);
    Ok(kept)
}

/// What the host list of a server says about it: its bare hosts, whether any
/// of them is an onion host, and whether the list names the operator.
pub fn classify(host: &str) -> (info: DomainInfo)
    ensures
        info.describes(host@),
        info.hosts.len() > 0,
{
    let chars = chars_of(host);
    let entries = split_chars(&chars, ',');
    let ghost all = split(host@, ',');
    let mut hosts: Vec<String> = Vec::new();
    let mut onion = false;
    let mut i: usize = 0;
    while i < entries.len()
        invariant
            i <= entries.len(),
            all == split(host@, ','),
            views_of(entries@) == all,
            all.len() == entries.len(),
            hosts.len() == i,
            forall|k: int| 0 <= k < i ==> hosts@[k]@ == bare_host(all[k]),
            onion == any_onion(bare_hosts(host@).take(i as int)),
        decreases entries.len() - i,
    {
        let entry = &entries[i];
        let colon = find_from(entry, 0, ':');
        let bare = slice_of(entry, 0, colon);
        assert(entry@.skip(0) == entry@);
        let is_onion_host = onion_chars(&bare);
        proof {
            let seen = bare_hosts(host@).take(i as int);
            let next = bare_hosts(host@).take(i + 1);
            if any_onion(next) {
                let k = choose|k: int| 0 <= k < next.len() && is_onion(#[trigger] next[k]);
            }
            if any_onion(seen) {
                let k = choose|k: int| 0 <= k < seen.len() && is_onion(#[trigger] seen[k]);
            }
            if is_onion_host {
                assert(is_onion(next[i as int]));
            }
        }
        onion = onion || is_onion_host;
        hosts.push(string_of(&bare));
        i += 1;
    }
    proof {
        lemma_split_first(host@, ',');
        assert(bare_hosts(host@).take(entries.len() as int) == bare_hosts(host@));
        assert(texts_of(hosts@) =~= bare_hosts(host@));
    }
    let kind = if onion {
        DomainKind::Onion
    } else {
        DomainKind::Dns
    };
    DomainInfo { kind, hosts, is_official: official_chars(&chars) }
}

/// A character of a domain label: an ASCII letter, a digit or a hyphen.
pub open spec fn is_label_char(c: char) -> bool {
    ('a' <= c && c <= 'z') || ('A' <= c && c <= 'Z') || ('0' <= c && c <= '9') || c == '-'
}

/// A dot stands at position `k` of `s`.
pub open spec fn dot_at(s: Seq<char>, k: int) -> bool {
    s[k] == '.'
}

/// The characters of `s` from `from` up to `to` read as a domain name: two or
/// more labels of letters, digits and hyphens with one dot between each two,
/// the last label of two characters or more. Said of the characters: each is
/// a label character or a dot, no dot follows a dot, the first and the last
/// two are label characters, and there is a dot.
pub open spec fn domain_at(s: Seq<char>, from: int, to: int) -> bool {
    &&& 0 <= from <= to - 2
    &&& to <= s.len()
    &&& forall|k: int| from <= k < to ==> is_label_char(#[trigger] s[k]) || s[k] == '.'
    &&& forall|k: int| from < k < to ==> !(s[k - 1] == '.' && #[trigger] s[k] == '.')
    &&& is_label_char(s[from])
    &&& is_label_char(s[to - 1])
    &&& is_label_char(s[to - 2])
    &&& exists|k: int| from <= k < to && #[trigger] dot_at(s, k)
}

/// `s` as a whole reads as a domain name.
pub open spec fn is_domain(s: Seq<char>) -> bool {
    domain_at(s, 0, s.len() as int)
}

/// The characters of `s` from `from` up to `to` are the first domain name in
/// `s`: none begins further left, and none that begins there is longer.
pub open spec fn first_domain_at(s: Seq<char>, from: int, to: int) -> bool {
    &&& domain_at(s, from, to)
    &&& forall|f: int, t: int| #[trigger] domain_at(s, f, t) ==> from <= f
    &&& forall|t: int| #[trigger] domain_at(s, from, t) ==> t <= to
}

/// An address has at most one first domain name.
pub proof fn lemma_first_domain_is_unique(s: Seq<char>, from: int, to: int, f: int, t: int)
    requires
        first_domain_at(s, from, to),
        first_domain_at(s, f, t),
    ensures
        from == f,
        to == t,
{
}

/// Whether `c` is a character of a domain label.
pub fn label_char(c: char) -> (r: bool)
    ensures
        r == is_label_char(c),
{
    ('a' <= c && c <= 'z') || ('A' <= c && c <= 'Z') || ('0' <= c && c <= '9') || c == '-'
}

/// The end of the longest domain name that begins at `start`, if one begins
/// there, and the position up to which no other domain name begins where
/// none begins at `start`.
fn longest_domain_from(chars: &Vec<char>, start: usize) -> (found: (Option<usize>, usize))
    requires
        start < chars.len(),
    ensures
        start < found.1 <= chars.len(),
        match found.0 {
            Some(e) => start < e <= chars.len() && domain_at(chars@, start as int, e as int)
                && forall|t: int| #[trigger] domain_at(chars@, start as int, t) ==> t <= e,
            None => forall|f: int, t: int|
                start <= f < found.1 ==> !#[trigger] domain_at(chars@, f, t),
        },
{
    if !label_char(chars[start]) {
        return (None, start + 1);
    }
    let n = chars.len();
    let ghost s = chars@;
    let mut j: usize = start + 1;
    let mut dot_seen = false;
    let ghost mut dot: int = 0;
    let mut best: Option<usize> = None;
    loop
        invariant_except_break
            s == chars@,
            n == chars.len(),
            start < j <= n,
            is_label_char(s[start as int]),
            forall|k: int| start <= k < j ==> is_label_char(#[trigger] s[k]) || s[k] == '.',
            forall|k: int| start < k < j ==> !(s[k - 1] == '.' && #[trigger] s[k] == '.'),
            dot_seen ==> start <= dot < j && dot_at(s, dot),
            !dot_seen ==> forall|k: int| start <= k < j ==> !#[trigger] dot_at(s, k),
            best matches Some(b) ==> start < b <= j && domain_at(s, start as int, b as int),
            forall|t: int|
                t <= j && #[trigger] domain_at(s, start as int, t) ==> best is Some && t
                    <= best->0,
        ensures
            s == chars@,
            start < j <= chars.len(),
            is_label_char(s[start as int]),
            forall|k: int| start <= k < j ==> is_label_char(#[trigger] s[k]) || s[k] == '.',
            forall|k: int| start < k < j ==> !(s[k - 1] == '.' && #[trigger] s[k] == '.'),
            best matches Some(b) ==> start < b <= chars.len() && domain_at(
                s,
                start as int,
                b as int,
            ),
            forall|t: int| #[trigger]
                domain_at(s, start as int, t) ==> best is Some && t <= best->0,
            forall|f: int, t: int| start <= f < j && #[trigger] domain_at(s, f, t) ==> t <= j,
        decreases n - j,
    {
        if j >= n {
            break;
        }
        let c = chars[j];
        if c == '.' {
            if chars[j - 1] == '.' {
                break;
            }
            dot_seen = true;
            proof {
                dot = j as int;
            }
        } else if !label_char(c) {
            break;
        }
        j += 1;
        if dot_seen && j - start >= 2 && label_char(chars[j - 1]) && label_char(chars[j - 2]) {
            best = Some(j);
        }
    }
    proof {
        if best is None {
            assert forall|f: int, t: int| start <= f < j implies !#[trigger] domain_at(s, f, t) by {
                if domain_at(s, f, t) {
                    let k = choose|k: int| f <= k < t && #[trigger] dot_at(s, k);
                    assert(domain_at(s, start as int, t));
                }
            }
        }
    }
    (best, j)
}

/// The first domain name in `address`: the one that begins furthest left,
/// and of those that begin there the longest. An address that holds no
/// domain name has none, which is no error.
pub fn info_page_domain(address: &str) -> (domain: Option<String>)
    ensures
        match domain {
            Some(d) => exists|from: int, to: int|
                first_domain_at(address@, from, to) && d@ == address@.subrange(from, to),
            None => forall|from: int, to: int| !#[trigger] domain_at(address@, from, to),
        },
{
    let chars = chars_of(address);
    let n = chars.len();
    let mut start: usize = 0;
    while start < n
        invariant
            n == chars.len(),
            chars@ == address@,
            start <= n,
            forall|f: int, t: int| f < start ==> !#[trigger] domain_at(chars@, f, t),
        decreases n - start,
    {
        let (end, resume) = longest_domain_from(&chars, start);
        if let Some(end) = end {
            let piece = slice_of(&chars, start, end);
            return Some(string_of(&piece));
        }
        start = resume;
    }
    None
}

} // verus!
