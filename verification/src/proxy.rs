//! Choosing the proxy for an outgoing request: `NO_PROXY`-style bypass rules,
//! proxy addresses from the environment, and the Windows Internet settings
//! (`ProxyEnable`, `ProxyServer`, `ProxyOverride`).
use vstd::prelude::*;
use crate::num::parse_unsigned;
use crate::text::{
    CharSet, Sep, append_str, append_vec, chars_of, contains, contains_char, contains_str,
    ends_with, ends_with_vec, eq_ignore_case, eq_ignore_case_str, eq_str, find, find_str, find_vec,
    join, join_vec, lower, lower_vec, rsplit_once_char, rsplit_once_char_vec, seq_equal, slice_of,
    split, split_once, split_once_str, split_vec, starts_with, starts_with_str, string_of, trim,
    trim_char, trim_char_vec, trim_set, trim_set_start, trim_set_start_vec, trim_set_vec, trim_vec,
    vviews, words, words_vec,
};

verus! {

// ---------------------------------------------------------------------------
// Outside results.

/// What `url::Url::parse` gives for `input`: `None` when it fails, else the
/// host text (`Url::host_str`) and the port or the scheme's default port
/// (`Url::port_or_known_default`).
pub uninterp spec fn url_host_and_port(input: Seq<char>) -> Option<(Option<Seq<char>>, Option<u16>)>;

/// Whether `reqwest::Proxy::all` accepts `url` as a proxy address.
pub uninterp spec fn proxy_url_accepted(url: Seq<char>) -> bool;

/// Whether `text` parses as an IP address (`core::net::IpAddr`) that is a
/// loopback address (`IpAddr::is_loopback`).
pub uninterp spec fn ip_text_is_loopback(text: Seq<char>) -> bool;

/// `url::Url::parse`, with the host text and port taken out of the result.
#[verifier::external_body]
fn parse_url_host_port(input: &str) -> (r: Option<(Option<String>, Option<u16>)>)
    ensures
        match r {
            Some((h, p)) => url_host_and_port(input@) == Some(
                (
                    match h {
                        Some(t) => Some(t@),
                        None => None,
                    },
                    p,
                ),
            ),
            None => url_host_and_port(input@) is None,
        },
{
    url::Url::parse(input).ok().map(|u| (u.host_str().map(str::to_string), u.port_or_known_default()))
}

/// `reqwest::Proxy::all(url).is_ok()`.
#[verifier::external_body]
fn reqwest_accepts_proxy(url: &str) -> (r: bool)
    ensures
        r == proxy_url_accepted(url@),
{
    reqwest::Proxy::all(url).is_ok()
}

/// `text.parse::<core::net::IpAddr>()` and `IpAddr::is_loopback`.
#[verifier::external_body]
fn ip_is_loopback(text: &str) -> (r: bool)
    ensures
        r == ip_text_is_loopback(text@),
{
    text.parse::<core::net::IpAddr>().is_ok_and(|address| address.is_loopback())
}

// ---------------------------------------------------------------------------
// Proxy addresses.

pub open spec fn supported_proxy_scheme(scheme: Seq<char>) -> bool {
    scheme == "http"@ || scheme == "https"@ || scheme == "socks4"@ || scheme == "socks5"@ || scheme
        == "socks5h"@
}

/// A proxy address as configured: trimmed of white space and quotes; `http://`
/// added when it names no scheme; kept only when the scheme is one of http,
/// https, socks4, socks5, socks5h (in any case) and reqwest accepts it.
pub open spec fn spec_normalize_proxy(raw: Seq<char>) -> Option<Seq<char>> {
    let v = trim(trim_char(trim_char(trim(raw), '"'), '\''));
    if v.len() == 0 {
        None
    } else {
        let normalized = if contains(v, "://"@) {
            v
        } else {
            "http://"@ + v
        };
        match find(normalized, "://"@) {
            None => None,
            Some(i) => if !supported_proxy_scheme(lower(normalized.take(i))) {
                None
            } else if !proxy_url_accepted(normalized) {
                None
            } else {
                Some(normalized)
            },
        }
    }
}

pub open spec fn opt_view(o: Option<String>) -> Option<Seq<char>> {
    match o {
        Some(s) => Some(s@),
        None => None,
    }
}

pub fn normalize_proxy_candidate(raw: &str) -> (r: Option<String>)
    ensures
        opt_view(r) == spec_normalize_proxy(raw@),
        !raw@.contains('"') && !raw@.contains('\'') && r is Some ==> spec_normalize_proxy(
            r.unwrap()@,
        ) == opt_view(r),
{
    proof {
        if !raw@.contains('"') && !raw@.contains('\'') && spec_normalize_proxy(raw@) is Some {
            crate::laws::law_normalize_proxy_is_idempotent(raw@, spec_normalize_proxy(raw@).unwrap());
        }
    }
    proof {
        reveal_strlit("://");
        reveal_strlit("http://");
        reveal_strlit("http");
        reveal_strlit("https");
        reveal_strlit("socks4");
        reveal_strlit("socks5");
        reveal_strlit("socks5h");
    }
    let v = trim_vec(&trim_char_vec(&trim_char_vec(&trim_vec(&chars_of(raw)), '"'), '\''));
    if v.len() == 0 {
        return None;
    }
    let normalized = if contains_str(&v, "://") {
        v
    } else {
        let mut n = chars_of("http://");
        append_vec(&mut n, &v);
        n
    };
    let i = match find_str(&normalized, "://") {
        Some(i) => i,
        None => return None,
    };
    let scheme = lower_vec(&slice_of(&normalized, 0, i));
    assert(scheme@ =~= lower(normalized@.take(i as int)));
    if !(eq_str(&scheme, "http") || eq_str(&scheme, "https") || eq_str(&scheme, "socks4")
        || eq_str(&scheme, "socks5") || eq_str(&scheme, "socks5h")) {
        return None;
    }
    let text = string_of(normalized.as_slice());
    if !reqwest_accepts_proxy(text.as_str()) {
        return None;
    }
    Some(text)
}

pub open spec fn or_opt(a: Option<Seq<char>>, b: Option<Seq<char>>) -> Option<Seq<char>> {
    match a {
        Some(x) => Some(x),
        None => b,
    }
}

/// Reads the `scheme=address` parts of a Windows `ProxyServer` value: the first
/// `https` entry decides at once; otherwise the last `http` entry, else the
/// last `socks`/`socks5` entry (taken as `socks5h://` when it names no scheme).
pub open spec fn scan_proxy_parts(
    parts: Seq<Seq<char>>,
    http: Option<Seq<char>>,
    socks: Option<Seq<char>>,
) -> Option<Seq<char>>
    decreases parts.len(),
{
    if parts.len() == 0 {
        or_opt(http, socks)
    } else {
        let rest = parts.drop_first();
        match split_once(parts[0], "="@) {
            None => scan_proxy_parts(rest, http, socks),
            Some((sch, tgt)) => {
                let scheme = lower(trim(sch));
                let target = trim(tgt);
                if target.len() == 0 {
                    scan_proxy_parts(rest, http, socks)
                } else if scheme == "https"@ {
                    spec_normalize_proxy(target)
                } else if scheme == "http"@ {
                    scan_proxy_parts(rest, spec_normalize_proxy(target), socks)
                } else if scheme == "socks"@ || scheme == "socks5"@ {
                    scan_proxy_parts(
                        rest,
                        http,
                        if contains(target, "://"@) {
                            spec_normalize_proxy(target)
                        } else {
                            Some("socks5h://"@ + target)
                        },
                    )
                } else {
                    scan_proxy_parts(rest, http, socks)
                }
            },
        }
    }
}

/// A Windows `ProxyServer` value: blank is none; one address without `=`
/// serves every scheme; otherwise `;`-separated `scheme=address` entries.
pub open spec fn spec_parse_windows_proxy_server(raw: Seq<char>) -> Option<Seq<char>> {
    let v = trim(raw);
    if v.len() == 0 {
        None
    } else if !v.contains('=') {
        spec_normalize_proxy(v)
    } else {
        scan_proxy_parts(split(v, Sep::Char(';')), None, None)
    }
}

pub fn parse_windows_proxy_server(raw: &str) -> (r: Option<String>)
    ensures
        opt_view(r) == spec_parse_windows_proxy_server(raw@),
{
    proof {
        reveal_strlit("=");
        reveal_strlit("https");
        reveal_strlit("http");
        reveal_strlit("socks");
        reveal_strlit("socks5");
        reveal_strlit("://");
        reveal_strlit("socks5h://");
    }
    let v = trim_vec(&chars_of(raw));
    if v.len() == 0 {
        return None;
    }
    if !contains_char(&v, '=') {
        return normalize_proxy_candidate(string_of(v.as_slice()).as_str());
    }
    let parts = split_vec(&v, &Sep::Char(';'));
    let ghost all = vviews(parts@);
    let mut http: Option<String> = None;
    let mut socks: Option<String> = None;
    let mut i: usize = 0;
    assert(all.skip(0) =~= all);
    while i < parts.len()
        invariant
            i <= parts.len(),
            all == vviews(parts@),
            all == split(v@, Sep::Char(';')),
            v@ == trim(raw@),
            v@.len() > 0,
            v@.contains('='),
            scan_proxy_parts(all, None, None) == scan_proxy_parts(
                all.skip(i as int),
                opt_view(http),
                opt_view(socks),
            ),
        decreases parts.len() - i,
    {
        let ghost rest = all.skip(i as int);
        assert(rest[0] == parts@[i as int]@);
        assert(rest.drop_first() =~= all.skip(i + 1));
        match split_once_str(&parts[i], "=") {
            None => {},
            Some((sch, tgt)) => {
                let scheme = lower_vec(&trim_vec(&sch));
                let target = trim_vec(&tgt);
                if target.len() > 0 {
                    let target_text = string_of(target.as_slice());
                    if eq_str(&scheme, "https") {
                        return normalize_proxy_candidate(target_text.as_str());
                    } else if eq_str(&scheme, "http") {
                        http = normalize_proxy_candidate(target_text.as_str());
                    } else if eq_str(&scheme, "socks") || eq_str(&scheme, "socks5") {
                        socks = if contains_str(&target, "://") {
                            normalize_proxy_candidate(target_text.as_str())
                        } else {
                            let mut s = chars_of("socks5h://");
                            append_vec(&mut s, &target);
                            Some(string_of(s.as_slice()))
                        };
                    }
                }
            },
        }
        i += 1;
    }
    match http {
        Some(h) => Some(h),
        None => socks,
    }
}

// ---------------------------------------------------------------------------
// Bypass rules.

/// `authority` split into host and port: `[host]` with an optional `:port`,
/// or `host:port` when the host holds no `:` and the port parses; otherwise
/// the whole text with no port.
pub open spec fn spec_split_host_port(authority: Seq<char>) -> (Seq<char>, Option<u16>) {
    let a = authority;
    if a.len() > 0 && a[0] == '[' && find(a, "]"@) is Some {
        let end = find(a, "]"@).unwrap();
        let rest = a.skip(end + 1);
        (
            a.subrange(1, end),
            if rest.len() > 0 && rest[0] == ':' {
                match parse_unsigned(rest.skip(1), 10, 65535) {
                    Some(v) => Some(v as u16),
                    None => None,
                }
            } else {
                None
            },
        )
    } else {
        match rsplit_once_char(a, ':') {
            Some((h, p)) => if !h.contains(':') {
                match parse_unsigned(p, 10, 65535) {
                    Some(v) => (h, Some(v as u16)),
                    None => (a, None),
                }
            } else {
                (a, None)
            },
            None => (a, None),
        }
    }
}

pub fn split_proxy_bypass_host_port(authority: &str) -> (r: (String, Option<u16>))
    ensures
        (r.0@, r.1) == spec_split_host_port(authority@),
{
    proof {
        reveal_strlit("]");
    }
    let a = chars_of(authority);
    if a.len() > 0 && a[0] == '[' {
        if let Some(end) = find_str(&a, "]") {
            assert(end >= 1) by {
                crate::text::lemma_find_from_sound(a@, "]"@, 0);
                if end == 0 {
                    assert(a@.subrange(0, 1)[0] == a@[0]);
                }
            }
            let host = slice_of(&a, 1, end);
            let rest = slice_of(&a, end + 1, a.len());
            assert(rest@ =~= a@.skip(end + 1));
            let port = if rest.len() > 0 && rest[0] == ':' {
                let digits = slice_of(&rest, 1, rest.len());
                assert(digits@ =~= rest@.skip(1));
                match crate::num::parse_unsigned_vec(&digits, 10, 65535) {
                    Some(v) => Some(v as u16),
                    None => None,
                }
            } else {
                None
            };
            return (string_of(host.as_slice()), port);
        }
    }
    match rsplit_once_char_vec(&a, ':') {
        Some((h, p)) => {
            if !contains_char(&h, ':') {
                match crate::num::parse_unsigned_vec(&p, 10, 65535) {
                    Some(v) => (string_of(h.as_slice()), Some(v as u16)),
                    None => (string_of(a.as_slice()), None),
                }
            } else {
                (string_of(a.as_slice()), None)
            }
        },
        None => (string_of(a.as_slice()), None),
    }
}

/// The run of the wildcard matcher from the state (pattern index, value index,
/// last star, value index where that star's match starts). A pattern character
/// equal to the value character is taken literally first; a `*` is noted as
/// the point to come back to; on a mismatch the last star absorbs one more
/// value character.
pub open spec fn wildcard_run(
    p: Seq<char>,
    v: Seq<char>,
    pi: int,
    vi: int,
    star: Option<int>,
    sv: int,
) -> bool
    decreases v.len() + 1 - sv, v.len() - vi, p.len() - pi,
{
    if !(0 <= sv <= vi <= v.len() && 0 <= pi <= p.len()) {
        false
    } else if vi < v.len() {
        if pi < p.len() && p[pi] == v[vi] {
            wildcard_run(p, v, pi + 1, vi + 1, star, sv)
        } else if pi < p.len() && p[pi] == '*' {
            wildcard_run(p, v, pi + 1, vi, Some(pi), vi)
        } else if star is Some {
            wildcard_run(p, v, star.unwrap() + 1, sv + 1, star, sv + 1)
        } else {
            false
        }
    } else {
        forall|k: int| pi <= k < p.len() ==> p[k] == '*'
    }
}

/// Whether `value` matches `pattern`, where `*` stands for any run of characters.
pub open spec fn spec_wildcard_matches(pattern: Seq<char>, value: Seq<char>) -> bool {
    wildcard_run(pattern, value, 0, 0, None, 0)
}

/// Wildcard matching of a host against a rule pattern. (Over UTF-8 text,
/// matching characters gives the same answer as matching bytes: an encoded
/// character only ever matches at a character boundary.)
pub fn wildcard_matches(pattern: &str, value: &str) -> (r: bool)
    ensures
        r == spec_wildcard_matches(pattern@, value@),
        crate::laws::star_free(value@) ==> r == crate::laws::glob_matches(pattern@, value@),
{
    proof {
        if crate::laws::star_free(value@) {
            crate::laws::law_wildcard_is_glob(pattern@, value@);
        }
    }
    let p = chars_of(pattern);
    let v = chars_of(value);
    let mut pi: usize = 0;
    let mut vi: usize = 0;
    let mut star: Option<usize> = None;
    let mut sv: usize = 0;
    while vi < v.len()
        invariant
            p@ == pattern@,
            v@ == value@,
            crate::laws::star_free(value@) ==> spec_wildcard_matches(pattern@, value@)
                == crate::laws::glob_matches(pattern@, value@),
            sv <= vi <= v.len(),
            pi <= p.len(),
            star matches Some(s) ==> s < p.len(),
            spec_wildcard_matches(p@, v@) == wildcard_run(
                p@,
                v@,
                pi as int,
                vi as int,
                match star {
                    Some(s) => Some(s as int),
                    None => None,
                },
                sv as int,
            ),
        decreases v.len() + 1 - sv, v.len() - vi, p.len() - pi,
    {
        if pi < p.len() && p[pi] == v[vi] {
            pi += 1;
            vi += 1;
        } else if pi < p.len() && p[pi] == '*' {
            star = Some(pi);
            pi += 1;
            sv = vi;
        } else {
            match star {
                Some(s) => {
                    pi = s + 1;
                    sv += 1;
                    vi = sv;
                },
                None => {
                    assert(!wildcard_run(p@, v@, pi as int, vi as int, None, sv as int));
                    return false;
                },
            }
        }
    }
    while pi < p.len() && p[pi] == '*'
        invariant
            vi == v.len(),
            pi <= p.len(),
            spec_wildcard_matches(p@, v@) == (forall|k: int| pi <= k < p.len() ==> p@[k] == '*'),
        decreases p.len() - pi,
    {
        pi += 1;
    }
    pi == p.len()
}

/// A host that counts as local: `localhost`, a name without a dot, or a loopback address.
pub open spec fn spec_is_local_host(host: Seq<char>) -> bool {
    eq_ignore_case(host, "localhost"@) || !host.contains('.') || ip_text_is_loopback(host)
}

pub fn is_local_host(host: &str) -> (r: bool)
    ensures
        r == spec_is_local_host(host@),
{
    proof {
        reveal_strlit("localhost");
    }
    let h = chars_of(host);
    eq_ignore_case_str(&h, "localhost") || !contains_char(&h, '.') || ip_is_loopback(host)
}

/// The text before the first `c`, or all of it.
pub open spec fn before_char(s: Seq<char>, c: char) -> Seq<char> {
    match find(s, seq![c]) {
        Some(i) => s.take(i),
        None => s,
    }
}

/// One bypass rule against a (lower-case) host and port. `*` bypasses all;
/// `<local>` bypasses local hosts; otherwise the rule's authority (after any
/// `scheme://`, before any `/`) gives a host pattern and an optional port. A
/// port must equal the target's; the pattern (trimmed of brackets and dots,
/// lower case, not blank) matches as a wildcard when it holds `*`, else as
/// the host itself or a parent domain of it.
pub open spec fn spec_rule_matches(rule: Seq<char>, host: Seq<char>, target_port: Option<u16>) -> bool {
    let r = trim(trim_char(trim_char(trim(rule), '"'), '\''));
    if r == "*"@ {
        true
    } else if eq_ignore_case(r, "<local>"@) {
        spec_is_local_host(host)
    } else {
        let after_scheme = match split_once(r, "://"@) {
            Some((_, rest)) => rest,
            None => r,
        };
        let authority = trim(before_char(after_scheme, '/'));
        let (host_pattern, rule_port) = spec_split_host_port(authority);
        if rule_port is Some && rule_port != target_port {
            false
        } else {
            let hp = lower(trim_set(host_pattern, CharSet::BracketsOrDot));
            if hp.len() == 0 {
                false
            } else if hp.contains('*') {
                spec_wildcard_matches(hp, host)
            } else {
                host == hp || ends_with(host, seq!['.'] + hp)
            }
        }
    }
}

pub fn proxy_bypass_rule_matches(rule: &str, host: &str, target_port: Option<u16>) -> (r: bool)
    ensures
        r == spec_rule_matches(rule@, host@, target_port),
{
    proof {
        reveal_strlit("*");
        reveal_strlit("<local>");
        reveal_strlit("://");
        reveal_strlit("/");
    }
    let r = trim_vec(&trim_char_vec(&trim_char_vec(&trim_vec(&chars_of(rule)), '"'), '\''));
    if eq_str(&r, "*") {
        return true;
    }
    if eq_ignore_case_str(&r, "<local>") {
        return is_local_host(host);
    }
    let after_scheme = match split_once_str(&r, "://") {
        Some((_, rest)) => rest,
        None => r,
    };
    let cut = match find_str(&after_scheme, "/") {
        Some(i) => slice_of(&after_scheme, 0, i),
        None => after_scheme,
    };
    proof {
        assert(seq!['/'] =~= "/"@);
        assert(cut@ =~= before_char(after_scheme@, '/'));
    }
    let authority = trim_vec(&cut);
    let (host_pattern, rule_port) = split_proxy_bypass_host_port(
        string_of(authority.as_slice()).as_str(),
    );
    if rule_port.is_some() && rule_port != target_port {
        return false;
    }
    let hp = lower_vec(&trim_set_vec(&chars_of(host_pattern.as_str()), &CharSet::BracketsOrDot));
    if hp.len() == 0 {
        return false;
    }
    if contains_char(&hp, '*') {
        return wildcard_matches(string_of(hp.as_slice()).as_str(), host);
    }
    let h = chars_of(host);
    if seq_equal(&h, &hp) {
        return true;
    }
    let mut dotted: Vec<char> = Vec::new();
    dotted.push('.');
    append_vec(&mut dotted, &hp);
    ends_with_vec(&h, &dotted)
}

/// The rules of a bypass list (split at `,` and `;`, trimmed, blanks skipped)
/// include one that matches.
pub open spec fn spec_any_rule_matches(
    pieces: Seq<Seq<char>>,
    host: Seq<char>,
    port: Option<u16>,
) -> bool {
    exists|i: int|
        0 <= i < pieces.len() && trim(#[trigger] pieces[i]).len() > 0 && spec_rule_matches(
            trim(pieces[i]),
            host,
            port,
        )
}

pub open spec fn spec_bypass_matches_host(host: Seq<char>, port: Option<u16>, raw_rules: Seq<char>) -> bool {
    spec_any_rule_matches(split(raw_rules, Sep::CommaOrSemicolon), host, port)
}

/// Whether the bypass list `raw_rules` exempts a target with this host and port.
pub fn proxy_bypass_matches_host(host: &str, port: Option<u16>, raw_rules: &str) -> (r: bool)
    ensures
        r == spec_bypass_matches_host(host@, port, raw_rules@),
{
    let pieces = split_vec(&chars_of(raw_rules), &Sep::CommaOrSemicolon);
    let ghost all = vviews(pieces@);
    let mut i: usize = 0;
    while i < pieces.len()
        invariant
            i <= pieces.len(),
            all == vviews(pieces@),
            all == split(raw_rules@, Sep::CommaOrSemicolon),
            forall|k: int|
                0 <= k < i ==> !(trim(#[trigger] all[k]).len() > 0 && spec_rule_matches(
                    trim(all[k]),
                    host@,
                    port,
                )),
        decreases pieces.len() - i,
    {
        let rule = trim_vec(&pieces[i]);
        assert(pieces@[i as int]@ == all[i as int]);
        if rule.len() > 0 && proxy_bypass_rule_matches(string_of(rule.as_slice()).as_str(), host, port) {
            assert(trim(all[i as int]).len() > 0 && spec_rule_matches(trim(all[i as int]), host@, port));
            return true;
        }
        i += 1;
    }
    false
}

/// The lower-case host (without brackets) and the port of a target, read as a
/// URL, or as `https://` followed by it when that fails.
pub open spec fn spec_target_host_and_port(target_url: Seq<char>) -> Option<(Seq<char>, Option<u16>)> {
    let first = url_host_and_port(target_url);
    let parsed = if first is Some {
        first
    } else {
        url_host_and_port("https://"@ + trim_set_start(target_url, CharSet::One('/')))
    };
    match parsed {
        Some((Some(h), port)) => Some((lower(trim_set(h, CharSet::Brackets)), port)),
        _ => None,
    }
}

pub fn target_host_and_port(target_url: &str) -> (r: Option<(String, Option<u16>)>)
    ensures
        match r {
            Some((h, p)) => spec_target_host_and_port(target_url@) == Some((h@, p)),
            None => spec_target_host_and_port(target_url@) is None,
        },
{
    proof {
        reveal_strlit("https://");
    }
    let parsed = match parse_url_host_port(target_url) {
        Some(p) => Some(p),
        None => {
            let mut t = chars_of("https://");
            append_vec(&mut t, &trim_set_start_vec(&chars_of(target_url), &CharSet::One('/')));
            parse_url_host_port(string_of(t.as_slice()).as_str())
        },
    };
    match parsed {
        Some((Some(h), port)) => {
            let host = lower_vec(&trim_set_vec(&chars_of(h.as_str()), &CharSet::Brackets));
            Some((string_of(host.as_slice()), port))
        },
        _ => None,
    }
}

/// Whether the bypass list `raw_rules` exempts `target_url`; a target without a host never is.
pub fn proxy_bypass_matches_target(target_url: &str, raw_rules: &str) -> (r: bool)
    ensures
        r == match spec_target_host_and_port(target_url@) {
            Some((h, p)) => spec_bypass_matches_host(h, p, raw_rules@),
            None => false,
        },
{
    match target_host_and_port(target_url) {
        Some((host, port)) => proxy_bypass_matches_host(host.as_str(), port, raw_rules),
        None => false,
    }
}

// ---------------------------------------------------------------------------
// Windows Internet settings.

/// The value column of a `reg query` line for `name`: the first line that,
/// trimmed, starts with the name (ASCII case ignored) and has at least three
/// words gives its words from the third on, joined by single spaces.
pub open spec fn scan_reg_lines(lines: Seq<Seq<char>>, name: Seq<char>) -> Option<Seq<char>>
    decreases lines.len(),
{
    if lines.len() == 0 {
        None
    } else {
        let t = trim(lines[0]);
        if starts_with(lower(t), lower(name)) && words(t).len() >= 3 {
            Some(join(words(t).skip(2), " "@))
        } else {
            scan_reg_lines(lines.drop_first(), name)
        }
    }
}

/// The value of `name` in the output of `reg query` (lines as split at `\n`;
/// a trailing `\r` is removed by the trimming).
pub open spec fn spec_parse_reg_query_value(output: Seq<char>, name: Seq<char>) -> Option<Seq<char>> {
    scan_reg_lines(split(output, Sep::Char('\n')), name)
}

pub fn parse_reg_query_value(output: &str, name: &str) -> (r: Option<String>)
    ensures
        opt_view(r) == spec_parse_reg_query_value(output@, name@),
{
    proof {
        reveal_strlit(" ");
    }
    let normalized_name = lower_vec(&chars_of(name));
    let lines = split_vec(&chars_of(output), &Sep::Char('\n'));
    let ghost all = vviews(lines@);
    let mut i: usize = 0;
    assert(all.skip(0) =~= all);
    while i < lines.len()
        invariant
            i <= lines.len(),
            all == vviews(lines@),
            normalized_name@ == lower(name@),
            spec_parse_reg_query_value(output@, name@) == scan_reg_lines(all.skip(i as int), name@),
        decreases lines.len() - i,
    {
        let ghost rest = all.skip(i as int);
        assert(rest[0] == lines@[i as int]@);
        assert(rest.drop_first() =~= all.skip(i + 1));
        let t = trim_vec(&lines[i]);
        if crate::text::starts_with_vec(&lower_vec(&t), &normalized_name) {
            let parts = words_vec(&t);
            if parts.len() >= 3 {
                let tail = slice_words(&parts, 2);
                let glue = chars_of(" ");
                let joined = join_vec(&tail, &glue);
                return Some(string_of(joined.as_slice()));
            }
        }
        i += 1;
    }
    None
}

fn slice_words(parts: &Vec<Vec<char>>, from: usize) -> (r: Vec<Vec<char>>)
    requires
        from <= parts.len(),
    ensures
        vviews(r@) == vviews(parts@).skip(from as int),
{
    let mut r: Vec<Vec<char>> = Vec::new();
    let mut i = from;
    while i < parts.len()
        invariant
            from <= i <= parts.len(),
            vviews(r@) == vviews(parts@).subrange(from as int, i as int),
        decreases parts.len() - i,
    {
        let w = slice_of(&parts[i], 0, parts[i].len());
        let ghost before = r@;
        r.push(w);
        assert(w@ =~= parts@[i as int]@);
        assert(vviews(r@) =~= vviews(before).push(w@));
        i += 1;
        assert(vviews(r@) =~= vviews(parts@).subrange(from as int, i as int));
    }
    assert(vviews(parts@).subrange(from as int, parts.len() as int) =~= vviews(parts@).skip(
        from as int,
    ));
    r
}

/// A `ProxyEnable` value that switches the proxy on: `true` (any ASCII case),
/// or a non-zero number, hexadecimal after `0x` or else decimal.
pub open spec fn spec_proxy_enabled(raw: Seq<char>) -> bool {
    let v = trim(raw);
    if eq_ignore_case(v, "true"@) {
        true
    } else if starts_with(v, "0x"@) {
        match parse_unsigned(v.skip(2), 16, u32::MAX as nat) {
            Some(n) => n != 0,
            None => false,
        }
    } else {
        match parse_unsigned(v, 10, u32::MAX as nat) {
            Some(n) => n != 0,
            None => false,
        }
    }
}

pub fn parse_windows_proxy_enabled(raw: &str) -> (r: bool)
    ensures
        r == spec_proxy_enabled(raw@),
{
    proof {
        reveal_strlit("true");
        reveal_strlit("0x");
    }
    let v = trim_vec(&chars_of(raw));
    if eq_ignore_case_str(&v, "true") {
        return true;
    }
    if starts_with_str(&v, "0x") {
        let hex = slice_of(&v, 2, v.len());
        assert(hex@ =~= v@.skip(2));
        return match crate::num::parse_unsigned_vec(&hex, 16, u32::MAX as u64) {
            Some(n) => n != 0,
            None => false,
        };
    }
    match crate::num::parse_unsigned_vec(&v, 10, u32::MAX as u64) {
        Some(n) => n != 0,
        None => false,
    }
}

/// The Windows Internet settings as queried (`None` when a value could not be read).
pub struct WindowsInternetSettings {
    pub proxy_enable: Option<String>,
    pub proxy_override: Option<String>,
    pub proxy_server: Option<String>,
}

/// The proxy is switched on in the Windows Internet settings.
pub fn windows_proxy_enabled(settings: &WindowsInternetSettings) -> (r: bool)
    ensures
        r == match settings.proxy_enable {
            Some(v) => spec_proxy_enabled(v@),
            None => false,
        },
{
    match &settings.proxy_enable {
        Some(v) => parse_windows_proxy_enabled(v.as_str()),
        None => false,
    }
}

/// The system proxy for a target from the Windows Internet settings: none
/// when switched off or when `ProxyOverride` exempts the target; else from
/// `ProxyServer`. (Where there are no such settings, all three are `None`.)
pub open spec fn spec_system_proxy(target_url: Seq<char>, s: WindowsInternetSettings) -> Option<Seq<char>> {
    let enabled = match s.proxy_enable {
        Some(v) => spec_proxy_enabled(v@),
        None => false,
    };
    let exempt = match s.proxy_override {
        Some(rules) => match spec_target_host_and_port(target_url) {
            Some((h, p)) => spec_bypass_matches_host(h, p, rules@),
            None => false,
        },
        None => false,
    };
    if !enabled || exempt {
        None
    } else {
        match s.proxy_server {
            Some(v) => spec_parse_windows_proxy_server(v@),
            None => None,
        }
    }
}

pub fn system_proxy_url_for(target_url: &str, settings: &WindowsInternetSettings) -> (r: Option<
    String,
>)
    ensures
        opt_view(r) == spec_system_proxy(target_url@, *settings),
{
    if !windows_proxy_enabled(settings) {
        return None;
    }
    if let Some(rules) = &settings.proxy_override {
        if proxy_bypass_matches_target(target_url, rules.as_str()) {
            return None;
        }
    }
    match &settings.proxy_server {
        Some(v) => parse_windows_proxy_server(v.as_str()),
        None => None,
    }
}

// ---------------------------------------------------------------------------
// The environment.

/// Proxy-related environment values, in the order they are consulted.
pub struct ProxyEnvironment {
    /// `NO_PROXY`, then `no_proxy`.
    pub no_proxy: Vec<Option<String>>,
    /// `HTTPS_PROXY`, `https_proxy`, `ALL_PROXY`, `all_proxy`, `HTTP_PROXY`, `http_proxy`.
    pub proxies: Vec<Option<String>>,
}

pub open spec fn opt_views(v: Seq<Option<String>>) -> Seq<Option<Seq<char>>> {
    v.map_values(|o: Option<String>| opt_view(o))
}

/// Some bypass list exempts the target.
pub open spec fn spec_bypass_from_env(target_url: Seq<char>, lists: Seq<Option<Seq<char>>>) -> bool {
    exists|i: int|
        0 <= i < lists.len() && (#[trigger] lists[i]) is Some && match spec_target_host_and_port(
            target_url,
        ) {
            Some((h, p)) => spec_bypass_matches_host(h, p, lists[i].unwrap()),
            None => false,
        }
}

pub fn proxy_bypass_from_env(target_url: &str, env: &ProxyEnvironment) -> (r: bool)
    ensures
        r == spec_bypass_from_env(target_url@, opt_views(env.no_proxy@)),
{
    let ghost lists = opt_views(env.no_proxy@);
    let mut i: usize = 0;
    while i < env.no_proxy.len()
        invariant
            i <= env.no_proxy.len(),
            lists == opt_views(env.no_proxy@),
            forall|k: int|
                0 <= k < i ==> !((#[trigger] lists[k]) is Some && match spec_target_host_and_port(
                    target_url@,
                ) {
                    Some((h, p)) => spec_bypass_matches_host(h, p, lists[k].unwrap()),
                    None => false,
                }),
        decreases env.no_proxy.len() - i,
    {
        if let Some(rules) = &env.no_proxy[i] {
            if proxy_bypass_matches_target(target_url, rules.as_str()) {
                assert(lists[i as int] == Some(rules@));
                return true;
            }
        }
        i += 1;
    }
    false
}

/// The first environment proxy value that is a usable proxy address.
pub open spec fn scan_env_proxies(values: Seq<Option<Seq<char>>>) -> Option<Seq<char>>
    decreases values.len(),
{
    if values.len() == 0 {
        None
    } else {
        match values[0] {
            Some(v) if spec_normalize_proxy(v) is Some => spec_normalize_proxy(v),
            _ => scan_env_proxies(values.drop_first()),
        }
    }
}

pub fn proxy_url_from_env(env: &ProxyEnvironment) -> (r: Option<String>)
    ensures
        opt_view(r) == scan_env_proxies(opt_views(env.proxies@)),
{
    let ghost all = opt_views(env.proxies@);
    let mut i: usize = 0;
    assert(all.skip(0) =~= all);
    while i < env.proxies.len()
        invariant
            i <= env.proxies.len(),
            all == opt_views(env.proxies@),
            scan_env_proxies(all) == scan_env_proxies(all.skip(i as int)),
        decreases env.proxies.len() - i,
    {
        let ghost rest = all.skip(i as int);
        assert(rest[0] == all[i as int]);
        assert(rest.drop_first() =~= all.skip(i + 1));
        if let Some(v) = &env.proxies[i] {
            let n = normalize_proxy_candidate(v.as_str());
            if n.is_some() {
                return n;
            }
        }
        i += 1;
    }
    None
}

/// The fallback proxy for a target: none when an environment bypass list
/// exempts it; else the first usable environment proxy; else the system proxy.
pub open spec fn spec_default_proxy(
    target_url: Seq<char>,
    env: ProxyEnvironment,
    system: WindowsInternetSettings,
) -> Option<Seq<char>> {
    if spec_bypass_from_env(target_url, opt_views(env.no_proxy@)) {
        None
    } else {
        match scan_env_proxies(opt_views(env.proxies@)) {
            Some(p) => Some(p),
            None => spec_system_proxy(target_url, system),
        }
    }
}

pub fn default_proxy_url_for(
    target_url: &str,
    env: &ProxyEnvironment,
    system: &WindowsInternetSettings,
) -> (r: Option<String>)
    ensures
        opt_view(r) == spec_default_proxy(target_url@, *env, *system),
{
    if proxy_bypass_from_env(target_url, env) {
        return None;
    }
    match proxy_url_from_env(env) {
        Some(p) => Some(p),
        None => system_proxy_url_for(target_url, system),
    }
}

} // verus!
