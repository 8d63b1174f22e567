use vstd::prelude::*;
use crate::config::{parse_url, url_parses};
use crate::error::{ConfigError, ConfigErrorView};
use crate::menu::{has_prefix, starts_with};
use crate::seqs::{first_match, lemma_first_match_bounds, lemma_first_match_is};
use crate::text::{ascii_lowercase, chars_of, is_blank, lowercase_equals, str_is_blank, trim, trim_str};

verus! {

/// Whether a character is `c`.
pub open spec fn is_char(c: char) -> spec_fn(char) -> bool {
    |x: char| x == c
}

/// The scheme that an address starts with, if it names one.
pub open spec fn given_scheme(t: Seq<char>) -> Option<Seq<char>> {
    if has_prefix(t, "https://"@) {
        Some("https://"@)
    } else if has_prefix(t, "http://"@) {
        Some("http://"@)
    } else {
        None
    }
}

/// An address without its scheme.
pub open spec fn after_scheme(t: Seq<char>) -> Seq<char> {
    match given_scheme(t) {
        Some(s) => t.skip(s.len() as int),
        None => t,
    }
}

/// The host and port of an address: what comes after the scheme and before
/// the first `/`.
pub open spec fn authority(t: Seq<char>) -> Seq<char> {
    let r = after_scheme(t);
    r.take(first_match(r, is_char('/')))
}

/// The path of an address: from the first `/` after the scheme on.
pub open spec fn path_part(t: Seq<char>) -> Seq<char> {
    let r = after_scheme(t);
    r.skip(first_match(r, is_char('/')))
}

/// The host of a `host[:port]` text; a bracketed IPv6 literal keeps its
/// brackets.
pub open spec fn host_of(hp: Seq<char>) -> Seq<char> {
    if hp.len() > 0 && hp[0] == '[' {
        let i = first_match(hp, is_char(']'));
        if i < hp.len() {
            hp.take(i + 1)
        } else {
            hp
        }
    } else {
        hp.take(first_match(hp, is_char(':')))
    }
}

/// The host that a provider address names.
pub open spec fn address_host(a: Seq<char>) -> Seq<char> {
    host_of(authority(trim(a)))
}

/// Whether a character may appear in a dotted IPv4 address.
pub open spec fn is_ipv4_char(c: char) -> bool {
    ('0' <= c && c <= '9') || c == '.'
}

/// Whether a host is an IP literal: bracketed, or made of digits and dots.
pub open spec fn is_ip_host(h: Seq<char>) -> bool {
    h.len() > 0 && (h[0] == '[' || forall|i: int| 0 <= i < h.len() ==> is_ipv4_char(#[trigger] h[i]))
}

/// Whether a bare host is reached over plain HTTP: an IP literal or
/// `localhost`.
pub open spec fn is_plain_http_host(h: Seq<char>) -> bool {
    is_ip_host(h) || ascii_lowercase(h) == "localhost"@
}

/// The scheme a bare address gets.
pub open spec fn default_scheme(h: Seq<char>) -> Seq<char> {
    if is_plain_http_host(h) {
        "http://"@
    } else {
        "https://"@
    }
}

/// The path a normalized address ends with: the Responses path when the
/// address names none.
pub open spec fn full_path(p: Seq<char>) -> Seq<char> {
    if p.len() == 0 || p == "/"@ {
        "/v1/responses"@
    } else {
        p
    }
}

/// The upstream URL that a provider address stands for. The address is
/// trimmed; a missing scheme becomes `http://` for IP literals and
/// `localhost`, `https://` otherwise; a missing path becomes `/v1/responses`.
pub open spec fn normalized(a: Seq<char>) -> Seq<char> {
    let t = trim(a);
    let scheme = match given_scheme(t) {
        Some(s) => s,
        None => default_scheme(address_host(a)),
    };
    scheme + authority(t) + full_path(path_part(t))
}

/// Why a provider address is refused, if it is.
pub open spec fn address_problem(a: Seq<char>) -> Option<ConfigErrorView> {
    if is_blank(a) {
        Some(ConfigErrorView::EmptyProviderAddress)
    } else if address_host(a).len() == 0 || !url_parses(normalized(a)) {
        Some(ConfigErrorView::InvalidProviderAddress(a))
    } else {
        None
    }
}

/// The position of the first `c` in `cs[from..to]`, or `to`.
fn find_char_in(cs: &Vec<char>, from: usize, to: usize, c: char) -> (r: usize)
    requires
        from <= to <= cs@.len(),
    ensures
        r == from + first_match(cs@.subrange(from as int, to as int), is_char(c)),
        from <= r <= to,
{
    let ghost s = cs@.subrange(from as int, to as int);
    let mut i: usize = from;
    while i < to
        invariant
            s == cs@.subrange(from as int, to as int),
            from <= i <= to <= cs@.len(),
            forall|j: int| from <= j < i ==> cs@[j] != c,
        decreases to - i,
    {
        if cs[i] == c {
            proof {
                assert forall|j: int| 0 <= j < i - from implies !is_char(c)(#[trigger] s[j]) by {
                    assert(s[j] == cs@[from + j]);
                }
                assert(s[i - from] == cs@[i as int]);
                lemma_first_match_is(s, is_char(c), i - from);
            }
            return i;
        }
        i = i + 1;
    }
    proof {
        assert forall|j: int| 0 <= j < i - from implies !is_char(c)(#[trigger] s[j]) by {
            assert(s[j] == cs@[from + j]);
        }
        lemma_first_match_is(s, is_char(c), i - from);
    }
    i
}

/// Whether `cs[from..to]` holds only digits and dots.
fn all_ipv4_chars(cs: &Vec<char>, from: usize, to: usize) -> (r: bool)
    requires
        from <= to <= cs@.len(),
    ensures
        r == forall|i: int| 0 <= i < to - from ==> is_ipv4_char(
            #[trigger] cs@.subrange(from as int, to as int)[i],
        ),
{
    let ghost s = cs@.subrange(from as int, to as int);
    let mut i: usize = from;
    while i < to
        invariant
            s == cs@.subrange(from as int, to as int),
            from <= i <= to <= cs@.len(),
            forall|j: int| 0 <= j < i - from ==> is_ipv4_char(#[trigger] s[j]),
        decreases to - i,
    {
        let c = cs[i];
        if !(('0' <= c && c <= '9') || c == '.') {
            assert(s[i - from] == cs@[i as int]);
            return false;
        }
        assert(s[i - from] == cs@[i as int]);
        i = i + 1;
    }
    true
}

/// A provider address as an upstream URL, with its host; or why it is refused.
pub(crate) fn normalize_with_host(address: &str) -> (r: Result<(String, String), ConfigError>)
    ensures
        match r {
            Ok((url, host)) => address_problem(address@) is None && url@ == normalized(address@)
                && host@ == address_host(address@),
            Err(e) => address_problem(address@) == Some(e@),
        },
{
    if str_is_blank(address) {
        return Err(ConfigError::EmptyProviderAddress);
    }
    let t = trim_str(address);
    let cs = chars_of(t);
    let n = cs.len();
    proof {
        reveal_strlit("https://");
        reveal_strlit("http://");
        reveal_strlit("/");
    }
    let start: usize = if starts_with(t, "https://") {
        8
    } else if starts_with(t, "http://") {
        7
    } else {
        0
    };
    let ghost rest = after_scheme(t@);
    assert(rest =~= cs@.subrange(start as int, n as int));
    let slash = find_char_in(&cs, start, n, '/');
    proof {
        lemma_first_match_bounds(rest, is_char('/'));
        assert(authority(t@) =~= cs@.subrange(start as int, slash as int));
        assert(path_part(t@) =~= cs@.subrange(slash as int, n as int));
    }
    let ghost hp = cs@.subrange(start as int, slash as int);
    let host_end: usize = if start < slash && cs[start] == '[' {
        let k = find_char_in(&cs, start, slash, ']');
        proof {
            lemma_first_match_bounds(hp, is_char(']'));
        }
        if k < slash {
            assert(hp.take(k - start + 1) =~= cs@.subrange(start as int, k + 1));
            k + 1
        } else {
            slash
        }
    } else {
        let k = find_char_in(&cs, start, slash, ':');
        assert(hp.take(k - start) =~= cs@.subrange(start as int, k as int));
        k
    };
    assert(address_host(address@) =~= cs@.subrange(start as int, host_end as int));
    if host_end == start {
        return Err(ConfigError::InvalidProviderAddress(String::from_str(address)));
    }
    let host = t.substring_char(start, host_end);
    let scheme: &str = if start == 8 {
        "https://"
    } else if start == 7 {
        "http://"
    } else {
        let ip = cs[start] == '[' || all_ipv4_chars(&cs, start, host_end);
        proof {
            let h = cs@.subrange(start as int, host_end as int);
            assert(h[0] == cs@[start as int]);
            assert(ip == is_ip_host(h));
        }
        if ip || lowercase_equals(host, "localhost") {
            "http://"
        } else {
            "https://"
        }
    };
    let path: &str = if slash == n || slash + 1 == n {
        proof {
            let p = cs@.subrange(slash as int, n as int);
            if slash + 1 == n {
                assert(p[0] == '/');
                assert(p =~= "/"@);
            }
        }
        "/v1/responses"
    } else {
        proof {
            let p = cs@.subrange(slash as int, n as int);
            assert(p.len() != "/"@.len());
        }
        t.substring_char(slash, n)
    };
    let mut url = String::from_str(scheme);
    url.append(t.substring_char(start, slash));
    url.append(path);
    match parse_url(url.as_str()) {
        Err(_) => {
            return Err(ConfigError::InvalidProviderAddress(String::from_str(address)));
        },
        Ok(_) => {},
    }
    Ok((url, String::from_str(host)))
}

/// Turns a provider address into the upstream URL the proxy sends to: a bare
/// domain becomes `https://<host>/v1/responses`, a bare IP literal or
/// `localhost` becomes `http://<host>/v1/responses`, and an address that has
/// a path keeps it and only gains a scheme. A blank address, one without a
/// host, and one whose URL does not parse are refused.
pub fn normalize_address(address: &str) -> (r: Result<String, ConfigError>)
    ensures
        match r {
            Ok(url) => address_problem(address@) is None && url@ == normalized(address@),
            Err(e) => address_problem(address@) == Some(e@),
        },
{
    match normalize_with_host(address) {
        Ok((url, _)) => Ok(url),
        Err(e) => Err(e),
    }
}

/// Whether a character is an ASCII letter.
pub open spec fn is_ascii_letter(c: char) -> bool {
    ('a' <= c && c <= 'z') || ('A' <= c && c <= 'Z')
}

/// The scheme a bare address (one that names no scheme) gets: `https://` when
/// its host holds a letter and is neither bracketed nor `localhost` in any
/// ASCII case, as a domain such as `302.ai` does; `http://` when its host is
/// made of digits and dots, is bracketed, or is `localhost`. Either way the
/// rest of the URL is the address's host and port, then its path or
/// `/v1/responses`.
pub proof fn lemma_bare_address_scheme(a: Seq<char>)
    requires
        given_scheme(trim(a)) is None,
        address_host(a).len() > 0,
    ensures
        ({
            let h = address_host(a);
            (exists|i: int| 0 <= i < h.len() && is_ascii_letter(#[trigger] h[i])) && h[0] != '['
                && ascii_lowercase(h) != "localhost"@
        }) ==> normalized(a) == "https://"@ + authority(trim(a)) + full_path(path_part(trim(a))),
        ({
            let h = address_host(a);
            ||| forall|i: int| 0 <= i < h.len() ==> ('0' <= #[trigger] h[i] && h[i] <= '9') || h[i] == '.'
            ||| h[0] == '['
            ||| ascii_lowercase(h) == "localhost"@
        }) ==> normalized(a) == "http://"@ + authority(trim(a)) + full_path(path_part(trim(a))),
{
    let h = address_host(a);
    if exists|i: int| 0 <= i < h.len() && is_ascii_letter(#[trigger] h[i]) {
        let i = choose|i: int| 0 <= i < h.len() && is_ascii_letter(#[trigger] h[i]);
        assert(!is_ipv4_char(h[i]));
    }
    if forall|i: int| 0 <= i < h.len() ==> ('0' <= #[trigger] h[i] && h[i] <= '9') || h[i] == '.' {
        assert forall|i: int| 0 <= i < h.len() implies is_ipv4_char(#[trigger] h[i]) by {}
    }
}

} // verus!
