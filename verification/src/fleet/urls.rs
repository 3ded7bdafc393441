//! Base URLs, as far as a fleet looks into them.

use vstd::prelude::*;
use crate::text::{
    chars_of, contains, find_text, first_at, lemma_position_is, lower, lower_char, lowered,
    matches_at, occurs_at, position, text_option, trim_end_slashes, without_trailing_slashes,
};

verus! {

/// What may follow a whole host: nothing, a port or a path.
pub open spec fn ends_host(tail: Seq<char>) -> bool {
    tail.len() == 0 || tail[0] == ':' || tail[0] == '/'
}

/// What may follow the host of a URL: nothing, a port, a path, a query or a fragment.
pub open spec fn ends_authority(tail: Seq<char>) -> bool {
    ends_host(tail) || tail[0] == '?' || tail[0] == '#'
}

/// The first slashes of the URL are those of `alias`, which is all of its host.
pub open spec fn names_host(url: Seq<char>, alias: Seq<char>) -> bool {
    &&& position(url, "//"@) matches Some(i)
    &&& occurs_at(url, alias, i)
    &&& ends_authority(url.skip(i + alias.len()))
}

/// The base URL names this host.
pub open spec fn loopback(base_url: Seq<char>) -> bool {
    names_host(base_url, "//127.0.0.1"@) || names_host(base_url, "//localhost"@) || names_host(
        base_url,
        "//[::1]"@,
    )
}

fn is_host(chars: &Vec<char>, at: usize, alias: &str) -> (named: bool)
    requires
        at <= chars@.len(),
    ensures
        named == (occurs_at(chars@, alias@, at as int) && ends_authority(
            chars@.skip(at + alias@.len()),
        )),
{
    let wanted = chars_of(alias);
    if wanted.len() > chars.len() - at || !matches_at(chars, &wanted, at) {
        return false;
    }
    let end: usize = at + wanted.len();
    assert(end < chars@.len() ==> chars@.skip(end as int)[0] == chars@[end as int]);
    end == chars.len() || chars[end] == ':' || chars[end] == '/' || chars[end] == '?' || chars[end]
        == '#'
}

/// Whether the base URL names this host. A longer hostname, such as
/// `localhost.example.com`, names another.
pub fn is_loopback_url(base_url: &str) -> (local: bool)
    ensures
        local == loopback(base_url@),
{
    let at: usize = match find_text(base_url, "//") {
        Some(at) => at,
        None => {
            return false;
        },
    };
    proof {
        lemma_position_is(base_url@, "//"@, at as int);
    }
    let chars = chars_of(base_url);
    is_host(&chars, at, "//127.0.0.1") || is_host(&chars, at, "//localhost") || is_host(
        &chars,
        at,
        "//[::1]",
    )
}

/// The URL with `127.0.0.1` in place of the alias, where the first mention of the
/// alias is a whole host.
pub open spec fn unaliased(url: Seq<char>, alias: Seq<char>) -> Option<Seq<char>> {
    match position(url, alias) {
        Some(i) => if ends_host(url.skip(i + alias.len())) {
            Some(url.take(i) + "//127.0.0.1"@ + url.skip(i + alias.len()))
        } else {
            None
        },
        None => None,
    }
}

/// The base URL in the form in which two of them are compared.
pub open spec fn normalized(base_url: Seq<char>) -> Seq<char> {
    let url = lower(without_trailing_slashes(base_url));
    match unaliased(url, "//localhost"@) {
        Some(url) => url,
        None => match unaliased(url, "//[::1]"@) {
            Some(url) => url,
            None => url,
        },
    }
}

/// Puts `127.0.0.1` in place of the alias, where the first mention of it is a
/// whole host: `localhost.example.com` is an ordinary hostname.
fn replace_alias(url: &str, alias: &str) -> (replaced: Option<String>)
    ensures
        text_option(replaced) == unaliased(url@, alias@),
{
    let at: usize = match find_text(url, alias) {
        Some(at) => at,
        None => {
            return None;
        },
    };
    proof {
        lemma_position_is(url@, alias@, at as int);
    }
    let chars = chars_of(url);
    let length: usize = chars.len();
    let wanted = chars_of(alias);
    assert(at + wanted@.len() <= length);
    let end: usize = at + wanted.len();
    let tail = url.substring_char(end, length);
    assert(tail@ =~= url@.skip(end as int));
    if end < length && chars[end] != ':' && chars[end] != '/' {
        return None;
    }
    let mut replaced = url.substring_char(0, at).to_owned();
    assert(replaced@ =~= url@.take(at as int));
    replaced.append("//127.0.0.1");
    replaced.append(tail);
    Some(replaced)
}

/// Normalizes a base URL for comparison.
///
/// `localhost`, `127.0.0.1` and `[::1]` name the same endpoint, and which one
/// appears depends on whether it was typed, scanned, or built in.
pub fn normalize_base_url(base_url: &str) -> (url: String)
    ensures
        url@ == normalized(base_url@),
{
    let url = lowered(trim_end_slashes(base_url));
    match replace_alias(url.as_str(), "//localhost") {
        Some(replaced) => replaced,
        None => match replace_alias(url.as_str(), "//[::1]") {
            Some(replaced) => replaced,
            None => url,
        },
    }
}

proof fn lemma_lower_trim(s: Seq<char>)
    ensures
        lower(without_trailing_slashes(s)) == without_trailing_slashes(lower(s)),
        lower(lower(s)) == lower(s),
    decreases s.len(),
{
    assert(lower(lower(s)) =~= lower(s));
    if s.len() > 0 {
        assert(lower(s).last() == lower_char(s.last()));
        assert(lower(s).drop_last() =~= lower(s.drop_last()));
        if s.last() == '/' {
            lemma_lower_trim(s.drop_last());
        }
    }
}

/// Neither letter case nor slashes at the end tell two base URLs apart.
pub proof fn case_and_trailing_slashes_do_not_matter(base_url: Seq<char>)
    ensures
        normalized(base_url.push('/')) == normalized(base_url),
        normalized(lower(base_url)) == normalized(base_url),
{
    assert(base_url.push('/').drop_last() =~= base_url);
    lemma_lower_trim(base_url);
    lemma_lower_trim(lower(base_url));
}

/// Text before which the end is not a slash stays when slashes are trimmed.
proof fn lemma_trim_behind(front: Seq<char>, tail: Seq<char>)
    requires
        front.len() > 0,
        front.last() != '/',
    ensures
        without_trailing_slashes(front + tail) == front + without_trailing_slashes(tail),
    decreases tail.len(),
{
    if tail.len() == 0 {
        assert(front + tail =~= front);
    } else if tail.last() == '/' {
        assert((front + tail).drop_last() =~= front + tail.drop_last());
        assert((front + tail).last() == '/');
        lemma_trim_behind(front, tail.drop_last());
    } else {
        assert((front + tail).last() == tail.last());
    }
}

/// Trimming slashes leaves a beginning of the text.
proof fn lemma_trim_is_prefix(tail: Seq<char>)
    ensures
        without_trailing_slashes(tail).len() <= tail.len(),
        without_trailing_slashes(tail) == tail.take(without_trailing_slashes(tail).len() as int),
        ends_host(tail) ==> ends_host(without_trailing_slashes(tail)),
    decreases tail.len(),
{
    if tail.len() > 0 && tail.last() == '/' {
        lemma_trim_is_prefix(tail.drop_last());
        let short = without_trailing_slashes(tail);
        assert(tail.drop_last().take(short.len() as int) =~= tail.take(short.len() as int));
    } else {
        assert(tail.take(tail.len() as int) =~= tail);
    }
}

/// What does not stand in a text does not stand in a beginning of it.
proof fn lemma_prefix_lacks(s: Seq<char>, n: int, pat: Seq<char>)
    requires
        0 <= n <= s.len(),
        !contains(s, pat),
    ensures
        !contains(s.take(n), pat),
{
    if contains(s.take(n), pat) {
        let i = choose|i: int| occurs_at(s.take(n), pat, i);
        assert(s.take(n).subrange(i, i + pat.len()) =~= s.subrange(i, i + pat.len()));
        assert(occurs_at(s, pat, i));
    }
}

/// A pattern that starts with two slashes, and goes on with something else, stands
/// first where the first slashes are, or else only behind the host.
proof fn lemma_first_slashes(scheme: Seq<char>, host: Seq<char>, tail: Seq<char>, pat: Seq<char>)
    requires
        forall|i: int| 0 <= i < scheme.len() ==> #[trigger] scheme[i] != '/',
        host.len() >= 3,
        host[0] == '/' && host[1] == '/',
        forall|i: int| 2 <= i < host.len() ==> #[trigger] host[i] != '/',
        pat.len() >= 3,
        pat[0] == '/' && pat[1] == '/' && pat[2] != '/',
        !contains(tail, pat),
    ensures
        ({
            let url = scheme + host + tail;
            &&& forall|i: int|
                occurs_at(url, pat, i) ==> i == scheme.len()
            &&& occurs_at(url, pat, scheme.len() as int) && pat.len() <= host.len() ==> host.take(
                pat.len() as int,
            ) == pat
        }),
{
    let url = scheme + host + tail;
    let start = scheme.len() as int;
    let end = start + host.len();
    assert forall|i: int| occurs_at(url, pat, i) implies i == start by {
        assert(url.subrange(i, i + pat.len())[0] == url[i]);
        assert(url.subrange(i, i + pat.len())[1] == url[i + 1]);
        assert(url.subrange(i, i + pat.len())[2] == url[i + 2]);
        if i < start {
            assert(url[i] == scheme[i]);
        } else if start < i && i < end {
            assert(url[i] == host[i - start]);
            if i == start + 1 {
                assert(url[i + 1] == host[2]);
            }
        } else if i >= end {
            assert(tail.subrange(i - end, i - end + pat.len()) =~= url.subrange(
                i,
                i + pat.len(),
            ));
            assert(occurs_at(tail, pat, i - end));
        }
    }
    if occurs_at(url, pat, start) && pat.len() <= host.len() {
        assert(host.take(pat.len() as int) =~= url.subrange(start, start + pat.len()));
    }
}

/// A scheme, such as `http:`, has no slash.
pub open spec fn slashless(scheme: Seq<char>) -> bool {
    forall|i: int| 0 <= i < scheme.len() ==> #[trigger] scheme[i] != '/'
}

/// What follows the host names no alias of its own.
pub open spec fn names_no_alias(tail: Seq<char>) -> bool {
    !contains(lower(tail), "//localhost"@) && !contains(lower(tail), "//[::1]"@)
}

proof fn lemma_split(scheme: Seq<char>, host: Seq<char>, tail: Seq<char>)
    requires
        host.len() > 0,
        host.last() != '/',
        lower(host) == host,
    ensures
        lower(without_trailing_slashes(scheme + host + tail)) == lower(scheme) + host + lower(
            without_trailing_slashes(tail),
        ),
{
    lemma_trim_behind(scheme + host, tail);
    assert(lower(scheme + host + without_trailing_slashes(tail)) =~= lower(scheme) + lower(host)
        + lower(without_trailing_slashes(tail)));
}

proof fn lemma_tail(tail: Seq<char>)
    requires
        names_no_alias(tail),
    ensures
        ({
            let short = lower(without_trailing_slashes(tail));
            &&& !contains(short, "//localhost"@)
            &&& !contains(short, "//[::1]"@)
            &&& ends_host(tail) ==> ends_host(short)
        }),
{
    let short = without_trailing_slashes(tail);
    lemma_trim_is_prefix(tail);
    let n = short.len() as int;
    assert(lower(short) =~= lower(tail).take(n));
    lemma_prefix_lacks(lower(tail), n, "//localhost"@);
    lemma_prefix_lacks(lower(tail), n, "//[::1]"@);
}

proof fn lemma_hosts()
    ensures
        "//localhost"@.len() == 11,
        "//localhost"@[0] == '/',
        "//localhost"@[1] == '/',
        "//localhost"@[2] == 'l',
        "//localhost"@.last() != '/',
        lower("//localhost"@) == "//localhost"@,
        forall|i: int| 2 <= i < 11 ==> "//localhost"@[i] != '/',
        "//[::1]"@.len() == 7,
        "//[::1]"@[0] == '/',
        "//[::1]"@[1] == '/',
        "//[::1]"@[2] == '[',
        "//[::1]"@.last() != '/',
        lower("//[::1]"@) == "//[::1]"@,
        forall|i: int| 2 <= i < 7 ==> "//[::1]"@[i] != '/',
        "//127.0.0.1"@.len() == 11,
        "//127.0.0.1"@[0] == '/',
        "//127.0.0.1"@[1] == '/',
        "//127.0.0.1"@[2] == '1',
        "//127.0.0.1"@.last() != '/',
        lower("//127.0.0.1"@) == "//127.0.0.1"@,
        forall|i: int| 2 <= i < 11 ==> "//127.0.0.1"@[i] != '/',
{
    reveal_strlit("//localhost");
    reveal_strlit("//[::1]");
    reveal_strlit("//127.0.0.1");
    assert(lower("//localhost"@) =~= "//localhost"@);
    assert(lower("//[::1]"@) =~= "//[::1]"@);
    assert(lower("//127.0.0.1"@) =~= "//127.0.0.1"@);
}

/// The letters of a scheme without a slash, made small, are without one too.
proof fn lemma_slashless(scheme: Seq<char>)
    requires
        slashless(scheme),
    ensures
        slashless(lower(scheme)),
{
    assert forall|i: int| 0 <= i < lower(scheme).len() implies #[trigger] lower(scheme)[i]
        != '/' by {
        assert(scheme[i] != '/');
    }
}

/// Finding the alias as the host puts `127.0.0.1` in its place.
proof fn lemma_unaliased(scheme: Seq<char>, alias: Seq<char>, tail: Seq<char>)
    requires
        slashless(scheme),
        alias.len() >= 3,
        alias[0] == '/' && alias[1] == '/' && alias[2] != '/',
        forall|i: int| 2 <= i < alias.len() ==> alias[i] != '/',
        !contains(tail, alias),
    ensures
        unaliased(scheme + alias + tail, alias) == (if ends_host(tail) {
            Some(scheme + "//127.0.0.1"@ + tail)
        } else {
            None
        }),
{
    let url = scheme + alias + tail;
    let at = scheme.len() as int;
    lemma_first_slashes(scheme, alias, tail, alias);
    assert(url.subrange(at, at + alias.len()) =~= alias);
    assert(first_at(url, alias, at));
    lemma_position_is(url, alias, at);
    assert(url.take(at) =~= scheme);
    assert(url.skip(at + alias.len()) =~= tail);
}

/// A host that is not the alias is left alone.
proof fn lemma_not_aliased(scheme: Seq<char>, host: Seq<char>, tail: Seq<char>, alias: Seq<char>)
    requires
        slashless(scheme),
        host.len() >= 3,
        host[0] == '/' && host[1] == '/' && host[2] != '/',
        forall|i: int| 2 <= i < host.len() ==> host[i] != '/',
        alias.len() >= 3,
        alias[0] == '/' && alias[1] == '/' && alias[2] != '/',
        alias[2] != host[2],
        !contains(tail, alias),
    ensures
        unaliased(scheme + host + tail, alias) is None,
{
    let url = scheme + host + tail;
    lemma_first_slashes(scheme, host, tail, alias);
    if contains(url, alias) {
        let i = choose|i: int| occurs_at(url, alias, i);
        assert(url.subrange(i, i + alias.len())[2] == url[i + 2]);
        assert(url[scheme.len() + 2int] == host[2]);
    }
}

/// `localhost`, `[::1]` and `127.0.0.1` name the same endpoint.
pub proof fn aliases_name_the_same_endpoint(scheme: Seq<char>, tail: Seq<char>)
    requires
        slashless(scheme),
        ends_host(tail),
        names_no_alias(tail),
    ensures
        normalized(scheme + "//localhost"@ + tail) == normalized(scheme + "//127.0.0.1"@ + tail),
        normalized(scheme + "//[::1]"@ + tail) == normalized(scheme + "//127.0.0.1"@ + tail),
{
    lemma_hosts();
    lemma_slashless(scheme);
    lemma_tail(tail);
    let front = lower(scheme);
    let short = lower(without_trailing_slashes(tail));
    lemma_split(scheme, "//localhost"@, tail);
    lemma_unaliased(front, "//localhost"@, short);
    lemma_split(scheme, "//[::1]"@, tail);
    lemma_not_aliased(front, "//[::1]"@, short, "//localhost"@);
    lemma_unaliased(front, "//[::1]"@, short);
    lemma_split(scheme, "//127.0.0.1"@, tail);
    lemma_not_aliased(front, "//127.0.0.1"@, short, "//localhost"@);
    lemma_not_aliased(front, "//127.0.0.1"@, short, "//[::1]"@);
}

/// A hostname that only starts with an alias is an ordinary hostname.
pub proof fn a_longer_hostname_is_no_alias(scheme: Seq<char>, tail: Seq<char>)
    requires
        slashless(scheme),
        !ends_host(tail),
        names_no_alias(tail),
    ensures
        normalized(scheme + "//localhost"@ + tail) == lower(
            without_trailing_slashes(scheme + "//localhost"@ + tail),
        ),
{
    lemma_hosts();
    lemma_slashless(scheme);
    lemma_tail(tail);
    lemma_trim_is_prefix(tail);
    let front = lower(scheme);
    let short = lower(without_trailing_slashes(tail));
    assert(tail.len() > 0 && without_trailing_slashes(tail).len() > 0) by {
        lemma_keeps_first(tail);
    }
    lemma_keeps_first(tail);
    lemma_split(scheme, "//localhost"@, tail);
    lemma_unaliased(front, "//localhost"@, short);
    lemma_not_aliased(front, "//localhost"@, short, "//[::1]"@);
}

proof fn lemma_keeps_first(tail: Seq<char>)
    requires
        tail.len() > 0,
        tail[0] != '/',
    ensures
        without_trailing_slashes(tail).len() > 0,
        without_trailing_slashes(tail)[0] == tail[0],
    decreases tail.len(),
{
    if tail.last() == '/' {
        lemma_keeps_first(tail.drop_last());
    }
}

/// The first slashes of a URL are those behind its scheme.
proof fn lemma_slashes(scheme: Seq<char>, host: Seq<char>, tail: Seq<char>)
    requires
        slashless(scheme),
        host.len() >= 2,
        host[0] == '/' && host[1] == '/',
    ensures
        position(scheme + host + tail, "//"@) == Some(scheme.len() as int),
{
    reveal_strlit("//");
    let url = scheme + host + tail;
    let at = scheme.len() as int;
    assert(url.subrange(at, at + 2) =~= "//"@);
    assert forall|j: int| 0 <= j < at implies !occurs_at(url, "//"@, j) by {
        if occurs_at(url, "//"@, j) {
            assert(url.subrange(j, j + 2)[0] == scheme[j]);
        }
    }
    lemma_position_is(url, "//"@, at);
}

/// Whether a URL names the host that it was made with.
proof fn lemma_names_host(scheme: Seq<char>, host: Seq<char>, tail: Seq<char>)
    requires
        slashless(scheme),
        host.len() >= 3,
        host[0] == '/' && host[1] == '/',
    ensures
        names_host(scheme + host + tail, host) == ends_authority(tail),
        forall|alias: Seq<char>|
            alias.len() >= 3 && alias[2] != host[2] ==> !(#[trigger] names_host(
                scheme + host + tail,
                alias,
            )),
{
    let url = scheme + host + tail;
    let at = scheme.len() as int;
    lemma_slashes(scheme, host, tail);
    assert(url.subrange(at, at + host.len()) =~= host);
    assert(url.skip(at + host.len()) =~= tail);
    assert forall|alias: Seq<char>| alias.len() >= 3 && alias[2] != host[2] implies !(
    #[trigger] names_host(url, alias)) by {
        if occurs_at(url, alias, at) {
            assert(url.subrange(at, at + alias.len())[2] == host[2]);
        }
    }
}

/// A URL is local exactly where one of the names of this host is all of its host,
/// with nothing, a port, a path, a query or a fragment behind it: with more behind the
/// name it is another host.
pub proof fn only_whole_hosts_are_local(scheme: Seq<char>, tail: Seq<char>)
    requires
        slashless(scheme),
    ensures
        loopback(scheme + "//127.0.0.1"@ + tail) == ends_authority(tail),
        loopback(scheme + "//localhost"@ + tail) == ends_authority(tail),
        loopback(scheme + "//[::1]"@ + tail) == ends_authority(tail),
{
    lemma_hosts();
    lemma_names_host(scheme, "//127.0.0.1"@, tail);
    lemma_names_host(scheme, "//localhost"@, tail);
    lemma_names_host(scheme, "//[::1]"@, tail);
}

/// A host ends where the text does, at a port or at a path; and in a URL that is only
/// looked at, at a query or a fragment too.
pub proof fn a_host_ends_at_these(tail: Seq<char>)
    ensures
        ends_host(tail) <==> tail.len() == 0 || tail[0] == ':' || tail[0] == '/',
        ends_authority(tail) <==> tail.len() == 0 || tail[0] == ':' || tail[0] == '/' || tail[0]
            == '?' || tail[0] == '#',
{
}

/// Of a URL that names this host by an alias, the alias becomes `127.0.0.1`, letters
/// become small, slashes at the end go, and nothing else is changed.
pub proof fn only_the_alias_is_replaced(scheme: Seq<char>, tail: Seq<char>)
    requires
        slashless(scheme),
        ends_host(tail),
        names_no_alias(tail),
    ensures
        normalized(scheme + "//localhost"@ + tail) == lower(scheme) + "//127.0.0.1"@ + lower(
            without_trailing_slashes(tail),
        ),
        normalized(scheme + "//[::1]"@ + tail) == lower(scheme) + "//127.0.0.1"@ + lower(
            without_trailing_slashes(tail),
        ),
        normalized(scheme + "//127.0.0.1"@ + tail) == lower(scheme) + "//127.0.0.1"@ + lower(
            without_trailing_slashes(tail),
        ),
{
    lemma_hosts();
    lemma_slashless(scheme);
    lemma_tail(tail);
    let front = lower(scheme);
    let short = lower(without_trailing_slashes(tail));
    lemma_split(scheme, "//localhost"@, tail);
    lemma_unaliased(front, "//localhost"@, short);
    lemma_split(scheme, "//[::1]"@, tail);
    lemma_not_aliased(front, "//[::1]"@, short, "//localhost"@);
    lemma_unaliased(front, "//[::1]"@, short);
    lemma_split(scheme, "//127.0.0.1"@, tail);
    lemma_not_aliased(front, "//127.0.0.1"@, short, "//localhost"@);
    lemma_not_aliased(front, "//127.0.0.1"@, short, "//[::1]"@);
}

/// A URL that mentions no alias is told from others by all of its characters, but for
/// the case of its letters and the slashes at its end.
pub proof fn what_mentions_no_alias_is_left_alone(url: Seq<char>)
    requires
        !contains(lower(without_trailing_slashes(url)), "//localhost"@),
        !contains(lower(without_trailing_slashes(url)), "//[::1]"@),
    ensures
        normalized(url) == lower(without_trailing_slashes(url)),
{
}

/// A URL that is local names this host: it is something without two slashes in a row,
/// then one of the three names, then what may follow a host.
pub proof fn a_local_url_names_this_host(url: Seq<char>) -> (parts: (
    Seq<char>,
    Seq<char>,
    Seq<char>,
))
    ensures
        loopback(url) ==> {
            &&& url == parts.0 + parts.1 + parts.2
            &&& parts.1 == "//127.0.0.1"@ || parts.1 == "//localhost"@ || parts.1 == "//[::1]"@
            &&& parts.2.len() == 0 || parts.2[0] == ':' || parts.2[0] == '/' || parts.2[0] == '?'
                || parts.2[0] == '#'
            &&& forall|i: int|
                0 <= i < parts.0.len() - 1 ==> !(#[trigger] parts.0[i] == '/' && parts.0[i + 1]
                    == '/')
        },
{
    let alias = if names_host(url, "//127.0.0.1"@) {
        "//127.0.0.1"@
    } else if names_host(url, "//localhost"@) {
        "//localhost"@
    } else {
        "//[::1]"@
    };
    let parts = if loopback(url) {
        let at = position(url, "//"@)->0;
        (url.take(at), alias, url.skip(at + alias.len()))
    } else {
        (url, alias, url)
    };
    if loopback(url) {
        reveal_strlit("//");
        let at = position(url, "//"@)->0;
        let k = choose|k: int| occurs_at(url, "//"@, k);
        crate::text::lemma_position(url, "//"@, k);
        assert forall|i: int| 0 <= i < alias.len() implies #[trigger] alias[i] == url[at + i] by {
            assert(url.subrange(at, at + alias.len())[i] == url[at + i]);
        }
        assert(url =~= parts.0 + parts.1 + parts.2);
        assert forall|i: int| 0 <= i < parts.0.len() - 1 implies !(#[trigger] parts.0[i] == '/'
            && parts.0[i + 1] == '/') by {
            if parts.0[i] == '/' && parts.0[i + 1] == '/' {
                assert(url.subrange(i, i + 2) =~= "//"@);
                assert(occurs_at(url, "//"@, i));
            }
        }
    }
    parts
}

} // verus!
