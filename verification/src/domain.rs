//! Grouping of recipes by the host that serves them, so that one host is
//! asked by one worker at a time, whatever user, port or path a URL names.

use crate::recipe::{pkgbuild_views, Pkgbuild, PkgbuildModel};
use crate::seqs::{
    first_occurrences, index_views, lemma_first_occurrences_distinct,
    lemma_first_occurrences_same, lemma_positions_where, positions_where,
};
use crate::text::{chars_of, compare_strs, str_views, Order};
use vstd::prelude::*;

verus! {

/// The first position at or after `from` that holds `c`, or the length where
/// there is none.
pub open spec fn find_from(u: Seq<char>, c: char, from: int) -> int
    decreases u.len() - from,
{
    if from < 0 || from >= u.len() {
        u.len() as int
    } else if u[from] == c {
        from
    } else {
        find_from(u, c, from + 1)
    }
}

/// The position just after the first `://` that begins at or after `from`,
/// or zero where there is none.
pub open spec fn scheme_end_from(u: Seq<char>, from: int) -> int
    decreases u.len() - from,
{
    if from < 0 || from + 3 > u.len() {
        0
    } else if u[from] == ':' && u[from + 1] == '/' && u[from + 2] == '/' {
        from + 3
    } else {
        scheme_end_from(u, from + 1)
    }
}

/// The position just after the last `c` in `s`, or zero where there is none.
pub open spec fn after_last(s: Seq<char>, c: char) -> int
    decreases s.len(),
{
    if s.len() == 0 {
        0
    } else if s.last() == c {
        s.len() as int
    } else {
        after_last(s.drop_last(), c)
    }
}

/// Whether the URL names a scheme: it holds `://`.
pub open spec fn has_scheme(u: Seq<char>) -> bool {
    scheme_end_from(u, 0) > 0
}

/// The authority of a URL: what stands between the first `://`, or the
/// start where there is none, and the next `/`, or the end.
pub open spec fn url_authority(u: Seq<char>) -> Seq<char> {
    let start = scheme_end_from(u, 0);
    u.subrange(start, find_from(u, '/', start))
}

/// The authority without the user who logs in: what follows its last `@`.
/// Where the URL names no scheme, as in `git@host:path`, only an `@` before
/// the first `:` ends the user, since what follows that `:` is a path.
pub open spec fn without_user(authority: Seq<char>, scheme: bool) -> Seq<char> {
    if scheme {
        authority.skip(after_last(authority, '@'))
    } else {
        authority.skip(after_last(authority.take(find_from(authority, ':', 0)), '@'))
    }
}

/// The host without what follows it: an address in brackets stays whole up
/// to its closing bracket; of any other host, what stands before the first
/// `:` stays, which drops a port, or the path of a URL without scheme.
pub open spec fn without_port(host: Seq<char>) -> Seq<char> {
    if host.len() > 0 && host[0] == '[' && find_from(host, ']', 0) < host.len() {
        host.take(find_from(host, ']', 0) + 1)
    } else {
        host.take(find_from(host, ':', 0))
    }
}

/// The domain of a URL: the host that serves it, without scheme, user,
/// port and path.
pub open spec fn url_domain(u: Seq<char>) -> Seq<char> {
    without_port(without_user(url_authority(u), has_scheme(u)))
}

fn find_in(chars: &Vec<char>, c: char, from: usize, to: usize) -> (k: usize)
    requires
        from <= to <= chars@.len(),
    ensures
        from <= k <= to,
        k - from == find_from(chars@.subrange(from as int, to as int), c, 0),
{
    let ghost part = chars@.subrange(from as int, to as int);
    let mut k: usize = from;
    while k < to && chars[k] != c
        invariant
            from <= k <= to <= chars@.len(),
            part == chars@.subrange(from as int, to as int),
            find_from(part, c, 0) == find_from(part, c, k - from),
        decreases to - k,
    {
        assert(part[k - from] == chars@[k as int]);
        k += 1;
    }
    proof {
        if k < to {
            assert(part[k - from] == chars@[k as int]);
        }
    }
    k
}

fn after_last_in(chars: &Vec<char>, c: char, from: usize, to: usize) -> (k: usize)
    requires
        from <= to <= chars@.len(),
    ensures
        from <= k <= to,
        k - from == after_last(chars@.subrange(from as int, to as int), c),
{
    let ghost part = chars@.subrange(from as int, to as int);
    let mut k: usize = to;
    assert(part.take(to - from) =~= part);
    while k > from && chars[k - 1] != c
        invariant
            from <= k <= to <= chars@.len(),
            part == chars@.subrange(from as int, to as int),
            after_last(part, c) == after_last(part.take(k - from), c),
        decreases k,
    {
        proof {
            let head = part.take(k - from);
            assert(head.last() == chars@[k - 1]);
            assert(head.drop_last() =~= part.take(k - 1 - from));
        }
        k -= 1;
    }
    proof {
        let head = part.take(k - from);
        if k > from {
            assert(head.last() == chars@[k - 1]);
        }
    }
    k
}

/// Extracts the domain of a URL.
pub fn domain_of(url: &str) -> (domain: String)
    ensures
        domain@ == url_domain(url@),
{
    let chars = chars_of(url);
    let n = chars.len();
    let mut start: usize = 0;
    let mut i: usize = 0;
    let mut found = false;
    while !found && i < n && n - i >= 3
        invariant
            chars@ == url@,
            n == chars.len(),
            i <= n,
            !found ==> start == 0 && scheme_end_from(url@, 0) == scheme_end_from(url@, i as int),
            found ==> start == scheme_end_from(url@, 0) && 3 <= start <= n,
        decreases n - i + if found { 0int } else { 1int },
    {
        if chars[i] == ':' && chars[i + 1] == '/' && chars[i + 2] == '/' {
            start = i + 3;
            found = true;
        } else {
            i += 1;
        }
    }
    assert(found == has_scheme(url@));
    let mut end: usize = start;
    while end < n && chars[end] != '/'
        invariant
            chars@ == url@,
            n == chars.len(),
            start <= end <= n,
            find_from(url@, '/', start as int) == find_from(url@, '/', end as int),
        decreases n - end,
    {
        end += 1;
    }
    let ghost authority = url@.subrange(start as int, end as int);
    assert(authority == url_authority(url@));
    let host_start = if found {
        after_last_in(&chars, '@', start, end)
    } else {
        let colon = find_in(&chars, ':', start, end);
        proof {
            assert(authority.take(colon - start) =~= url@.subrange(start as int, colon as int));
        }
        after_last_in(&chars, '@', start, colon)
    };
    let ghost host = url@.subrange(host_start as int, end as int);
    assert(host =~= without_user(authority, found));
    let closing = if host_start < end && chars[host_start] == '[' {
        find_in(&chars, ']', host_start, end)
    } else {
        end
    };
    let host_end = if closing < end {
        closing + 1
    } else {
        find_in(&chars, ':', host_start, end)
    };
    proof {
        if host_start < end {
            assert(host[0] == chars@[host_start as int]);
        }
        assert(host.take(host_end - host_start) =~= url@.subrange(
            host_start as int,
            host_end as int,
        ));
    }
    String::from_str(url.substring_char(host_start, host_end))
}

/// The domains of the recipes' URLs, in the order of the recipes.
pub open spec fn domains_of(s: Seq<PkgbuildModel>) -> Seq<Seq<char>> {
    Seq::new(s.len(), |i: int| url_domain(s[i].url))
}

/// The positions of the recipes whose domain is `domain`, in order.
pub open spec fn positions_of_domain(domains: Seq<Seq<char>>, n: int, domain: Seq<char>) -> Seq<
    int,
> {
    positions_where(n, |i: int| domains[i] == domain)
}

/// The buckets: one for each domain, in the order in which the domains first
/// occur, each holding the positions of the recipes of its domain, in order.
pub open spec fn buckets_of(domains: Seq<Seq<char>>) -> Seq<Seq<int>> {
    Seq::new(
        first_occurrences(domains).len(),
        |b: int| positions_of_domain(domains, domains.len() as int, first_occurrences(domains)[b]),
    )
}

/// The values of a sequence of buckets.
pub open spec fn bucket_views(v: Seq<Vec<usize>>) -> Seq<Seq<int>> {
    Seq::new(v.len(), |b: int| index_views(v[b]@))
}

fn find_key(keys: &Vec<String>, key: &str) -> (at: Option<usize>)
    ensures
        at matches Some(b) ==> b < keys@.len() && keys@[b as int]@ == key@,
        at is None ==> !str_views(keys@).contains(key@),
{
    let mut b: usize = 0;
    while b < keys.len()
        invariant
            b <= keys.len(),
            forall|j: int| 0 <= j < b ==> str_views(keys@)[j] != key@,
        decreases keys.len() - b,
    {
        if compare_strs(keys[b].as_str(), key) == Order::Equal {
            return Some(b);
        }
        b += 1;
    }
    None
}

/// Groups the recipes by the domain of their URL, which is its host. A
/// worker takes one bucket and syncs its recipes one after the other, so
/// fetches from one host never run side by side.
pub fn map_by_domain(pkgbuilds: &Vec<Pkgbuild>) -> (buckets: Vec<Vec<usize>>)
    ensures
        bucket_views(buckets@) == buckets_of(domains_of(pkgbuild_views(pkgbuilds@))),
{
    let ghost domains = domains_of(pkgbuild_views(pkgbuilds@));
    let mut keys: Vec<String> = Vec::new();
    let mut buckets: Vec<Vec<usize>> = Vec::new();
    let mut i: usize = 0;
    assert(str_views(keys@) =~= first_occurrences(domains.take(0)));
    while i < pkgbuilds.len()
        invariant
            i <= pkgbuilds.len(),
            domains == domains_of(pkgbuild_views(pkgbuilds@)),
            domains.len() == pkgbuilds@.len(),
            str_views(keys@) == first_occurrences(domains.take(i as int)),
            buckets@.len() == keys@.len(),
            forall|b: int|
                0 <= b < buckets@.len() ==> index_views(#[trigger] buckets@[b]@)
                    == positions_of_domain(domains, i as int, str_views(keys@)[b]),
        decreases pkgbuilds.len() - i,
    {
        let domain = domain_of(pkgbuilds[i].url.as_str());
        let ghost seen = domains.take(i as int);
        let ghost old_keys = str_views(keys@);
        let ghost old_buckets = buckets@;
        proof {
            assert(domain@ == domains[i as int]);
            assert(domains.take(i as int + 1).drop_last() =~= seen);
            assert(domains.take(i as int + 1).last() == domain@);
            lemma_first_occurrences_same(seen);
            lemma_first_occurrences_distinct(seen);
        }
        match find_key(&keys, domain.as_str()) {
            Some(at) => {
                proof {
                    assert(old_keys[at as int] == domain@);
                    assert(old_keys.contains(domain@));
                    assert(seen.contains(domain@));
                }
                let ghost before = index_views(buckets@[at as int]@);
                buckets[at].push(i);
                proof {
                    assert(index_views(buckets@[at as int]@) =~= before.push(i as int));
                    assert forall|b: int| 0 <= b < buckets@.len() implies index_views(
                        #[trigger] buckets@[b]@,
                    ) == positions_of_domain(domains, i as int + 1, str_views(keys@)[b]) by {
                        if b != at {
                            assert(buckets@[b] == old_buckets[b]);
                            assert(old_keys[b] != old_keys[at as int]);
                        }
                    }
                }
            },
            None => {
                proof {
                    assert(!seen.contains(domain@));
                    lemma_positions_where(i as int, |j: int| domains[j] == domain@);
                    let none = positions_of_domain(domains, i as int, domain@);
                    if none.len() > 0 {
                        assert(none.contains(none[0]));
                        assert(seen[none[0]] == domain@);
                    }
                    assert(none =~= Seq::<int>::empty());
                }
                let mut bucket: Vec<usize> = Vec::new();
                bucket.push(i);
                assert(index_views(bucket@) =~= seq![i as int]);
                keys.push(domain);
                buckets.push(bucket);
                proof {
                    assert(str_views(keys@) =~= old_keys.push(domains[i as int]));
                    assert forall|b: int| 0 <= b < buckets@.len() implies index_views(
                        #[trigger] buckets@[b]@,
                    ) == positions_of_domain(domains, i as int + 1, str_views(keys@)[b]) by {
                        if b < old_buckets.len() {
                            assert(buckets@[b] == old_buckets[b]);
                            assert(old_keys.contains(old_keys[b]));
                        } else {
                            assert(index_views(buckets@[b]@) =~= Seq::<int>::empty().push(i as int));
                        }
                    }
                }
            },
        }
        i += 1;
    }
    proof {
        assert(domains.take(pkgbuilds@.len() as int) =~= domains);
        assert(bucket_views(buckets@) =~= buckets_of(domains));
    }
    buckets
}

/// Domain serialization. Recipes whose URLs share a domain stand in the same
/// bucket, so one worker syncs them, one after the other.
pub proof fn lemma_same_domain_same_bucket(domains: Seq<Seq<char>>, i: int, j: int)
    requires
        0 <= i < domains.len(),
        0 <= j < domains.len(),
        domains[i] == domains[j],
    ensures
        exists|b: int|
            0 <= b < buckets_of(domains).len() && (#[trigger] buckets_of(domains)[b]).contains(i)
                && buckets_of(domains)[b].contains(j),
{
    lemma_first_occurrences_same(domains);
    let keys = first_occurrences(domains);
    assert(domains.contains(domains[i]));
    assert(keys.contains(domains[i]));
    let b = choose|b: int| 0 <= b < keys.len() && keys[b] == domains[i];
    lemma_positions_where(domains.len() as int, |k: int| domains[k] == keys[b]);
    assert(buckets_of(domains)[b].contains(i));
    assert(buckets_of(domains)[b].contains(j));
}

/// Every recipe stands in exactly one bucket, with the recipes of its
/// domain and no others.
pub proof fn lemma_buckets_partition(domains: Seq<Seq<char>>, b: int, c: int, i: int)
    requires
        0 <= b < buckets_of(domains).len(),
        0 <= c < buckets_of(domains).len(),
        buckets_of(domains)[b].contains(i),
    ensures
        0 <= i < domains.len(),
        domains[i] == first_occurrences(domains)[b],
        buckets_of(domains)[c].contains(i) ==> b == c,
{
    lemma_first_occurrences_distinct(domains);
    let keys = first_occurrences(domains);
    lemma_positions_where(domains.len() as int, |k: int| domains[k] == keys[b]);
    lemma_positions_where(domains.len() as int, |k: int| domains[k] == keys[c]);
}

proof fn lemma_find_skips(s: Seq<char>, c: char, tail: Seq<char>, from: int)
    requires
        0 <= from <= s.len(),
        forall|i: int| from <= i < s.len() ==> s[i] != c,
    ensures
        find_from(s + seq![c] + tail, c, from) == s.len(),
    decreases s.len() - from,
{
    let all = s + seq![c] + tail;
    if from < s.len() {
        assert(all[from] == s[from]);
        lemma_find_skips(s, c, tail, from + 1);
    } else {
        assert(all[from] == c);
    }
}

proof fn lemma_after_last_of_tail(head: Seq<char>, c: char, tail: Seq<char>)
    requires
        forall|i: int| 0 <= i < tail.len() ==> tail[i] != c,
    ensures
        after_last(head + seq![c] + tail, c) == head.len() + 1,
    decreases tail.len(),
{
    let all = head + seq![c] + tail;
    if tail.len() == 0 {
        assert(all.last() == c);
    } else {
        assert(all.last() == tail.last());
        assert(all.drop_last() =~= head + seq![c] + tail.drop_last());
        lemma_after_last_of_tail(head, c, tail.drop_last());
    }
}

/// The port does not count: a host and the same host with a port are one
/// domain.
pub proof fn lemma_port_is_dropped(host: Seq<char>, port: Seq<char>)
    requires
        forall|i: int| 0 <= i < host.len() ==> host[i] != ':',
        host.len() == 0 || host[0] != '[',
    ensures
        without_port(host + seq![':'] + port) == host,
        without_port(host) == host,
{
    let with_port = host + seq![':'] + port;
    lemma_find_skips(host, ':', port, 0);
    assert(with_port.take(host.len() as int) =~= host);
    if host.len() > 0 {
        assert(with_port[0] == host[0]);
    }
    lemma_find_misses(host, ':', 0);
    assert(host.take(host.len() as int) =~= host);
}

proof fn lemma_find_misses(s: Seq<char>, c: char, from: int)
    requires
        0 <= from <= s.len(),
        forall|i: int| from <= i < s.len() ==> s[i] != c,
    ensures
        find_from(s, c, from) == s.len(),
    decreases s.len() - from,
{
    if from < s.len() {
        lemma_find_misses(s, c, from + 1);
    }
}

/// The user does not count: in a URL with a scheme, what stands before the
/// last `@` of the authority is dropped.
pub proof fn lemma_user_is_dropped(user: Seq<char>, rest: Seq<char>)
    requires
        forall|i: int| 0 <= i < rest.len() ==> rest[i] != '@',
    ensures
        without_user(user + seq!['@'] + rest, true) == rest,
{
    lemma_after_last_of_tail(user, '@', rest);
    assert((user + seq!['@'] + rest).skip(user.len() as int + 1) =~= rest);
}

/// Without a scheme, as in `git@host:path`, the host stands between the
/// user and the first `:`.
pub proof fn lemma_scp_form_gives_host(user: Seq<char>, host: Seq<char>, path: Seq<char>)
    requires
        forall|i: int| 0 <= i < user.len() ==> user[i] != ':',
        forall|i: int| 0 <= i < host.len() ==> host[i] != ':' && host[i] != '@',
        host.len() == 0 || host[0] != '[',
    ensures
        without_port(without_user(user + seq!['@'] + host + seq![':'] + path, false)) == host,
{
    let authority = user + seq!['@'] + host + seq![':'] + path;
    let front = user + seq!['@'] + host;
    assert(authority =~= front + seq![':'] + path);
    assert forall|i: int| 0 <= i < front.len() implies front[i] != ':' by {
        if i < user.len() {
            assert(front[i] == user[i]);
        } else if i > user.len() {
            assert(front[i] == host[i - user.len() - 1]);
        }
    }
    lemma_find_skips(front, ':', path, 0);
    assert(authority.take(front.len() as int) =~= front);
    lemma_after_last_of_tail(user, '@', host);
    assert(authority.skip(user.len() as int + 1) =~= host + seq![':'] + path);
    lemma_port_is_dropped(host, path);
}

} // verus!
