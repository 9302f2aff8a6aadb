//! Sources that recipes declare, and their deduplication before caching.

use crate::seqs::{
    first_occurrences, lemma_filter_members, lemma_first_occurrences_same,
    lemma_split_at_nonempty, split_at,
};
use crate::text::{
    chars_of, compare_strs, concat3, decimal, decimal_of, decoded_lines, lossy_lines,
    str_views, Order,
};
use vstd::prelude::*;

verus! {

/// How a source is obtained.
#[derive(Clone, Copy, Debug, PartialEq, Eq, Structural)]
pub enum SourceKind {
    /// A file fetched over the network.
    Netfile,
    /// A git repository.
    Git,
    /// A file that lies beside the recipe.
    Local,
}

/// A source reference: its kind, its identity (URL or path) and its integrity
/// descriptor, which is empty for local sources.
#[derive(Clone, Debug, PartialEq, Eq)]
pub struct Source {
    pub kind: SourceKind,
    pub identity: String,
    pub integrity: String,
}

/// The mathematical value of a [`Source`].
pub struct SourceModel {
    pub kind: SourceKind,
    pub identity: Seq<char>,
    pub integrity: Seq<char>,
}

impl View for Source {
    type V = SourceModel;

    open spec fn view(&self) -> SourceModel {
        SourceModel { kind: self.kind, identity: self.identity@, integrity: self.integrity@ }
    }
}

/// The values of a sequence of sources.
pub open spec fn source_views(v: Seq<Source>) -> Seq<SourceModel> {
    Seq::new(v.len(), |i: int| v[i]@)
}

/// The sources of `s` that have the given kind, in order.
pub open spec fn of_kind(s: Seq<SourceModel>, kind: SourceKind) -> Seq<SourceModel> {
    s.filter(|x: SourceModel| x.kind == kind)
}

impl Source {
    /// A source of the given kind.
    pub fn new(kind: SourceKind, identity: String, integrity: String) -> (s: Source)
        ensures
            s@ == (SourceModel { kind, identity: identity@, integrity: integrity@ }),
    {
        Source { kind, identity, integrity }
    }

    /// A second source with the same value.
    pub fn duplicate(&self) -> (s: Source)
        ensures
            s@ == self@,
    {
        Source {
            kind: self.kind,
            identity: self.identity.clone(),
            integrity: self.integrity.clone(),
        }
    }

    /// Whether two sources are the same: kind, identity and integrity agree.
    pub fn same(&self, other: &Source) -> (r: bool)
        ensures
            r == (self@ == other@),
    {
        let r = self.kind == other.kind && self.identity == other.identity && self.integrity
            == other.integrity;
        proof {
            if r {
                assert(self@.identity =~= other@.identity);
                assert(self@.integrity =~= other@.integrity);
            }
        }
        r
    }
}

/// Whether `list` holds a source equal to `s`.
pub fn contains_source(list: &Vec<Source>, s: &Source) -> (found: bool)
    ensures
        found == source_views(list@).contains(s@),
{
    let mut i: usize = 0;
    while i < list.len()
        invariant
            i <= list.len(),
            forall|j: int| 0 <= j < i ==> source_views(list@)[j] != s@,
        decreases list.len() - i,
    {
        if list[i].same(s) {
            assert(source_views(list@)[i as int] == s@);
            return true;
        }
        i += 1;
    }
    false
}

/// The three buckets hold the sources of `all`, each once, in the order of
/// first occurrence: network files, git repositories and local files.
pub open spec fn first_occurrences_by_kind(
    all: Seq<SourceModel>,
    netfile: Seq<SourceModel>,
    git: Seq<SourceModel>,
    local: Seq<SourceModel>,
) -> bool {
    &&& netfile == of_kind(first_occurrences(all), SourceKind::Netfile)
    &&& git == of_kind(first_occurrences(all), SourceKind::Git)
    &&& local == of_kind(first_occurrences(all), SourceKind::Local)
}

/// Splits the sources of all recipes into network files, git repositories
/// and local files, each source once, in the order of first occurrence.
pub fn unique_sources(all: &Vec<Source>) -> (out: (Vec<Source>, Vec<Source>, Vec<Source>))
    ensures
        first_occurrences_by_kind(
            source_views(all@),
            source_views(out.0@),
            source_views(out.1@),
            source_views(out.2@),
        ),
{
    let mut netfile: Vec<Source> = Vec::new();
    let mut git: Vec<Source> = Vec::new();
    let mut local: Vec<Source> = Vec::new();
    let ghost views = source_views(all@);
    let mut i: usize = 0;
    proof {
        let none = first_occurrences(views.take(0));
        assert(none =~= Seq::<SourceModel>::empty());
        assert(source_views(netfile@) =~= of_kind(none, SourceKind::Netfile));
        assert(source_views(git@) =~= of_kind(none, SourceKind::Git));
        assert(source_views(local@) =~= of_kind(none, SourceKind::Local));
    }
    while i < all.len()
        invariant
            i <= all.len(),
            views == source_views(all@),
            source_views(netfile@) == of_kind(
                first_occurrences(views.take(i as int)),
                SourceKind::Netfile,
            ),
            source_views(git@) == of_kind(first_occurrences(views.take(i as int)), SourceKind::Git),
            source_views(local@) == of_kind(
                first_occurrences(views.take(i as int)),
                SourceKind::Local,
            ),
        decreases all.len() - i,
    {
        let item = &all[i];
        let ghost seen = views.take(i as int);
        let ghost kept = first_occurrences(seen);
        let ghost next = views.take(i as int + 1);
        proof {
            assert(next.drop_last() =~= seen);
            assert(next.last() == item@);
            lemma_first_occurrences_same(seen);
            lemma_filter_members(kept, |x: SourceModel| x.kind == item.kind, item@);
            kept.lemma_filter_push(item@, |x: SourceModel| x.kind == SourceKind::Netfile);
            kept.lemma_filter_push(item@, |x: SourceModel| x.kind == SourceKind::Git);
            kept.lemma_filter_push(item@, |x: SourceModel| x.kind == SourceKind::Local);
        }
        match item.kind {
            SourceKind::Netfile => {
                if !contains_source(&netfile, item) {
                    let ghost before = source_views(netfile@);
                    netfile.push(item.duplicate());
                    assert(source_views(netfile@) =~= before.push(item@));
                }
            },
            SourceKind::Git => {
                if !contains_source(&git, item) {
                    let ghost before = source_views(git@);
                    git.push(item.duplicate());
                    assert(source_views(git@) =~= before.push(item@));
                }
            },
            SourceKind::Local => {
                if !contains_source(&local, item) {
                    let ghost before = source_views(local@);
                    local.push(item.duplicate());
                    assert(source_views(local@) =~= before.push(item@));
                }
            },
        }
        i += 1;
    }
    assert(views.take(all.len() as int) =~= views);
    (netfile, git, local)
}

/// What is done about one source in its cache.
#[derive(Clone, Copy, Debug, PartialEq, Eq, Structural)]
pub enum CacheAction {
    /// The cached copy is used as it is.
    Keep,
    /// The integrity of the cached copy is checked first.
    Verify,
    /// The source is fetched, or fetched again.
    Fetch,
}

/// What is done about a network file: one that is absent is fetched; one
/// that is present is kept unchecked where integrity checks are skipped,
/// and checked otherwise.
pub open spec fn netfile_plan_of(present: bool, skipint: bool) -> CacheAction {
    if !present {
        CacheAction::Fetch
    } else if skipint {
        CacheAction::Keep
    } else {
        CacheAction::Verify
    }
}

/// What is done about a git source: one that is present is left alone
/// where git sources are held; any other is synced.
pub open spec fn git_plan_of(present: bool, holdgit: bool) -> CacheAction {
    if present && holdgit {
        CacheAction::Keep
    } else {
        CacheAction::Fetch
    }
}

/// Decides what is done about a network file in the cache.
pub fn netfile_plan(present: bool, skipint: bool) -> (action: CacheAction)
    ensures
        action == netfile_plan_of(present, skipint),
{
    if !present {
        CacheAction::Fetch
    } else if skipint {
        CacheAction::Keep
    } else {
        CacheAction::Verify
    }
}

/// Decides what follows the integrity check of a cached network file: an
/// intact copy is kept, any other is fetched again.
pub fn after_verify(intact: bool) -> (action: CacheAction)
    ensures
        action == if intact { CacheAction::Keep } else { CacheAction::Fetch },
{
    if intact {
        CacheAction::Keep
    } else {
        CacheAction::Fetch
    }
}

/// Decides what is done about a git source in the cache.
pub fn git_plan(present: bool, holdgit: bool) -> (action: CacheAction)
    ensures
        action == git_plan_of(present, holdgit),
{
    if present && holdgit {
        CacheAction::Keep
    } else {
        CacheAction::Fetch
    }
}

/// The tabulator, which separates the fields of a source line.
pub const TAB: char = '\t';

/// `s` cut at every tabulator, empty pieces included.
pub open spec fn split_at_tabs(s: Seq<char>) -> Seq<Seq<char>> {
    split_at(s, TAB)
}

/// The kind that a word names.
pub open spec fn kind_of_word(word: Seq<char>) -> Option<SourceKind> {
    if word == "netfile"@ {
        Some(SourceKind::Netfile)
    } else if word == "git"@ {
        Some(SourceKind::Git)
    } else if word == "local"@ {
        Some(SourceKind::Local)
    } else {
        None
    }
}

/// Field `i` of a line, empty where the line has fewer fields.
pub open spec fn field_at(fields: Seq<Seq<char>>, i: int) -> Seq<char> {
    if 0 <= i < fields.len() {
        fields[i]
    } else {
        Seq::<char>::empty()
    }
}

/// The source that a line of the source reader declares: its fields are
/// kind, identity and integrity, separated by tabulators. A line whose first
/// field names no kind declares nothing.
pub open spec fn source_of_line(line: Seq<char>) -> Option<SourceModel> {
    let fields = split_at_tabs(line);
    match kind_of_word(field_at(fields, 0)) {
        Some(kind) => Some(
            SourceModel { kind, identity: field_at(fields, 1), integrity: field_at(fields, 2) },
        ),
        None => None,
    }
}

/// The sources that the lines declare, in order.
pub open spec fn sources_of_lines(lines: Seq<Seq<char>>) -> Seq<SourceModel>
    decreases lines.len(),
{
    if lines.len() == 0 {
        Seq::<SourceModel>::empty()
    } else {
        let before = sources_of_lines(lines.drop_last());
        match source_of_line(lines.last()) {
            Some(source) => before.push(source),
            None => before,
        }
    }
}

/// Cuts a line into its fields.
pub fn split_fields(line: &str) -> (fields: Vec<String>)
    ensures
        str_views(fields@) == split_at_tabs(line@),
{
    let chars = chars_of(line);
    let mut fields: Vec<String> = Vec::new();
    let mut start: usize = 0;
    let mut i: usize = 0;
    proof {
        assert(line@.take(0) =~= Seq::<char>::empty());
        assert(str_views(fields@) =~= split_at_tabs(line@.take(0)).drop_last());
        assert(line@.subrange(0, 0) =~= split_at_tabs(line@.take(0)).last());
    }
    while i < chars.len()
        invariant
            chars@ == line@,
            start <= i <= chars.len(),
            split_at_tabs(line@.take(i as int)).len() > 0,
            str_views(fields@) == split_at_tabs(line@.take(i as int)).drop_last(),
            line@.subrange(start as int, i as int) == split_at_tabs(line@.take(i as int)).last(),
        decreases chars.len() - i,
    {
        let ghost pieces = split_at_tabs(line@.take(i as int));
        let ghost next = line@.take(i as int + 1);
        proof {
            assert(next.drop_last() =~= line@.take(i as int));
            assert(next.last() == line@[i as int]);
            lemma_split_at_nonempty(next, TAB);
        }
        if chars[i] == TAB {
            let ghost before = str_views(fields@);
            fields.push(String::from_str(line.substring_char(start, i)));
            start = i + 1;
            proof {
                assert(pieces =~= pieces.drop_last().push(pieces.last()));
                assert(str_views(fields@) =~= before.push(pieces.last()));
                assert(str_views(fields@) =~= split_at_tabs(next).drop_last());
                assert(line@.subrange(start as int, i as int + 1) =~= split_at_tabs(next).last());
            }
        } else {
            proof {
                assert(split_at_tabs(next).drop_last() =~= pieces.drop_last());
                assert(line@.subrange(start as int, i as int + 1) =~= pieces.last().push(
                    line@[i as int],
                ));
            }
        }
        i += 1;
    }
    let ghost before = str_views(fields@);
    fields.push(String::from_str(line.substring_char(start, i)));
    proof {
        assert(line@.take(chars.len() as int) =~= line@);
        let pieces = split_at_tabs(line@);
        assert(pieces =~= pieces.drop_last().push(pieces.last()));
        assert(str_views(fields@) =~= before.push(pieces.last()));
    }
    fields
}

fn word_kind(word: &str) -> (kind: Option<SourceKind>)
    ensures
        kind == kind_of_word(word@),
{
    if compare_strs(word, "netfile") == Order::Equal {
        Some(SourceKind::Netfile)
    } else if compare_strs(word, "git") == Order::Equal {
        Some(SourceKind::Git)
    } else if compare_strs(word, "local") == Order::Equal {
        Some(SourceKind::Local)
    } else {
        None
    }
}

fn field_or_empty(fields: &Vec<String>, i: usize) -> (field: String)
    ensures
        field@ == field_at(str_views(fields@), i as int),
{
    if i < fields.len() {
        fields[i].clone()
    } else {
        String::new()
    }
}

/// The value of an optional source.
pub open spec fn source_opt_view(source: Option<Source>) -> Option<SourceModel> {
    match source {
        Some(s) => Some(s@),
        None => None,
    }
}

/// Reads one line of the source reader.
pub fn parse_source_line(line: &str) -> (source: Option<Source>)
    ensures
        source_opt_view(source) == source_of_line(line@),
{
    let fields = split_fields(line);
    let first = field_or_empty(&fields, 0);
    match word_kind(first.as_str()) {
        Some(kind) => Some(
            Source {
                kind,
                identity: field_or_empty(&fields, 1),
                integrity: field_or_empty(&fields, 2),
            },
        ),
        None => None,
    }
}

/// The sources that the lines of the source reader declare, in order.
pub fn sources_from_lines(lines: &Vec<String>) -> (sources: Vec<Source>)
    ensures
        source_views(sources@) == sources_of_lines(str_views(lines@)),
{
    let mut sources: Vec<Source> = Vec::new();
    let mut i: usize = 0;
    proof {
        assert(str_views(lines@).take(0) =~= Seq::<Seq<char>>::empty());
        assert(source_views(sources@) =~= sources_of_lines(str_views(lines@).take(0)));
    }
    while i < lines.len()
        invariant
            i <= lines.len(),
            source_views(sources@) == sources_of_lines(str_views(lines@).take(i as int)),
        decreases lines.len() - i,
    {
        let ghost before = source_views(sources@);
        proof {
            let next = str_views(lines@).take(i as int + 1);
            assert(next.drop_last() =~= str_views(lines@).take(i as int));
            assert(next.last() == lines@[i as int]@);
        }
        match parse_source_line(lines[i].as_str()) {
            Some(source) => {
                let ghost model = source@;
                sources.push(source);
                assert(source_views(sources@) =~= before.push(model));
            },
            None => {},
        }
        i += 1;
    }
    assert(str_views(lines@).take(lines.len() as int) =~= str_views(lines@));
    sources
}

/// Reads what the source reader of a recipe printed: one source on each
/// non-empty line.
pub fn parse_sources(stdout: &[u8]) -> (sources: Vec<Source>)
    ensures
        source_views(sources@) == sources_of_lines(decoded_lines(stdout@)),
{
    let lines = lossy_lines(stdout);
    sources_from_lines(&lines)
}

/// The value that the hash starts from.
pub const HASH_OFFSET: u64 = 0xcbf29ce484222325;

/// The value that the hash is multiplied by after each byte.
pub const HASH_PRIME: u64 = 0x100000001b3;

/// The 64-bit hash of a byte string: each byte in turn is folded in by
/// exclusive or, and the result multiplied by the prime, modulo two to the
/// sixty-fourth. It depends on the bytes alone, so a cache entry keeps its
/// name from run to run.
pub open spec fn stable_hash(bytes: Seq<u8>) -> u64
    decreases bytes.len(),
{
    if bytes.len() == 0 {
        HASH_OFFSET
    } else {
        (stable_hash(bytes.drop_last()) ^ (bytes.last() as u64)).wrapping_mul(HASH_PRIME)
    }
}

/// Computes the hash of a byte string.
pub fn hash_bytes(bytes: &[u8]) -> (h: u64)
    ensures
        h == stable_hash(bytes@),
{
    let mut h: u64 = HASH_OFFSET;
    let mut i: usize = 0;
    assert(bytes@.take(0) =~= Seq::<u8>::empty());
    while i < bytes.len()
        invariant
            i <= bytes.len(),
            h == stable_hash(bytes@.take(i as int)),
        decreases bytes.len() - i,
    {
        proof {
            let next = bytes@.take(i as int + 1);
            assert(next.drop_last() =~= bytes@.take(i as int));
            assert(next.last() == bytes@[i as int]);
        }
        h = (h ^ (bytes[i] as u64)).wrapping_mul(HASH_PRIME);
        i += 1;
    }
    assert(bytes@.take(bytes.len() as int) =~= bytes@);
    h
}

/// The name of a source in its cache: the hash of its identity, written as
/// a decimal numeral.
pub open spec fn cache_name_of(identity: Seq<char>) -> Seq<char> {
    decimal_of(stable_hash(vstd::utf8::encode_utf8(identity)) as nat)
}

/// The directory that caches the sources of a kind.
pub open spec fn cache_dir_of(kind: SourceKind) -> Seq<char> {
    match kind {
        SourceKind::Netfile => "sources/netfile"@,
        SourceKind::Git => "sources/git"@,
        SourceKind::Local => "sources/local"@,
    }
}

/// Where a source lies in its cache: under the hash of its identity, in the
/// directory of its kind.
pub open spec fn cache_path_of(s: SourceModel) -> Seq<char> {
    cache_dir_of(s.kind) + "/"@ + cache_name_of(s.identity)
}

impl Source {
    /// The name of the source in its cache.
    pub fn cache_name(&self) -> (name: String)
        ensures
            name@ == cache_name_of(self@.identity),
    {
        decimal(hash_bytes(self.identity.as_str().as_bytes()))
    }

    /// Where the source lies in its cache.
    pub fn cache_path(&self) -> (path: String)
        ensures
            path@ == cache_path_of(self@),
    {
        let dir = match self.kind {
            SourceKind::Netfile => "sources/netfile",
            SourceKind::Git => "sources/git",
            SourceKind::Local => "sources/local",
        };
        let name = self.cache_name();
        concat3(dir, "/", name.as_str())
    }
}

/// Whether an integrity descriptor asks for a check: an empty one and the
/// word `SKIP` do not.
pub open spec fn checked_integrity(integrity: Seq<char>) -> bool {
    integrity.len() > 0 && integrity != "SKIP"@
}

/// Whether `text` begins with `prefix`.
pub open spec fn begins_with(text: Seq<char>, prefix: Seq<char>) -> bool {
    prefix.len() <= text.len() && text.take(prefix.len() as int) == prefix
}

/// Whether a cached file meets the integrity descriptor of its source. A
/// descriptor that asks for no check is met by any file; any other is met
/// where what the digest tool printed of the file begins with it.
pub open spec fn integrity_met(integrity: Seq<char>, digest_output: Seq<char>) -> bool {
    !checked_integrity(integrity) || begins_with(digest_output, integrity)
}

/// Says whether an integrity descriptor asks for a check.
pub fn integrity_is_checked(integrity: &str) -> (checked: bool)
    ensures
        checked == checked_integrity(integrity@),
{
    proof {
        reveal_strlit("");
        if integrity@.len() == 0 {
            assert(integrity@ =~= ""@);
        }
    }
    compare_strs(integrity, "") != Order::Equal && compare_strs(integrity, "SKIP") != Order::Equal
}

/// Says whether what the digest tool printed of a cached file meets the
/// integrity descriptor of its source.
pub fn meets_integrity(integrity: &str, digest_output: &str) -> (met: bool)
    ensures
        met == integrity_met(integrity@, digest_output@),
{
    if !integrity_is_checked(integrity) {
        return true;
    }
    let want = chars_of(integrity);
    let have = chars_of(digest_output);
    if want.len() > have.len() {
        return false;
    }
    let mut i: usize = 0;
    while i < want.len()
        invariant
            i <= want.len() <= have.len(),
            checked_integrity(integrity@),
            want@ == integrity@,
            have@ == digest_output@,
            forall|j: int| 0 <= j < i ==> want@[j] == have@[j],
        decreases want.len() - i,
    {
        if want[i] != have[i] {
            assert(digest_output@.take(integrity@.len() as int)[i as int] != integrity@[i as int]);
            return false;
        }
        i += 1;
    }
    assert(digest_output@.take(integrity@.len() as int) =~= integrity@);
    true
}

} // verus!
