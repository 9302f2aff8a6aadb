//! Text helpers shared by the planning modules: the order of strings, sorting,
//! removal of repeats, lines of process output and trimming.

use crate::seqs::{lemma_filter_insert, lemma_split_at_nonempty, reversed, split_at};
use vstd::prelude::*;

verus! {

/// The views of a sequence of strings.
pub open spec fn str_views(v: Seq<String>) -> Seq<Seq<char>> {
    Seq::new(v.len(), |i: int| v[i]@)
}

/// The views of a sequence of pairs of strings.
pub open spec fn pair_views(v: Seq<(String, String)>) -> Seq<(Seq<char>, Seq<char>)> {
    Seq::new(v.len(), |i: int| (v[i].0@, v[i].1@))
}

/// The view of an optional string.
pub open spec fn opt_view(s: Option<String>) -> Option<Seq<char>> {
    match s {
        Some(text) => Some(text@),
        None => None,
    }
}

/// The characters of `s`, in order.
pub fn chars_of(s: &str) -> (out: Vec<char>)
    ensures
        out@ == s@,
{
    let mut out: Vec<char> = Vec::new();
    for c in it: s.chars()
        invariant
            out@ == it.seq().take(it.index() as int),
    {
        out.push(c);
    }
    out
}

/// How one string stands to another.
#[derive(Clone, Copy, Debug, PartialEq, Eq, Structural)]
pub enum Order {
    Less,
    Equal,
    Greater,
}

/// `a` comes before `b` from position `i` on: at the first position where they
/// differ `a` has the smaller code point, or `a` ends first.
pub open spec fn lex_lt_from(a: Seq<char>, b: Seq<char>, i: int) -> bool
    decreases a.len() - i,
{
    if i < 0 || i >= a.len() {
        i < b.len()
    } else if i >= b.len() {
        false
    } else if a[i] == b[i] {
        lex_lt_from(a, b, i + 1)
    } else {
        (a[i] as u32) < (b[i] as u32)
    }
}

/// Strict lexicographic order by code point, the order of `str`.
pub open spec fn lex_lt(a: Seq<char>, b: Seq<char>) -> bool {
    lex_lt_from(a, b, 0)
}

/// `a` does not come after `b`.
pub open spec fn lex_le(a: Seq<char>, b: Seq<char>) -> bool {
    a == b || lex_lt(a, b)
}

proof fn lemma_lt_from_trans(a: Seq<char>, b: Seq<char>, c: Seq<char>, i: int)
    requires
        0 <= i,
        lex_lt_from(a, b, i),
        lex_lt_from(b, c, i),
    ensures
        lex_lt_from(a, c, i),
    decreases a.len() - i,
{
    if i < a.len() && i < b.len() && i < c.len() && a[i] == b[i] && b[i] == c[i] {
        lemma_lt_from_trans(a, b, c, i + 1);
    }
}

proof fn lemma_lt_from_irreflexive(a: Seq<char>, i: int)
    requires
        0 <= i,
    ensures
        !lex_lt_from(a, a, i),
    decreases a.len() - i,
{
    if i < a.len() {
        lemma_lt_from_irreflexive(a, i + 1);
    }
}

/// The order is transitive.
pub proof fn lemma_lex_lt_transitive(a: Seq<char>, b: Seq<char>, c: Seq<char>)
    requires
        lex_lt(a, b),
        lex_lt(b, c),
    ensures
        lex_lt(a, c),
{
    lemma_lt_from_trans(a, b, c, 0);
}

/// No string comes before itself.
pub proof fn lemma_lex_lt_irreflexive(a: Seq<char>)
    ensures
        !lex_lt(a, a),
{
    lemma_lt_from_irreflexive(a, 0);
}

/// `<=` is transitive.
pub proof fn lemma_lex_le_transitive(a: Seq<char>, b: Seq<char>, c: Seq<char>)
    requires
        lex_le(a, b),
        lex_le(b, c),
    ensures
        lex_le(a, c),
{
    if a != b && b != c {
        lemma_lex_lt_transitive(a, b, c);
    }
}

/// Compares two strings by code point.
pub fn compare_strs(a: &str, b: &str) -> (r: Order)
    ensures
        r == Order::Less <==> lex_lt(a@, b@),
        r == Order::Equal <==> a@ == b@,
        r == Order::Greater <==> lex_lt(b@, a@),
{
    let x = chars_of(a);
    let y = chars_of(b);
    let mut i: usize = 0;
    while i < x.len() && i < y.len()
        invariant
            x@ == a@,
            y@ == b@,
            i <= x.len(),
            i <= y.len(),
            forall|j: int| 0 <= j < i ==> x@[j] == y@[j],
            lex_lt(a@, b@) == lex_lt_from(a@, b@, i as int),
            lex_lt(b@, a@) == lex_lt_from(b@, a@, i as int),
        decreases x.len() - i,
    {
        let p: u32 = x[i] as u32;
        let q: u32 = y[i] as u32;
        if p < q {
            assert(x@[i as int] != y@[i as int]);
            return Order::Less;
        }
        if q < p {
            assert(x@[i as int] != y@[i as int]);
            return Order::Greater;
        }
        assert(x@[i as int] == y@[i as int]) by {
            vstd::utf8::char_u32_cast(x@[i as int], p);
            vstd::utf8::char_u32_cast(y@[i as int], q);
        }
        i += 1;
    }
    if i < y.len() {
        assert(a@.len() != b@.len());
        Order::Less
    } else if i < x.len() {
        assert(a@.len() != b@.len());
        Order::Greater
    } else {
        assert(a@ =~= b@);
        proof {
            lemma_lex_lt_irreflexive(a@);
        }
        Order::Equal
    }
}

/// Every string stands at or before each later one.
pub open spec fn sorted(s: Seq<Seq<char>>) -> bool {
    forall|i: int, j: int| 0 <= i < j < s.len() ==> lex_le(#[trigger] s[i], #[trigger] s[j])
}

/// Every string stands before each later one, so none occurs twice.
pub open spec fn strictly_sorted(s: Seq<Seq<char>>) -> bool {
    forall|i: int, j: int| 0 <= i < j < s.len() ==> lex_lt(#[trigger] s[i], #[trigger] s[j])
}

/// Whether `list` holds a string equal to `s`.
pub fn contains_str(list: &Vec<String>, s: &str) -> (found: bool)
    ensures
        found == str_views(list@).contains(s@),
{
    let mut i: usize = 0;
    while i < list.len()
        invariant
            i <= list.len(),
            forall|j: int| 0 <= j < i ==> str_views(list@)[j] != s@,
        decreases list.len() - i,
    {
        if compare_strs(list[i].as_str(), s) == Order::Equal {
            assert(str_views(list@)[i as int] == s@);
            return true;
        }
        i += 1;
    }
    false
}

/// `items` without the strings that `excluded` holds, in order.
pub open spec fn excluding(items: Seq<Seq<char>>, excluded: Seq<Seq<char>>) -> Seq<Seq<char>> {
    items.filter(|e: Seq<char>| !excluded.contains(e))
}

/// The strings of `items` that `excluded` does not hold, in order.
pub fn strings_excluding(items: &Vec<String>, excluded: &Vec<String>) -> (out: Vec<String>)
    ensures
        str_views(out@) == excluding(str_views(items@), str_views(excluded@)),
{
    let ghost keep = |e: Seq<char>| !str_views(excluded@).contains(e);
    let mut out: Vec<String> = Vec::new();
    let mut i: usize = 0;
    proof {
        assert(str_views(items@).take(0) =~= Seq::<Seq<char>>::empty());
        assert(str_views(out@) =~= str_views(items@).take(0).filter(keep));
    }
    while i < items.len()
        invariant
            i <= items.len(),
            keep == |e: Seq<char>| !str_views(excluded@).contains(e),
            str_views(out@) == str_views(items@).take(i as int).filter(keep),
        decreases items.len() - i,
    {
        let ghost before = str_views(out@);
        let ghost head = str_views(items@).take(i as int);
        proof {
            assert(str_views(items@).take(i as int + 1) =~= head.push(items@[i as int]@));
            head.lemma_filter_push(items@[i as int]@, keep);
        }
        if !contains_str(excluded, items[i].as_str()) {
            out.push(items[i].clone());
            assert(str_views(out@) =~= before.push(items@[i as int]@));
        }
        i += 1;
    }
    assert(str_views(items@).take(items.len() as int) =~= str_views(items@));
    out
}

/// A value that is known by a name.
pub trait Named: View + Sized {
    /// The name of a value, read from its model.
    spec fn name_of(model: Self::V) -> Seq<char>;

    /// The name.
    fn name(&self) -> (n: &str)
        ensures
            n@ == Self::name_of(self@),
    ;
}

impl Named for String {
    open spec fn name_of(model: Seq<char>) -> Seq<char> {
        model
    }

    fn name(&self) -> (n: &str) {
        self.as_str()
    }
}

/// The models of a sequence of values.
pub open spec fn models<T: View>(v: Seq<T>) -> Seq<T::V> {
    Seq::new(v.len(), |i: int| v[i]@)
}

/// The names of a sequence of models.
pub open spec fn names<T: Named>(m: Seq<T::V>) -> Seq<Seq<char>> {
    Seq::new(m.len(), |i: int| T::name_of(m[i]))
}

/// The models that have the given name, in order.
pub open spec fn of_name<T: Named>(m: Seq<T::V>, name: Seq<char>) -> Seq<T::V> {
    m.filter(|x: T::V| T::name_of(x) == name)
}

/// Sorts values into ascending order of their names. Every value stays, as
/// often as it occurred; values of one name keep their order.
pub fn sort_by_name<T: Named>(v: Vec<T>) -> (out: Vec<T>)
    ensures
        sorted(names::<T>(models(out@))),
        models(out@).to_multiset() == models(v@).to_multiset(),
        forall|name: Seq<char>| #[trigger]
            of_name::<T>(models(out@), name) == of_name::<T>(models(v@), name),
{
    let ghost input = models(v@);
    let n = v.len();
    let mut rest = reversed(v);
    let mut out: Vec<T> = Vec::new();
    let mut i: usize = 0;
    assert(input.take(0) =~= models(out@));
    while i < n
        invariant
            i <= n,
            n == input.len(),
            rest@.len() == n - i,
            forall|j: int| 0 <= j < rest@.len() ==> (#[trigger] rest@[j])@ == input[n - 1 - j],
            sorted(names::<T>(models(out@))),
            models(out@).to_multiset() == input.take(i as int).to_multiset(),
            forall|name: Seq<char>| #[trigger]
                of_name::<T>(models(out@), name) == of_name::<T>(input.take(i as int), name),
        decreases n - i,
    {
        match rest.pop() {
            Some(x) => {
                assert(x@ == input[i as int]);
                let mut pos: usize = 0;
                while pos < out.len() && compare_strs(out[pos].name(), x.name()) != Order::Greater
                    invariant
                        pos <= out.len(),
                        forall|j: int|
                            0 <= j < pos ==> lex_le(
                                #[trigger] names::<T>(models(out@))[j],
                                T::name_of(x@),
                            ),
                    decreases out.len() - pos,
                {
                    pos += 1;
                }
                let ghost before = models(out@);
                let ghost keys = names::<T>(before);
                let ghost model = x@;
                let ghost key = T::name_of(model);
                proof {
                    assert forall|k: int| pos <= k < keys.len() implies lex_lt(
                        key,
                        #[trigger] keys[k],
                    ) by {
                        if k > pos {
                            assert(lex_le(keys[pos as int], keys[k]));
                            if keys[pos as int] != keys[k] {
                                lemma_lex_lt_transitive(key, keys[pos as int], keys[k]);
                            }
                        }
                    }
                    assert forall|name: Seq<char>| #[trigger]
                        of_name::<T>(before.insert(pos as int, model), name) == of_name::<T>(
                            input.take(i as int + 1),
                            name,
                        ) by {
                        let wanted = |m: T::V| T::name_of(m) == name;
                        if wanted(model) {
                            assert forall|j: int| pos <= j < before.len() implies !wanted(
                                #[trigger] before[j],
                            ) by {
                                assert(lex_lt(key, keys[j]));
                                lemma_lex_lt_irreflexive(key);
                            }
                        }
                        lemma_filter_insert(before, pos as int, model, wanted);
                        assert(input.take(i as int + 1) =~= input.take(i as int).push(model));
                        input.take(i as int).lemma_filter_push(model, wanted);
                        assert(of_name::<T>(before, name) == of_name::<T>(
                            input.take(i as int),
                            name,
                        ));
                    }
                }
                out.insert(pos, x);
                proof {
                    let after = models(out@);
                    let after_keys = names::<T>(after);
                    assert(after =~= before.insert(pos as int, model));
                    vstd::seq_lib::to_multiset_insert(before, pos as int, model);
                    assert(input.take(i as int + 1) =~= input.take(i as int).push(model));
                    vstd::seq_lib::to_multiset_build(input.take(i as int), model);
                    assert forall|p: int, q: int| 0 <= p < q < after_keys.len() implies lex_le(
                        #[trigger] after_keys[p],
                        #[trigger] after_keys[q],
                    ) by {
                        let bp = if p < pos { p } else { p - 1 };
                        let bq = if q < pos { q } else { q - 1 };
                        if p != pos && q != pos {
                            assert(after[p] == before[bp]);
                            assert(after[q] == before[bq]);
                            assert(lex_le(keys[bp], keys[bq]));
                        } else if p == pos {
                            assert(after[q] == before[bq]);
                            assert(lex_le(key, keys[bq]));
                        } else {
                            assert(after[p] == before[bp]);
                            assert(lex_le(keys[bp], key));
                        }
                    }
                }
            },
            None => {},
        }
        i += 1;
    }
    assert(input.take(n as int) =~= input);
    out
}

/// Sorts strings into ascending order; equal strings keep their number.
pub fn sort_strings(v: Vec<String>) -> (out: Vec<String>)
    ensures
        sorted(str_views(out@)),
        str_views(out@).to_multiset() == str_views(v@).to_multiset(),
{
    let ghost input = str_views(v@);
    assert(input =~= models(v@));
    let out = sort_by_name(v);
    proof {
        assert(str_views(out@) =~= models(out@));
        assert(str_views(out@) =~= names::<String>(models(out@)));
    }
    out
}

/// `s` without the strings that repeat the one just before them.
pub open spec fn without_repeats(s: Seq<Seq<char>>) -> Seq<Seq<char>>
    decreases s.len(),
{
    if s.len() <= 1 {
        s
    } else if s[s.len() - 2] == s.last() {
        without_repeats(s.drop_last())
    } else {
        without_repeats(s.drop_last()).push(s.last())
    }
}

/// Removing repeats keeps the last string, and keeps exactly the strings of `s`.
pub proof fn lemma_without_repeats_keeps(s: Seq<Seq<char>>)
    ensures
        s.len() > 0 ==> without_repeats(s).len() > 0 && without_repeats(s).last() == s.last(),
        without_repeats(s).len() <= s.len(),
        forall|x: Seq<char>| without_repeats(s).contains(x) <==> s.contains(x),
    decreases s.len(),
{
    if s.len() > 1 {
        let front = s.drop_last();
        lemma_without_repeats_keeps(front);
        let w = without_repeats(front);
        assert forall|x: Seq<char>| without_repeats(s).contains(x) <==> s.contains(x) by {
            if s.contains(x) {
                let k = choose|k: int| 0 <= k < s.len() && s[k] == x;
                if k < front.len() {
                    assert(front[k] == x);
                    assert(front.contains(x));
                    let m = choose|m: int| 0 <= m < w.len() && w[m] == x;
                    assert(without_repeats(s)[m] == x);
                } else if s[s.len() - 2] == s.last() {
                    assert(front[front.len() - 1] == x);
                    assert(front.contains(x));
                    let m = choose|m: int| 0 <= m < w.len() && w[m] == x;
                    assert(without_repeats(s)[m] == x);
                } else {
                    assert(without_repeats(s)[w.len() as int] == x);
                }
            }
            if without_repeats(s).contains(x) {
                let m = choose|m: int| 0 <= m < without_repeats(s).len() && without_repeats(s)[m] == x;
                if m < w.len() {
                    assert(w[m] == x);
                    assert(front.contains(x));
                    let k = choose|k: int| 0 <= k < front.len() && front[k] == x;
                    assert(s[k] == x);
                } else {
                    assert(s[s.len() - 1] == x);
                }
            }
        }
    }
}

/// Sorted strings without repeats are strictly sorted.
pub proof fn lemma_without_repeats_strict(s: Seq<Seq<char>>)
    requires
        sorted(s),
    ensures
        strictly_sorted(without_repeats(s)),
    decreases s.len(),
{
    if s.len() > 1 {
        let front = s.drop_last();
        assert(sorted(front)) by {
            assert forall|i: int, j: int| 0 <= i < j < front.len() implies lex_le(
                #[trigger] front[i],
                #[trigger] front[j],
            ) by {
                assert(lex_le(s[i], s[j]));
            }
        }
        lemma_without_repeats_strict(front);
        lemma_without_repeats_keeps(front);
        let w = without_repeats(front);
        if s[s.len() - 2] != s.last() {
            let r = without_repeats(s);
            assert(lex_le(s[s.len() - 2], s[s.len() - 1]));
            assert forall|i: int, j: int| 0 <= i < j < r.len() implies lex_lt(
                #[trigger] r[i],
                #[trigger] r[j],
            ) by {
                if j < w.len() {
                    assert(lex_lt(w[i], w[j]));
                } else if i < w.len() - 1 {
                    assert(lex_lt(w[i], w[w.len() - 1]));
                    lemma_lex_lt_transitive(w[i], w.last(), s.last());
                }
            }
        }
    }
}

/// Drops each string that repeats the one just before it.
pub fn dedup_strings(v: Vec<String>) -> (out: Vec<String>)
    ensures
        str_views(out@) == without_repeats(str_views(v@)),
{
    let mut out: Vec<String> = Vec::new();
    let mut i: usize = 0;
    assert(str_views(v@).take(0) =~= str_views(out@));
    while i < v.len()
        invariant
            i <= v.len(),
            str_views(out@) == without_repeats(str_views(v@).take(i as int)),
        decreases v.len() - i,
    {
        let ghost head = str_views(v@).take(i as int);
        let ghost next = str_views(v@).take(i as int + 1);
        proof {
            assert(next.drop_last() =~= head);
            assert(next.last() == v@[i as int]@);
        }
        let repeated = i > 0 && compare_strs(v[i - 1].as_str(), v[i].as_str()) == Order::Equal;
        if !repeated {
            let ghost before = str_views(out@);
            out.push(v[i].clone());
            proof {
                assert(str_views(out@) =~= before.push(v@[i as int]@));
                if i > 0 {
                    assert(next[next.len() - 2] == v@[i as int - 1]@);
                } else {
                    assert(next =~= seq![v@[0]@]);
                    assert(head =~= Seq::<Seq<char>>::empty());
                }
            }
        } else {
            proof {
                assert(next[next.len() - 2] == v@[i as int - 1]@);
            }
        }
        i += 1;
    }
    assert(str_views(v@).take(v.len() as int) =~= str_views(v@));
    out
}

/// The strings of `v`, each once, in ascending order.
pub fn sorted_unique(v: Vec<String>) -> (out: Vec<String>)
    ensures
        strictly_sorted(str_views(out@)),
        forall|x: Seq<char>| str_views(out@).contains(x) <==> str_views(v@).contains(x),
{
    let ghost input = str_views(v@);
    let s = sort_strings(v);
    let ghost mid = str_views(s@);
    let out = dedup_strings(s);
    proof {
        lemma_without_repeats_strict(mid);
        lemma_without_repeats_keeps(mid);
        assert forall|x: Seq<char>| mid.contains(x) <==> input.contains(x) by {
            vstd::seq_lib::to_multiset_contains(mid, x);
            vstd::seq_lib::to_multiset_contains(input, x);
        }
    }
    out
}

/// The line feed.
pub const NEWLINE: u8 = 10;

/// `b` cut at every line feed, empty pieces included.
pub open spec fn split_at_newlines(b: Seq<u8>) -> Seq<Seq<u8>> {
    split_at(b, NEWLINE)
}

/// The non-empty lines of `b`, in order, without their line feeds.
pub open spec fn nonempty_lines(b: Seq<u8>) -> Seq<Seq<u8>> {
    split_at_newlines(b).filter(|piece: Seq<u8>| piece.len() > 0)
}

/// What `String::from_utf8_lossy` makes of a byte string.
pub uninterp spec fn utf8_lossy(bytes: Seq<u8>) -> Seq<char>;

/// Calls `String::from_utf8_lossy` and owns the result. Trusted: the result is
/// a function of the bytes alone, and for well-formed UTF-8 it is the decoded
/// text. What replaces malformed bytes is left to the standard library.
#[verifier::external_body]
pub(crate) fn string_from_utf8_lossy(bytes: &[u8]) -> (s: String)
    ensures
        s@ == utf8_lossy(bytes@),
        vstd::utf8::valid_utf8(bytes@) ==> s@ == vstd::utf8::decode_utf8(bytes@),
{
    String::from_utf8_lossy(bytes).into_owned()
}

/// The non-empty lines of `b`, each decoded to text.
pub open spec fn decoded_lines(b: Seq<u8>) -> Seq<Seq<char>> {
    nonempty_lines(b).map_values(|l: Seq<u8>| utf8_lossy(l))
}

/// The views of a sequence of byte strings.
pub open spec fn byte_views(v: Seq<Vec<u8>>) -> Seq<Seq<u8>> {
    Seq::new(v.len(), |i: int| v[i]@)
}

/// The non-empty lines of a process's output, as bytes.
pub fn split_lines(bytes: &[u8]) -> (out: Vec<Vec<u8>>)
    ensures
        byte_views(out@) == nonempty_lines(bytes@),
{
    let ghost nonempty = |piece: Seq<u8>| piece.len() > 0;
    let mut out: Vec<Vec<u8>> = Vec::new();
    let mut current: Vec<u8> = Vec::new();
    let mut i: usize = 0;
    proof {
        assert(bytes@.take(0) =~= Seq::<u8>::empty());
        assert(split_at_newlines(bytes@.take(0)).drop_last() =~= Seq::<Seq<u8>>::empty());
        assert(byte_views(out@) =~= Seq::<Seq<u8>>::empty().filter(nonempty));
    }
    while i < bytes.len()
        invariant
            i <= bytes.len(),
            nonempty == |piece: Seq<u8>| piece.len() > 0,
            split_at_newlines(bytes@.take(i as int)).len() > 0,
            current@ == split_at_newlines(bytes@.take(i as int)).last(),
            byte_views(out@) == split_at_newlines(bytes@.take(i as int)).drop_last().filter(
                nonempty,
            ),
        decreases bytes.len() - i,
    {
        let ghost pieces = split_at_newlines(bytes@.take(i as int));
        let ghost next = bytes@.take(i as int + 1);
        proof {
            assert(next.drop_last() =~= bytes@.take(i as int));
            assert(next.last() == bytes@[i as int]);
            lemma_split_at_nonempty(next, NEWLINE);
        }
        let byte = bytes[i];
        if byte == NEWLINE {
            proof {
                assert(split_at_newlines(next).drop_last() =~= pieces);
                assert(pieces =~= pieces.drop_last().push(current@));
                pieces.drop_last().lemma_filter_push(current@, nonempty);
            }
            if current.len() > 0 {
                let ghost before = byte_views(out@);
                let ghost line = current@;
                out.push(current);
                assert(byte_views(out@) =~= before.push(line));
            }
            current = Vec::new();
        } else {
            current.push(byte);
            assert(split_at_newlines(next).drop_last() =~= pieces.drop_last());
        }
        i += 1;
    }
    proof {
        assert(bytes@.take(bytes.len() as int) =~= bytes@);
        let pieces = split_at_newlines(bytes@);
        assert(pieces =~= pieces.drop_last().push(current@));
        pieces.drop_last().lemma_filter_push(current@, nonempty);
    }
    if current.len() > 0 {
        let ghost before = byte_views(out@);
        let ghost line = current@;
        out.push(current);
        assert(byte_views(out@) =~= before.push(line));
    }
    out
}

/// The non-empty lines of a process's output, each decoded to text.
pub fn lossy_lines(bytes: &[u8]) -> (out: Vec<String>)
    ensures
        str_views(out@) == decoded_lines(bytes@),
{
    let lines = split_lines(bytes);
    let mut out: Vec<String> = Vec::new();
    let mut i: usize = 0;
    while i < lines.len()
        invariant
            i <= lines.len(),
            byte_views(lines@) == nonempty_lines(bytes@),
            str_views(out@) == decoded_lines(bytes@).take(i as int),
        decreases lines.len() - i,
    {
        let ghost before = str_views(out@);
        out.push(string_from_utf8_lossy(lines[i].as_slice()));
        proof {
            assert(byte_views(lines@)[i as int] == lines@[i as int]@);
            assert(str_views(out@) =~= before.push(utf8_lossy(lines@[i as int]@)));
            assert(str_views(out@) =~= decoded_lines(bytes@).take(i as int + 1));
        }
        i += 1;
    }
    assert(decoded_lines(bytes@).take(lines.len() as int) =~= decoded_lines(bytes@));
    out
}

/// Whether `c` has the Unicode property `White_Space`.
pub open spec fn is_space(c: char) -> bool {
    let v = c as u32;
    ||| 0x09 <= v <= 0x0D
    ||| v == 0x20
    ||| v == 0x85
    ||| v == 0xA0
    ||| v == 0x1680
    ||| 0x2000 <= v <= 0x200A
    ||| v == 0x2028
    ||| v == 0x2029
    ||| v == 0x202F
    ||| v == 0x205F
    ||| v == 0x3000
}

/// `s` without its leading white space.
pub open spec fn trim_start(s: Seq<char>) -> Seq<char>
    decreases s.len(),
{
    if s.len() > 0 && is_space(s[0]) {
        trim_start(s.drop_first())
    } else {
        s
    }
}

/// `s` without its trailing white space.
pub open spec fn trim_end(s: Seq<char>) -> Seq<char>
    decreases s.len(),
{
    if s.len() > 0 && is_space(s.last()) {
        trim_end(s.drop_last())
    } else {
        s
    }
}

/// `s` without white space at either end.
pub open spec fn trimmed(s: Seq<char>) -> Seq<char> {
    trim_end(trim_start(s))
}

fn char_is_space(c: char) -> (r: bool)
    ensures
        r == is_space(c),
{
    let v: u32 = c as u32;
    (0x09 <= v && v <= 0x0D) || v == 0x20 || v == 0x85 || v == 0xA0 || v == 0x1680 || (0x2000 <= v
        && v <= 0x200A) || v == 0x2028 || v == 0x2029 || v == 0x202F || v == 0x205F || v == 0x3000
}

/// Removes white space from both ends, as `str::trim` does.
pub fn trim(s: &str) -> (out: String)
    ensures
        out@ == trimmed(s@),
{
    let chars = chars_of(s);
    let mut start: usize = 0;
    assert(s@.skip(0) =~= s@);
    while start < chars.len() && char_is_space(chars[start])
        invariant
            chars@ == s@,
            start <= chars.len(),
            trim_start(s@) == trim_start(s@.skip(start as int)),
        decreases chars.len() - start,
    {
        assert(s@.skip(start as int).drop_first() =~= s@.skip(start as int + 1));
        start += 1;
    }
    let mut end: usize = chars.len();
    assert(s@.subrange(start as int, end as int) =~= s@.skip(start as int));
    while end > start && char_is_space(chars[end - 1])
        invariant
            chars@ == s@,
            start <= end <= chars.len(),
            trimmed(s@) == trim_end(s@.subrange(start as int, end as int)),
        decreases end,
    {
        assert(s@.subrange(start as int, end as int).drop_last() =~= s@.subrange(
            start as int,
            end as int - 1,
        ));
        end -= 1;
    }
    String::from_str(s.substring_char(start, end))
}

/// `a` followed by `b`.
pub fn concat2(a: &str, b: &str) -> (out: String)
    ensures
        out@ == a@ + b@,
{
    let mut out = String::from_str(a);
    out.append(b);
    out
}

/// `a`, then `b`, then `c`.
pub fn concat3(a: &str, b: &str, c: &str) -> (out: String)
    ensures
        out@ == a@ + b@ + c@,
{
    let mut out = String::from_str(a);
    out.append(b);
    out.append(c);
    out
}

/// The decimal digit of a value below ten.
pub open spec fn decimal_digit(n: int) -> char {
    (n + 0x30) as u8 as char
}

/// The decimal numeral of `n`, without leading zeros.
pub open spec fn decimal_of(n: nat) -> Seq<char>
    decreases n,
{
    if n < 10 {
        seq![decimal_digit(n as int)]
    } else {
        decimal_of(n / 10) + seq![decimal_digit((n % 10) as int)]
    }
}

fn decimal_digit_str(d: u64) -> (s: &'static str)
    requires
        d < 10,
    ensures
        s@ == seq![decimal_digit(d as int)],
{
    proof {
        reveal_strlit("0123456789");
    }
    let digits: &'static str = "0123456789";
    let s = digits.substring_ascii(d as usize, d as usize + 1);
    assert(s@ =~= seq![decimal_digit(d as int)]);
    s
}

/// Writes `n` as a decimal numeral.
pub fn decimal(n: u64) -> (s: String)
    ensures
        s@ == decimal_of(n as nat),
    decreases n,
{
    if n < 10 {
        String::from_str(decimal_digit_str(n))
    } else {
        let mut s = decimal(n / 10);
        s.append(decimal_digit_str(n % 10));
        s
    }
}

} // verus!
