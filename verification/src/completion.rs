//! Completing a path typed at a file prompt: the directory part and the
//! prefix of the name, the entries of that directory that are offered, in
//! order, and the common start of several suggestions.
use vstd::prelude::*;
use vstd::string::*;
use crate::paths::{is_markdown, is_markdown_spec};
use crate::text::{concat, concat3, owned};

verus! {

// ---------------------------------------------------------------------------
// The directory and the prefix
// ---------------------------------------------------------------------------

/// The input split after its last `/`: the directory with that `/`, and the rest;
/// without a `/`, no directory and the whole input.
pub open spec fn split_path_spec(s: Seq<char>) -> (Seq<char>, Seq<char>)
    decreases s.len(),
{
    if s.len() == 0 {
        (Seq::empty(), Seq::empty())
    } else if s.last() == '/' {
        (s, Seq::empty())
    } else {
        let (dir, prefix) = split_path_spec(s.drop_last());
        (dir, prefix.push(s.last()))
    }
}

/// The split of `s` when its last `/` stands at `k`, or when it has none (`k == -1`).
proof fn lemma_split_at(s: Seq<char>, k: int)
    requires
        -1 <= k < s.len(),
        k >= 0 ==> s[k] == '/',
        forall|j: int| k < j < s.len() ==> s[j] != '/',
    ensures
        split_path_spec(s) == (s.take(k + 1), s.skip(k + 1)),
    decreases s.len(),
{
    if s.len() == 0 {
        assert(s.take(0) =~= Seq::<char>::empty());
        assert(s.skip(0) =~= Seq::<char>::empty());
    } else if k == s.len() - 1 {
        assert(s.take(k + 1) =~= s);
        assert(s.skip(k + 1) =~= Seq::<char>::empty());
    } else {
        let t = s.drop_last();
        lemma_split_at(t, k);
        assert(t.take(k + 1) =~= s.take(k + 1));
        assert(t.skip(k + 1).push(s.last()) =~= s.skip(k + 1));
    }
}

/// Splits the input after its last `/` into the directory and the prefix of a name.
pub fn split_path(input: &str) -> (r: (String, String))
    ensures
        (r.0@, r.1@) == split_path_spec(input@),
{
    let n = input.unicode_len();
    let mut k: usize = n;
    while k > 0 && input.get_char(k - 1) != '/'
        invariant
            k <= n,
            n == input@.len(),
            forall|j: int| k <= j < n ==> input@[j] != '/',
        decreases k,
    {
        k = k - 1;
    }
    proof {
        lemma_split_at(input@, k - 1);
    }
    let dir = String::from_str(input.substring_char(0, k));
    let prefix = String::from_str(input.substring_char(k, n));
    assert(input@.subrange(0, k as int) =~= input@.take(k as int));
    assert(input@.subrange(k as int, n as int) =~= input@.skip(k as int));
    (dir, prefix)
}

/// The directory and the prefix put back together give the input.
pub proof fn split_path_rejoins(s: Seq<char>)
    ensures
        split_path_spec(s).0 + split_path_spec(s).1 == s,
    decreases s.len(),
{
    if s.len() > 0 && s.last() != '/' {
        split_path_rejoins(s.drop_last());
        let (d, p) = split_path_spec(s.drop_last());
        assert(d + p.push(s.last()) =~= (d + p).push(s.last()));
        assert(s.drop_last().push(s.last()) =~= s);
    } else if s.len() > 0 {
        assert(s + Seq::<char>::empty() =~= s);
    } else {
        assert(Seq::<char>::empty() + Seq::<char>::empty() =~= s);
    }
}

// ---------------------------------------------------------------------------
// The common start of suggestions
// ---------------------------------------------------------------------------

/// The number of leading characters that `a` and `b` share.
pub open spec fn shared_len(a: Seq<char>, b: Seq<char>) -> nat
    decreases a.len(),
{
    if a.len() == 0 || b.len() == 0 || a[0] != b[0] {
        0
    } else {
        1 + shared_len(a.drop_first(), b.drop_first())
    }
}

/// The common start of the values: the first value cut to the characters it shares with
/// each following one in turn; none for no values.
pub open spec fn common_prefix_spec(values: Seq<Seq<char>>) -> Option<Seq<char>>
    decreases values.len(),
{
    if values.len() == 0 {
        None
    } else if values.len() == 1 {
        Some(values[0])
    } else {
        match common_prefix_spec(values.drop_last()) {
            Some(c) => Some(c.take(shared_len(c, values.last()) as int)),
            None => None,
        }
    }
}

proof fn lemma_shared_len_step(a: Seq<char>, b: Seq<char>, i: int)
    requires
        0 <= i < a.len(),
        i < b.len(),
        a[i] == b[i],
    ensures
        shared_len(a.skip(i), b.skip(i)) == 1 + shared_len(a.skip(i + 1), b.skip(i + 1)),
{
    assert(a.skip(i).drop_first() =~= a.skip(i + 1));
    assert(b.skip(i).drop_first() =~= b.skip(i + 1));
}

proof fn lemma_shared_len_bounds(a: Seq<char>, b: Seq<char>)
    ensures
        shared_len(a, b) <= a.len(),
        shared_len(a, b) <= b.len(),
        forall|j: int| 0 <= j < shared_len(a, b) ==> a[j] == b[j],
    decreases a.len(),
{
    if !(a.len() == 0 || b.len() == 0 || a[0] != b[0]) {
        lemma_shared_len_bounds(a.drop_first(), b.drop_first());
        assert forall|j: int| 0 <= j < shared_len(a, b) implies a[j] == b[j] by {
            if j > 0 {
                assert(a.drop_first()[j - 1] == a[j]);
                assert(b.drop_first()[j - 1] == b[j]);
            }
        }
    }
}

/// The number of leading characters that `a` and `b` share.
fn shared_prefix_len(a: &str, b: &str) -> (r: usize)
    ensures
        r == shared_len(a@, b@),
        r <= a@.len(),
{
    let n = a.unicode_len();
    let m = b.unicode_len();
    let mut i: usize = 0;
    assert(a@.skip(0) =~= a@);
    assert(b@.skip(0) =~= b@);
    while i < n && i < m && a.get_char(i) == b.get_char(i)
        invariant
            i <= n,
            i <= m,
            n == a@.len(),
            m == b@.len(),
            shared_len(a@, b@) == i + shared_len(a@.skip(i as int), b@.skip(i as int)),
        decreases n - i,
    {
        proof {
            lemma_shared_len_step(a@, b@, i as int);
        }
        i = i + 1;
    }
    proof {
        if !(i < n && i < m) {
            assert(a@.skip(i as int).len() == 0 || b@.skip(i as int).len() == 0);
        } else {
            assert(a@.skip(i as int)[0] != b@.skip(i as int)[0]);
        }
    }
    i
}

/// The common start of the values; none for no values.
pub fn common_prefix(values: Vec<String>) -> (r: Option<String>)
    ensures
        match r {
            Some(c) => common_prefix_spec(values@.map_values(|v: String| v@)) == Some(c@),
            None => common_prefix_spec(values@.map_values(|v: String| v@)) is None,
        },
{
    let ghost views = values@.map_values(|v: String| v@);
    if values.len() == 0 {
        return None;
    }
    let mut common = values[0].clone();
    let mut i: usize = 1;
    assert(views.take(1).len() == 1);
    while i < values.len()
        invariant
            1 <= i <= values.len(),
            views == values@.map_values(|v: String| v@),
            common_prefix_spec(views.take(i as int)) == Some(common@),
        decreases values.len() - i,
    {
        let shared = shared_prefix_len(common.as_str(), values[i].as_str());
        let cut = String::from_str(common.as_str().substring_char(0, shared));
        proof {
            assert(views.take(i + 1).drop_last() =~= views.take(i as int));
            assert(views.take(i + 1).last() == values@[i as int]@);
            assert(common@.subrange(0, shared as int) =~= common@.take(shared as int));
        }
        common = cut;
        i = i + 1;
    }
    assert(views.take(values.len() as int) =~= views);
    Some(common)
}

proof fn lemma_common_prefix_some(values: Seq<Seq<char>>)
    requires
        values.len() > 0,
    ensures
        common_prefix_spec(values) is Some,
    decreases values.len(),
{
    if values.len() > 1 {
        lemma_common_prefix_some(values.drop_last());
    }
}

/// The common start of the values is a prefix of each of them.
pub proof fn common_prefix_starts_each(values: Seq<Seq<char>>)
    ensures
        common_prefix_spec(values) matches Some(c) ==> forall|i: int| 0 <= i < values.len() ==> (#[trigger] values[i]).len() >= c.len()
            && values[i].take(c.len() as int) == c,
    decreases values.len(),
{
    if values.len() == 1 {
        assert(values[0].take(values[0].len() as int) =~= values[0]);
    } else if values.len() > 1 {
        let prev = values.drop_last();
        common_prefix_starts_each(prev);
        lemma_common_prefix_some(prev);
        let c = common_prefix_spec(prev)->Some_0;
        let last = values.last();
        lemma_shared_len_bounds(c, last);
        let k = shared_len(c, last) as int;
        let d = c.take(k);
        assert forall|i: int| 0 <= i < values.len() implies (#[trigger] values[i]).len() >= d.len()
            && values[i].take(d.len() as int) == d by {
            if i < values.len() - 1 {
                assert(prev[i] == values[i]);
                assert(prev[i].len() >= c.len() && prev[i].take(c.len() as int) == c);
                assert forall|j: int| 0 <= j < k implies values[i].take(k)[j] == d[j] by {
                    assert(c[j] == prev[i].take(c.len() as int)[j]);
                }
                assert(values[i].take(k) =~= d);
            } else {
                assert(values[i].take(k) =~= d);
            }
        }
    }
}

// ---------------------------------------------------------------------------
// The entries offered
// ---------------------------------------------------------------------------

/// An entry of a directory: its name, and whether it is a directory itself.
pub struct DirEntry {
    pub name: String,
    pub is_dir: bool,
}

/// The suggestion for one entry of the directory `dir` when the name typed so far is
/// `prefix`: a directory with a `/` after it, a Markdown file as it is, nothing otherwise.
pub open spec fn suggestion_of(dir: Seq<char>, prefix: Seq<char>, e: DirEntry) -> Option<Seq<char>> {
    if !prefix.is_prefix_of(e.name@) {
        None
    } else if e.is_dir {
        Some(dir + e.name@ + "/"@)
    } else if is_markdown_spec(dir + e.name@) {
        Some(dir + e.name@)
    } else {
        None
    }
}

/// The suggestions for the entries, in the order of the entries.
pub open spec fn suggestions_of(dir: Seq<char>, prefix: Seq<char>, entries: Seq<DirEntry>) -> Seq<Seq<char>>
    decreases entries.len(),
{
    if entries.len() == 0 {
        Seq::empty()
    } else {
        let rest = suggestions_of(dir, prefix, entries.drop_last());
        match suggestion_of(dir, prefix, entries.last()) {
            Some(s) => rest.push(s),
            None => rest,
        }
    }
}

/// Whether `a` comes before `b` or equals it, comparing characters by their code.
pub open spec fn text_le(a: Seq<char>, b: Seq<char>) -> bool
    decreases a.len(),
{
    if a.len() == 0 {
        true
    } else if b.len() == 0 {
        false
    } else if a[0] != b[0] {
        a[0] < b[0]
    } else {
        text_le(a.drop_first(), b.drop_first())
    }
}

/// The index at which `x` goes among `s`: after every value that does not come after it.
pub open spec fn text_insertion_point(s: Seq<Seq<char>>, x: Seq<char>) -> int
    decreases s.len(),
{
    if s.len() == 0 {
        0
    } else if !text_le(s[0], x) {
        0
    } else {
        1 + text_insertion_point(s.drop_first(), x)
    }
}

/// The values in order.
pub open spec fn sorted_texts(s: Seq<Seq<char>>) -> Seq<Seq<char>>
    decreases s.len(),
{
    if s.len() == 0 {
        Seq::empty()
    } else {
        let prev = sorted_texts(s.drop_last());
        prev.insert(text_insertion_point(prev, s.last()), s.last())
    }
}

/// Whether `a` comes before `b` or equals it.
fn str_le(a: &str, b: &str) -> (r: bool)
    ensures
        r == text_le(a@, b@),
{
    let n = a.unicode_len();
    let m = b.unicode_len();
    let mut i: usize = 0;
    assert(a@.skip(0) =~= a@);
    assert(b@.skip(0) =~= b@);
    while i < n
        invariant
            i <= n,
            n == a@.len(),
            m == b@.len(),
            i <= m,
            text_le(a@, b@) == text_le(a@.skip(i as int), b@.skip(i as int)),
        decreases n - i,
    {
        assert(a@.skip(i as int)[0] == a@[i as int]);
        if i == m {
            return false;
        }
        assert(b@.skip(i as int)[0] == b@[i as int]);
        let x = a.get_char(i);
        let y = b.get_char(i);
        if x != y {
            return x < y;
        }
        assert(a@.skip(i as int).drop_first() =~= a@.skip(i + 1));
        assert(b@.skip(i as int).drop_first() =~= b@.skip(i + 1));
        i = i + 1;
    }
    true
}

proof fn lemma_text_insertion_point(s: Seq<Seq<char>>, x: Seq<char>, k: int)
    requires
        0 <= k <= s.len(),
        forall|j: int| 0 <= j < k ==> text_le(#[trigger] s[j], x),
        k == s.len() || !text_le(s[k], x),
    ensures
        text_insertion_point(s, x) == k,
    decreases s.len(),
{
    if s.len() > 0 && k > 0 {
        assert forall|j: int| 0 <= j < k - 1 implies text_le(#[trigger] s.drop_first()[j], x) by {
            assert(s.drop_first()[j] == s[j + 1]);
        }
        lemma_text_insertion_point(s.drop_first(), x, k - 1);
    }
}

proof fn lemma_text_le_total(a: Seq<char>, b: Seq<char>)
    ensures
        text_le(a, b) || text_le(b, a),
    decreases a.len(),
{
    if a.len() > 0 && b.len() > 0 {
        if a[0] == b[0] {
            lemma_text_le_total(a.drop_first(), b.drop_first());
        }
    }
}

proof fn lemma_text_le_transitive(a: Seq<char>, b: Seq<char>, c: Seq<char>)
    requires
        text_le(a, b),
        text_le(b, c),
    ensures
        text_le(a, c),
    decreases a.len(),
{
    if a.len() > 0 && b.len() > 0 && c.len() > 0 && a[0] == b[0] && b[0] == c[0] {
        lemma_text_le_transitive(a.drop_first(), b.drop_first(), c.drop_first());
    }
}

proof fn lemma_text_insertion_point_props(s: Seq<Seq<char>>, x: Seq<char>)
    ensures
        0 <= text_insertion_point(s, x) <= s.len(),
        forall|j: int| 0 <= j < text_insertion_point(s, x) ==> text_le(#[trigger] s[j], x),
        text_insertion_point(s, x) < s.len() ==> !text_le(s[text_insertion_point(s, x)], x),
    decreases s.len(),
{
    if s.len() > 0 && text_le(s[0], x) {
        lemma_text_insertion_point_props(s.drop_first(), x);
        assert forall|j: int| 0 <= j < text_insertion_point(s, x) implies text_le(#[trigger] s[j], x) by {
            if j > 0 {
                assert(s[j] == s.drop_first()[j - 1]);
            }
        }
        let k = text_insertion_point(s.drop_first(), x);
        if k < s.drop_first().len() {
            assert(s[k + 1] == s.drop_first()[k]);
        }
    }
}

/// Putting values in order gives them each one not after the next, and gives back each
/// value as many times as it was given.
pub proof fn sorted_texts_are_ordered(s: Seq<Seq<char>>)
    ensures
        forall|i: int, j: int| 0 <= i < j < sorted_texts(s).len() ==> text_le(#[trigger] sorted_texts(s)[i], #[trigger] sorted_texts(s)[j]),
        sorted_texts(s).to_multiset() == s.to_multiset(),
    decreases s.len(),
{
    if s.len() > 0 {
        let rest = s.drop_last();
        let x = s.last();
        sorted_texts_are_ordered(rest);
        let prev = sorted_texts(rest);
        let k = text_insertion_point(prev, x);
        lemma_text_insertion_point_props(prev, x);
        let r = prev.insert(k, x);
        prev.insert_ensures(k, x);
        assert(sorted_texts(s) == r);
        if k < prev.len() {
            lemma_text_le_total(prev[k], x);
        }
        assert forall|i: int, j: int| 0 <= i < j < r.len() implies text_le(#[trigger] r[i], #[trigger] r[j]) by {
            if j < k {
                assert(r[i] == prev[i] && r[j] == prev[j]);
            } else if j == k {
                assert(r[i] == prev[i]);
            } else if i < k {
                assert(r[i] == prev[i] && r[j] == prev[j - 1]);
            } else if i == k {
                assert(r[j] == prev[j - 1]);
                if j - 1 > k {
                    lemma_text_le_transitive(x, prev[k], prev[j - 1]);
                }
            } else {
                assert(r[i] == prev[i - 1] && r[j] == prev[j - 1]);
            }
        }
        vstd::seq_lib::to_multiset_insert(prev, k, x);
        vstd::seq_lib::to_multiset_build(rest, x);
        assert(rest.push(x) =~= s);
        assert(r.to_multiset() == rest.push(x).to_multiset());
    } else {
        assert(s =~= Seq::<Seq<char>>::empty());
        assert(sorted_texts(s) =~= Seq::<Seq<char>>::empty());
    }
}

/// The values in order.
pub fn sort_texts(values: Vec<String>) -> (r: Vec<String>)
    ensures
        r@.map_values(|v: String| v@) == sorted_texts(values@.map_values(|v: String| v@)),
{
    let ghost orig = values@.map_values(|v: String| v@);
    assert(orig.len() == values.len());
    let mut rest = values;
    let mut out: Vec<String> = Vec::new();
    let mut i: usize = 0;
    assert(out@.map_values(|v: String| v@) =~= sorted_texts(orig.take(0)));
    while rest.len() > 0
        invariant
            i <= orig.len() <= usize::MAX,
            rest@.map_values(|v: String| v@) == orig.skip(i as int),
            out@.map_values(|v: String| v@) == sorted_texts(orig.take(i as int)),
        decreases rest.len(),
    {
        let ghost before_rest = rest@;
        assert(before_rest.map_values(|v: String| v@) == orig.skip(i as int));
        assert(before_rest.len() > 0);
        assert(i < orig.len());
        assert(before_rest.map_values(|v: String| v@)[0] == before_rest[0]@);
        let v = rest.remove(0);
        assert(v@ == orig[i as int]);
        let ghost views = out@.map_values(|v: String| v@);
        let mut k: usize = 0;
        while k < out.len() && str_le(out[k].as_str(), v.as_str())
            invariant
                k <= out@.len(),
                views == out@.map_values(|v: String| v@),
                forall|j: int| 0 <= j < k ==> text_le(#[trigger] views[j], v@),
            decreases out@.len() - k,
        {
            k = k + 1;
        }
        proof {
            lemma_text_insertion_point(views, v@, k as int);
            assert(orig.take(i + 1).drop_last() =~= orig.take(i as int));
            assert(orig.take(i + 1).last() == v@);
        }
        out.insert(k, v);
        assert(out@.map_values(|v: String| v@) =~= views.insert(k as int, v@));
        i = i + 1;
        assert(rest@ =~= before_rest.drop_first());
        assert(orig.skip(i - 1).drop_first() =~= orig.skip(i as int));
        assert(before_rest.drop_first().map_values(|v: String| v@) =~= before_rest.map_values(|v: String| v@).drop_first());
        assert(rest@.map_values(|v: String| v@) =~= orig.skip(i as int));
    }
    assert(i == orig.len());
    assert(orig.take(i as int) =~= orig);
    out
}

/// The suggestions for the input: the entries of its directory whose names start with the
/// rest of the input, directories with a `/` after them and Markdown files, in order.
pub open spec fn suggestions_spec(input: Seq<char>, entries: Seq<DirEntry>) -> Seq<Seq<char>> {
    let (dir, prefix) = split_path_spec(input);
    sorted_texts(suggestions_of(dir, prefix, entries))
}

/// Whether `s` is offered under the directory `dir`: it starts with `dir` and names a
/// directory (it ends with `/`) or a Markdown file.
pub open spec fn offered_under(dir: Seq<char>, s: Seq<char>) -> bool {
    &&& dir.is_prefix_of(s)
    &&& (s.len() > 0 && s.last() == '/') || is_markdown_spec(s)
}

proof fn lemma_suggestions_of_offered(dir: Seq<char>, prefix: Seq<char>, entries: Seq<DirEntry>)
    ensures
        forall|i: int| 0 <= i < suggestions_of(dir, prefix, entries).len()
            ==> offered_under(dir, #[trigger] suggestions_of(dir, prefix, entries)[i]),
    decreases entries.len(),
{
    if entries.len() > 0 {
        let rest = suggestions_of(dir, prefix, entries.drop_last());
        lemma_suggestions_of_offered(dir, prefix, entries.drop_last());
        let e = entries.last();
        match suggestion_of(dir, prefix, e) {
            Some(x) => {
                assert(dir.is_prefix_of(x)) by {
                    assert(x.take(dir.len() as int) =~= dir);
                }
                if e.is_dir {
                    reveal_strlit("/");
                    assert(x.last() == '/');
                }
                assert(offered_under(dir, x));
                assert(suggestions_of(dir, prefix, entries) == rest.push(x));
                assert forall|i: int| 0 <= i < rest.push(x).len() implies offered_under(dir, #[trigger] rest.push(x)[i]) by {
                    if i < rest.len() {
                        assert(rest.push(x)[i] == rest[i]);
                    }
                }
            },
            None => {},
        }
    }
}

/// The suggestions for an input come in order, each under the directory part of the
/// input and naming a directory or a Markdown file.
pub proof fn suggestions_are_offered_in_order(input: Seq<char>, entries: Seq<DirEntry>)
    ensures
        forall|i: int| 0 <= i < suggestions_spec(input, entries).len()
            ==> offered_under(split_path_spec(input).0, #[trigger] suggestions_spec(input, entries)[i]),
        forall|i: int, j: int| 0 <= i < j < suggestions_spec(input, entries).len()
            ==> text_le(#[trigger] suggestions_spec(input, entries)[i], #[trigger] suggestions_spec(input, entries)[j]),
{
    let (dir, prefix) = split_path_spec(input);
    let base = suggestions_of(dir, prefix, entries);
    let r = sorted_texts(base);
    sorted_texts_are_ordered(base);
    lemma_suggestions_of_offered(dir, prefix, entries);
    assert forall|i: int| 0 <= i < r.len() implies offered_under(dir, #[trigger] r[i]) by {
        vstd::seq_lib::to_multiset_contains(r, r[i]);
        vstd::seq_lib::to_multiset_contains(base, r[i]);
        assert(r.contains(r[i]));
        let k = choose|k: int| 0 <= k < base.len() && base[k] == r[i];
        assert(offered_under(dir, base[k]));
    }
}

/// Whether `prefix` starts `s`.
fn starts_with(s: &str, prefix: &str) -> (r: bool)
    ensures
        r == prefix@.is_prefix_of(s@),
{
    let n = prefix.unicode_len();
    if n > s.unicode_len() {
        return false;
    }
    let mut i: usize = 0;
    while i < n
        invariant
            i <= n,
            n == prefix@.len(),
            n <= s@.len(),
            forall|j: int| 0 <= j < i ==> prefix@[j] == s@[j],
        decreases n - i,
    {
        if prefix.get_char(i) != s.get_char(i) {
            return false;
        }
        i = i + 1;
    }
    true
}

/// The suggestions for the input, given the entries of its directory (the directory the
/// input names, or the current one when it names none).
pub fn suggestions(input: &str, entries: Vec<DirEntry>) -> (r: Vec<String>)
    ensures
        r@.map_values(|v: String| v@) == suggestions_spec(input@, entries@),
{
    let (dir, prefix) = split_path(input);
    let ghost orig = entries@;
    let mut found: Vec<String> = Vec::new();
    let mut i: usize = 0;
    assert(found@.map_values(|v: String| v@) =~= suggestions_of(dir@, prefix@, orig.take(0)));
    while i < entries.len()
        invariant
            i <= entries.len(),
            orig == entries@,
            found@.map_values(|v: String| v@) == suggestions_of(dir@, prefix@, orig.take(i as int)),
        decreases entries.len() - i,
    {
        let e = &entries[i];
        let ghost before = found@;
        proof {
            assert(orig.take(i + 1).drop_last() =~= orig.take(i as int));
            assert(orig.take(i + 1).last() == *e);
        }
        if starts_with(e.name.as_str(), prefix.as_str()) {
            if e.is_dir {
                let s = concat3(dir.as_str(), e.name.as_str(), "/");
                found.push(s);
                assert(found@.map_values(|v: String| v@) =~= before.map_values(|v: String| v@).push(s@));
            } else {
                let path = concat(dir.as_str(), e.name.as_str());
                if is_markdown(path.as_str()) {
                    found.push(path);
                    assert(found@.map_values(|v: String| v@) =~= before.map_values(|v: String| v@).push(path@));
                }
            }
        }
        i = i + 1;
    }
    assert(orig.take(entries.len() as int) =~= orig);
    sort_texts(found)
}

/// What completing gives: the highlighted suggestion when there is one, otherwise the
/// common start of the suggestions, if any.
pub fn completion(highlighted: Option<String>, suggestions: Vec<String>) -> (r: Option<String>)
    ensures
        match highlighted {
            Some(h) => r == Some(h),
            None => match r {
                Some(c) => common_prefix_spec(suggestions@.map_values(|v: String| v@)) == Some(c@),
                None => common_prefix_spec(suggestions@.map_values(|v: String| v@)) is None,
            },
        },
{
    match highlighted {
        Some(h) => Some(h),
        None => common_prefix(suggestions),
    }
}

} // verus!
