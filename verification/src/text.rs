//! Text helpers shared by the renderers: equality of strings, the
//! word-joining that token streams use when they are printed, and the
//! first-error folds that the attribute readers are specified with.
use vstd::prelude::*;
use vstd::string::*;

verus! {

/// Folds `f` over `s` from the front, stopping at the first error.
pub open spec fn try_fold<A, S, E>(s: Seq<A>, st: S, f: spec_fn(S, A) -> Result<S, E>) -> Result<S, E>
    decreases s.len(),
{
    if s.len() == 0 {
        Ok(st)
    } else {
        match f(st, s[0]) {
            Err(e) => Err(e),
            Ok(next) => try_fold(s.drop_first(), next, f),
        }
    }
}

/// One step of `try_fold` taken at position `i` of `s`.
pub proof fn lemma_try_fold_step<A, S, E>(s: Seq<A>, i: int, st: S, f: spec_fn(S, A) -> Result<S, E>)
    requires
        0 <= i < s.len(),
    ensures
        try_fold(s.skip(i), st, f) == match f(st, s[i]) {
            Err(e) => Err(e),
            Ok(next) => try_fold(s.skip(i + 1), next, f),
        },
{
    assert(s.skip(i).drop_first() =~= s.skip(i + 1));
    assert(s.skip(i)[0] == s[i]);
}

/// `try_fold` over the empty tail.
pub proof fn lemma_try_fold_end<A, S, E>(s: Seq<A>, st: S, f: spec_fn(S, A) -> Result<S, E>)
    ensures
        try_fold(s.skip(s.len() as int), st, f) == Ok::<S, E>(st),
{
    assert(s.skip(s.len() as int).len() == 0);
}

/// The elements of `s` that satisfy `p`, in order.
pub open spec fn keep<A>(s: Seq<A>, p: spec_fn(A) -> bool) -> Seq<A>
    decreases s.len(),
{
    if s.len() == 0 {
        Seq::empty()
    } else if p(s.last()) {
        keep(s.drop_last(), p).push(s.last())
    } else {
        keep(s.drop_last(), p)
    }
}

/// `keep` over a prefix one element longer.
pub proof fn lemma_keep_step<A>(s: Seq<A>, i: int, p: spec_fn(A) -> bool)
    requires
        0 <= i < s.len(),
    ensures
        keep(s.take(i + 1), p) == if p(s[i]) {
            keep(s.take(i), p).push(s[i])
        } else {
            keep(s.take(i), p)
        },
{
    assert(s.take(i + 1).drop_last() =~= s.take(i));
    assert(s.take(i + 1).last() == s[i]);
}

/// Every element that `keep` returns satisfies the predicate and comes from `s`.
pub proof fn lemma_keep_elements<A>(s: Seq<A>, p: spec_fn(A) -> bool)
    ensures
        forall|j: int| 0 <= j < keep(s, p).len() ==> p(#[trigger] keep(s, p)[j]) && s.contains(keep(s, p)[j]),
        keep(s, p).len() <= s.len(),
    decreases s.len(),
{
    if s.len() > 0 {
        lemma_keep_elements(s.drop_last(), p);
        assert forall|j: int| 0 <= j < keep(s, p).len() implies p(#[trigger] keep(s, p)[j]) && s.contains(keep(s, p)[j]) by {
            if j < keep(s.drop_last(), p).len() {
                let k = choose|k: int| 0 <= k < s.drop_last().len() && s.drop_last()[k] == keep(s.drop_last(), p)[j];
                assert(s[k] == keep(s, p)[j]);
            } else {
                assert(s[s.len() - 1] == keep(s, p)[j]);
            }
        }
    }
}

/// An element that satisfies the predicate is among those that `keep` returns.
pub proof fn lemma_keep_contains<A>(s: Seq<A>, p: spec_fn(A) -> bool, i: int)
    requires
        0 <= i < s.len(),
        p(s[i]),
    ensures
        keep(s, p).contains(s[i]),
    decreases s.len(),
{
    if i == s.len() - 1 {
        assert(keep(s, p)[keep(s, p).len() - 1] == s[i]);
    } else {
        lemma_keep_contains(s.drop_last(), p, i);
        assert(s.drop_last()[i] == s[i]);
        let j = choose|j: int| 0 <= j < keep(s.drop_last(), p).len() && keep(s.drop_last(), p)[j] == s[i];
        assert(keep(s, p)[j] == s[i]);
    }
}

/// `keep` is vstd's `filter`.
pub proof fn lemma_keep_is_filter<A>(s: Seq<A>, p: spec_fn(A) -> bool)
    ensures
        keep(s, p) == s.filter(p),
    decreases s.len(),
{
    reveal(Seq::filter);
    if s.len() > 0 {
        lemma_keep_is_filter(s.drop_last(), p);
    }
}

/// A property of the states that the start has and that every successful step keeps
/// holds of what a successful fold ends with.
pub proof fn lemma_try_fold_keeps<A, S, E>(s: Seq<A>, st: S, f: spec_fn(S, A) -> Result<S, E>, inv: spec_fn(S) -> bool)
    requires
        inv(st),
        forall|x: S, a: A| inv(x) && (#[trigger] f(x, a)) is Ok ==> inv(f(x, a)->Ok_0),
    ensures
        try_fold(s, st, f) is Ok ==> inv(try_fold(s, st, f)->Ok_0),
    decreases s.len(),
{
    if s.len() > 0 {
        match f(st, s[0]) {
            Err(_) => {},
            Ok(next) => lemma_try_fold_keeps(s.drop_first(), next, f, inv),
        }
    }
}

/// A property that the step at position `j` gives whenever it succeeds, and that every
/// successful step keeps, holds of what a successful fold ends with.
pub proof fn lemma_try_fold_sets<A, S, E>(s: Seq<A>, j: int, st: S, f: spec_fn(S, A) -> Result<S, E>, inv: spec_fn(S) -> bool)
    requires
        0 <= j < s.len(),
        forall|x: S| (#[trigger] f(x, s[j])) is Ok ==> inv(f(x, s[j])->Ok_0),
        forall|x: S, a: A| inv(x) && (#[trigger] f(x, a)) is Ok ==> inv(f(x, a)->Ok_0),
    ensures
        try_fold(s, st, f) is Ok ==> inv(try_fold(s, st, f)->Ok_0),
    decreases s.len(),
{
    match f(st, s[0]) {
        Err(_) => {},
        Ok(next) => {
            if j == 0 {
                lemma_try_fold_keeps(s.drop_first(), next, f, inv);
            } else {
                assert(s.drop_first()[j - 1] == s[j]);
                lemma_try_fold_sets(s.drop_first(), j - 1, next, f, inv);
            }
        },
    }
}

/// Two pieces of printed tokens, separated by one space unless one of them is empty.
pub open spec fn word2(a: Seq<char>, b: Seq<char>) -> Seq<char> {
    if b.len() == 0 {
        a
    } else if a.len() == 0 {
        b
    } else {
        a + seq![' '] + b
    }
}

/// Pieces of printed tokens joined the way a token stream prints them.
pub open spec fn words(parts: Seq<Seq<char>>) -> Seq<char>
    decreases parts.len(),
{
    if parts.len() == 0 {
        Seq::empty()
    } else {
        word2(words(parts.drop_last()), parts.last())
    }
}

/// Items each followed by a comma, as a list with a trailing separator prints.
pub open spec fn comma_list(items: Seq<Seq<char>>) -> Seq<char>
    decreases items.len(),
{
    if items.len() == 0 {
        Seq::empty()
    } else {
        word2(comma_list(items.drop_last()), items.last() + seq![' ', ','])
    }
}

/// Items with `sep` between each two of them.
pub open spec fn joined(items: Seq<Seq<char>>, sep: Seq<char>) -> Seq<char>
    decreases items.len(),
{
    if items.len() == 0 {
        Seq::empty()
    } else if items.len() == 1 {
        items[0]
    } else {
        joined(items.drop_last(), sep) + sep + items.last()
    }
}

/// Items separated by ` , ` with no trailing separator.
pub open spec fn comma_separated(items: Seq<Seq<char>>) -> Seq<char> {
    joined(items, seq![' ', ',', ' '])
}

/// Items separated by commas, with a comma after the last one as well when `trailing`
/// holds: a list printed the way it was written.
pub open spec fn punctuated(items: Seq<Seq<char>>, trailing: bool) -> Seq<char> {
    if trailing {
        comma_list(items)
    } else {
        comma_separated(items)
    }
}

/// Items separated by ` :: `.
pub open spec fn colon_separated(items: Seq<Seq<char>>) -> Seq<char> {
    joined(items, seq![' ', ':', ':', ' '])
}

/// Whether `p` stands somewhere in `t` as one contiguous piece.
pub open spec fn occurs_in(p: Seq<char>, t: Seq<char>) -> bool {
    exists|i: int| 0 <= i && i + p.len() <= t.len() && #[trigger] t.subrange(i, i + p.len()) == p
}

/// A piece of either part is a piece of the two joined, with or without a space.
pub proof fn lemma_occurs_in_joined(p: Seq<char>, a: Seq<char>, b: Seq<char>)
    ensures
        occurs_in(p, a) ==> occurs_in(p, a + b) && occurs_in(p, word2(a, b)),
        occurs_in(p, b) ==> occurs_in(p, a + b) && occurs_in(p, word2(a, b)),
{
    if occurs_in(p, a) {
        let i = choose|i: int| 0 <= i && i + p.len() <= a.len() && #[trigger] a.subrange(i, i + p.len()) == p;
        assert((a + b).subrange(i, i + p.len()) =~= a.subrange(i, i + p.len()));
        assert((a + seq![' '] + b).subrange(i, i + p.len()) =~= a.subrange(i, i + p.len()));
    }
    if occurs_in(p, b) {
        let i = choose|i: int| 0 <= i && i + p.len() <= b.len() && #[trigger] b.subrange(i, i + p.len()) == p;
        let j = a.len() + i;
        assert((a + b).subrange(j, j + p.len()) =~= b.subrange(i, i + p.len()));
        let k = a.len() + 1 + i;
        assert((a + seq![' '] + b).subrange(k, k + p.len()) =~= b.subrange(i, i + p.len()));
    }
}

/// A piece of what a brace group holds is a piece of the group.
pub proof fn lemma_occurs_in_braced(p: Seq<char>, inner: Seq<char>)
    requires
        occurs_in(p, inner),
    ensures
        occurs_in(p, braced(inner)),
{
    if inner.len() == 0 {
        assert(braced(inner).subrange(0, 0) =~= p);
    } else {
        lemma_occurs_in_joined(p, seq!['{', ' '], inner);
        lemma_occurs_in_joined(p, seq!['{', ' '] + inner, seq![' ', '}']);
    }
}

/// A brace group as printed: `{ }` when empty, `{ inner }` otherwise.
pub open spec fn braced(inner: Seq<char>) -> Seq<char> {
    if inner.len() == 0 {
        seq!['{', ' ', '}']
    } else {
        seq!['{', ' '] + inner + seq![' ', '}']
    }
}

/// A parenthesized group as printed.
pub open spec fn parened(inner: Seq<char>) -> Seq<char> {
    seq!['('] + inner + seq![')']
}

/// The characters of a string literal's contents with `"` and `\` escaped.
pub open spec fn escaped(s: Seq<char>) -> Seq<char>
    decreases s.len(),
{
    if s.len() == 0 {
        Seq::empty()
    } else {
        let c = s.last();
        escaped(s.drop_last()) + if c == '"' || c == '\\' {
            seq!['\\', c]
        } else {
            seq![c]
        }
    }
}

/// A string literal token for `s`.
pub open spec fn quoted(s: Seq<char>) -> Seq<char> {
    seq!['"'] + escaped(s) + seq!['"']
}

/// Whether two strings hold the same characters.
pub fn str_eq(a: &str, b: &str) -> (r: bool)
    ensures
        r == (a@ == b@),
{
    let n = a.unicode_len();
    let m = b.unicode_len();
    if n != m {
        return false;
    }
    let mut i: usize = 0;
    while i < n
        invariant
            n == a@.len(),
            m == b@.len(),
            n == m,
            i <= n,
            forall|j: int| 0 <= j < i ==> a@[j] == b@[j],
        decreases n - i,
    {
        if a.get_char(i) != b.get_char(i) {
            return false;
        }
        i = i + 1;
    }
    assert(a@ =~= b@);
    true
}

/// A fresh string holding the characters of `s`.
pub fn owned(s: &str) -> (r: String)
    ensures
        r@ == s@,
{
    String::from_str(s)
}

/// `a` followed by `b`.
pub fn concat(a: &str, b: &str) -> (r: String)
    ensures
        r@ == a@ + b@,
{
    let mut r = String::from_str(a);
    r.append(b);
    r
}

/// Three pieces, one after the other.
pub fn concat3(a: &str, b: &str, c: &str) -> (r: String)
    ensures
        r@ == a@ + b@ + c@,
{
    let mut r = String::from_str(a);
    r.append(b);
    r.append(c);
    r
}

/// Appends `b` to `a`, separated by a space unless one of them is empty.
pub fn push_word(a: &mut String, b: &str)
    ensures
        final(a)@ == word2(old(a)@, b@),
{
    let n = b.unicode_len();
    if n == 0 {
        return;
    }
    let m = a.as_str().unicode_len();
    if m != 0 {
        a.append(" ");
        proof {
            reveal_strlit(" ");
        }
    }
    a.append(b);
    assert(final(a)@ =~= word2(old(a)@, b@));
}

/// The pieces joined the way a token stream prints them.
pub fn join_words(parts: &Vec<String>) -> (r: String)
    ensures
        r@ == words(parts@.map_values(|p: String| p@)),
{
    let ghost views = parts@.map_values(|p: String| p@);
    let mut r = String::new();
    let mut i: usize = 0;
    while i < parts.len()
        invariant
            i <= parts.len(),
            views == parts@.map_values(|p: String| p@),
            r@ == words(views.take(i as int)),
        decreases parts.len() - i,
    {
        assert(views.take(i + 1).drop_last() =~= views.take(i as int));
        push_word(&mut r, parts[i].as_str());
        i = i + 1;
    }
    assert(views.take(parts.len() as int) =~= views);
    r
}

/// The items, each followed by a comma.
pub fn join_comma_list(items: &Vec<String>) -> (r: String)
    ensures
        r@ == comma_list(items@.map_values(|p: String| p@)),
{
    let ghost views = items@.map_values(|p: String| p@);
    let mut r = String::new();
    let mut i: usize = 0;
    while i < items.len()
        invariant
            i <= items.len(),
            views == items@.map_values(|p: String| p@),
            r@ == comma_list(views.take(i as int)),
        decreases items.len() - i,
    {
        assert(views.take(i + 1).drop_last() =~= views.take(i as int));
        let item = concat(items[i].as_str(), " ,");
        proof {
            reveal_strlit(" ,");
        }
        push_word(&mut r, item.as_str());
        i = i + 1;
    }
    assert(views.take(items.len() as int) =~= views);
    r
}

/// The items separated by `sep`.
pub fn join_with(items: &Vec<String>, sep: &str) -> (r: String)
    ensures
        r@ == joined(items@.map_values(|p: String| p@), sep@),
{
    let ghost views = items@.map_values(|p: String| p@);
    let mut r = String::new();
    let mut i: usize = 0;
    while i < items.len()
        invariant
            i <= items.len(),
            views == items@.map_values(|p: String| p@),
            r@ == joined(views.take(i as int), sep@),
        decreases items.len() - i,
    {
        assert(views.take(i + 1).drop_last() =~= views.take(i as int));
        if i != 0 {
            r.append(sep);
        }
        r.append(items[i].as_str());
        i = i + 1;
        proof {
            if i == 1 {
                assert(views.take(1)[0] == views[0]);
            }
        }
    }
    assert(views.take(items.len() as int) =~= views);
    r
}

/// The items separated by commas, with a comma after the last one when `trailing` holds.
pub fn join_punctuated(items: &Vec<String>, trailing: bool) -> (r: String)
    ensures
        r@ == punctuated(items@.map_values(|p: String| p@), trailing),
{
    if trailing {
        join_comma_list(items)
    } else {
        proof {
            reveal_strlit(" , ");
            assert(" , "@ =~= seq![' ', ',', ' ']);
        }
        join_with(items, " , ")
    }
}

/// A brace group around `inner`.
pub fn brace(inner: &str) -> (r: String)
    ensures
        r@ == braced(inner@),
{
    proof {
        reveal_strlit("{ }");
        reveal_strlit("{ ");
        reveal_strlit(" }");
    }
    if inner.unicode_len() == 0 {
        owned("{ }")
    } else {
        concat3("{ ", inner, " }")
    }
}

/// A parenthesized group around `inner`.
pub fn paren(inner: &str) -> (r: String)
    ensures
        r@ == parened(inner@),
{
    proof {
        reveal_strlit("(");
        reveal_strlit(")");
    }
    concat3("(", inner, ")")
}

/// A string literal token holding `s`.
pub fn quote_str(s: &str) -> (r: String)
    ensures
        r@ == quoted(s@),
{
    let n = s.unicode_len();
    let mut body = String::new();
    let mut i: usize = 0;
    while i < n
        invariant
            n == s@.len(),
            i <= n,
            body@ == escaped(s@.take(i as int)),
        decreases n - i,
    {
        let c = s.get_char(i);
        assert(s@.take(i + 1).drop_last() =~= s@.take(i as int));
        if c == '"' {
            body.append("\\\"");
            proof {
                reveal_strlit("\\\"");
            }
        } else if c == '\\' {
            body.append("\\\\");
            proof {
                reveal_strlit("\\\\");
            }
        } else {
            let one = s.substring_char(i, i + 1);
            assert(one@ =~= seq![c]);
            body.append(one);
        }
        i = i + 1;
    }
    assert(s@.take(n as int) =~= s@);
    proof {
        reveal_strlit("\"");
    }
    concat3("\"", body.as_str(), "\"")
}

} // verus!
