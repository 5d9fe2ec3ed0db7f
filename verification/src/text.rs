//! Searching and splitting of texts, over sequences of characters.
use vstd::prelude::*;

verus! {

/// `pat` stands in `s` at index `i`.
pub open spec fn occurs_at(s: Seq<char>, pat: Seq<char>, i: int) -> bool {
    &&& 0 <= i
    &&& i + pat.len() <= s.len()
    &&& s.subrange(i, i + pat.len()) == pat
}

/// `s` begins with `pat`.
pub open spec fn starts_with(s: Seq<char>, pat: Seq<char>) -> bool {
    occurs_at(s, pat, 0)
}

/// The least index from `from` on at which `pat` stands in `s`, or the length
/// of `s` where there is none.
pub open spec fn first_index_from(s: Seq<char>, pat: Seq<char>, from: int) -> int
    decreases s.len() - from,
{
    if from < 0 || from >= s.len() || from + pat.len() > s.len() {
        s.len() as int
    } else if occurs_at(s, pat, from) {
        from
    } else {
        first_index_from(s, pat, from + 1)
    }
}

/// The least index at which `pat` stands in `s`, or the length of `s`.
pub open spec fn first_index(s: Seq<char>, pat: Seq<char>) -> int {
    first_index_from(s, pat, 0)
}

/// `pat` stands somewhere in `s`.
pub open spec fn found(s: Seq<char>, pat: Seq<char>) -> bool {
    occurs_at(s, pat, first_index(s, pat))
}

/// What precedes the first `pat` in `s`; all of `s` where there is none.
pub open spec fn before(s: Seq<char>, pat: Seq<char>) -> Seq<char> {
    if found(s, pat) {
        s.take(first_index(s, pat))
    } else {
        s
    }
}

/// What follows the first `pat` in `s`; nothing where there is none.
pub open spec fn after(s: Seq<char>, pat: Seq<char>) -> Seq<char> {
    if found(s, pat) {
        s.skip(first_index(s, pat) + pat.len())
    } else {
        Seq::empty()
    }
}

/// The pieces of `s` between the occurrences of `sep`, taken from the left.
/// A text without `sep` is one piece; so is any text where `sep` is empty.
pub open spec fn split(s: Seq<char>, sep: Seq<char>) -> Seq<Seq<char>>
    decreases s.len(),
{
    if sep.len() > 0 && found(s, sep) {
        seq![before(s, sep)] + split(after(s, sep), sep)
    } else {
        seq![s]
    }
}

/// The result of `first_index_from` lies between `from` and the length of
/// `s`, `pat` stands nowhere before it, and it stands there unless the result
/// is the length.
pub proof fn lemma_first_index_from(s: Seq<char>, pat: Seq<char>, from: int)
    requires
        0 <= from <= s.len(),
        pat.len() > 0,
    ensures
        from <= first_index_from(s, pat, from) <= s.len(),
        forall|j: int| from <= j < first_index_from(s, pat, from) ==> !occurs_at(s, pat, j),
        first_index_from(s, pat, from) < s.len() ==> occurs_at(
            s,
            pat,
            first_index_from(s, pat, from),
        ),
    decreases s.len() - from,
{
    if from + pat.len() > s.len() {
        assert forall|j: int| from <= j < s.len() implies !occurs_at(s, pat, j) by {}
    } else if occurs_at(s, pat, from) {
    } else {
        lemma_first_index_from(s, pat, from + 1);
    }
}

/// An occurrence with none before it is the first one.
pub proof fn lemma_first_index_is(s: Seq<char>, pat: Seq<char>, from: int, i: int)
    requires
        0 <= from <= i,
        pat.len() > 0,
        occurs_at(s, pat, i),
        forall|j: int| from <= j < i ==> !occurs_at(s, pat, j),
    ensures
        first_index_from(s, pat, from) == i,
    decreases i - from,
{
    if from < i {
        lemma_first_index_is(s, pat, from + 1, i);
    }
}

/// Searching a text from `k` on is searching the text without its first `k`
/// characters.
pub proof fn lemma_first_index_skip(s: Seq<char>, pat: Seq<char>, k: int)
    requires
        0 <= k <= s.len(),
        pat.len() > 0,
    ensures
        first_index_from(s, pat, k) == k + first_index(s.skip(k), pat),
{
    let t = s.skip(k);
    lemma_first_index_from(s, pat, k);
    lemma_first_index_from(t, pat, 0);
    let a = first_index_from(s, pat, k);
    let b = first_index(t, pat);
    assert forall|j: int| 0 <= j implies (occurs_at(t, pat, j) <==> occurs_at(s, pat, k + j)) by {
        if j + pat.len() <= t.len() {
            assert(t.subrange(j, j + pat.len()) =~= s.subrange(k + j, k + j + pat.len()));
        }
    }
    if a < s.len() {
        assert(occurs_at(t, pat, a - k));
        if b < a - k {
            assert(occurs_at(s, pat, k + b));
        }
    }
    if b < t.len() {
        assert(occurs_at(s, pat, k + b));
    }
}

/// Where `pat` stands anywhere in `s`, it is found, and not later than there.
pub proof fn lemma_occurrence_found(s: Seq<char>, pat: Seq<char>, i: int)
    requires
        pat.len() > 0,
        occurs_at(s, pat, i),
    ensures
        found(s, pat),
        0 <= first_index(s, pat) <= i,
{
    lemma_first_index_from(s, pat, 0);
}

/// Where `pat` is not found in `s`, it stands nowhere in `s`.
pub proof fn lemma_not_found(s: Seq<char>, pat: Seq<char>)
    requires
        pat.len() > 0,
        !found(s, pat),
    ensures
        forall|i: int| !occurs_at(s, pat, i),
{
    assert forall|i: int| !occurs_at(s, pat, i) by {
        if occurs_at(s, pat, i) {
            lemma_occurrence_found(s, pat, i);
        }
    }
}

/// A pattern of one character stands where that character stands.
pub proof fn lemma_occurs_one(s: Seq<char>, c: char, i: int)
    ensures
        occurs_at(s, seq![c], i) <==> (0 <= i < s.len() && s[i] == c),
{
    if 0 <= i < s.len() {
        if s[i] == c {
            assert(s.subrange(i, i + 1) =~= seq![c]);
        } else {
            assert(s.subrange(i, i + 1)[0] == s[i]);
        }
    }
}

/// A pattern of two characters stands where the two stand side by side.
pub proof fn lemma_occurs_two(s: Seq<char>, c: char, d: char, i: int)
    ensures
        occurs_at(s, seq![c, d], i) <==> (0 <= i && i + 1 < s.len() && s[i] == c && s[i + 1] == d),
{
    if 0 <= i && i + 1 < s.len() {
        if s[i] == c && s[i + 1] == d {
            assert(s.subrange(i, i + 2) =~= seq![c, d]);
        } else {
            assert(s.subrange(i, i + 2)[0] == s[i]);
            assert(s.subrange(i, i + 2)[1] == s[i + 1]);
        }
    }
}

/// The first place of a character in a text: the character is found there,
/// and the text is cut around it.
pub proof fn lemma_first_char(s: Seq<char>, c: char, i: int)
    requires
        0 <= i < s.len(),
        s[i] == c,
        forall|j: int| 0 <= j < i ==> s[j] != c,
    ensures
        found(s, seq![c]),
        first_index(s, seq![c]) == i,
        before(s, seq![c]) == s.take(i),
        after(s, seq![c]) == s.skip(i + 1),
{
    lemma_occurs_one(s, c, i);
    assert forall|j: int| 0 <= j < i implies !occurs_at(s, seq![c], j) by {
        lemma_occurs_one(s, c, j);
    }
    lemma_first_index_is(s, seq![c], 0, i);
}

/// A character that is not found in a text stands nowhere in it.
pub proof fn lemma_no_char(s: Seq<char>, c: char)
    requires
        !found(s, seq![c]),
    ensures
        forall|i: int| 0 <= i < s.len() ==> s[i] != c,
{
    lemma_not_found(s, seq![c]);
    assert forall|i: int| 0 <= i < s.len() implies s[i] != c by {
        lemma_occurs_one(s, c, i);
    }
}

/// Where a character is found in a text, it stands at the place that is
/// found, and nowhere before it.
pub proof fn lemma_found_char(s: Seq<char>, c: char)
    requires
        found(s, seq![c]),
    ensures
        0 <= first_index(s, seq![c]) < s.len(),
        s[first_index(s, seq![c])] == c,
        forall|j: int| 0 <= j < first_index(s, seq![c]) ==> s[j] != c,
{
    lemma_first_index_from(s, seq![c], 0);
    lemma_occurs_one(s, c, first_index(s, seq![c]));
    assert forall|j: int| 0 <= j < first_index(s, seq![c]) implies s[j] != c by {
        lemma_occurs_one(s, c, j);
    }
}

/// What is found in a text is found at the same place when more text
/// follows: what precedes it stays, and what follows it is followed by the
/// text that was added.
pub proof fn lemma_found_with_more(s: Seq<char>, more: Seq<char>, pat: Seq<char>)
    requires
        pat.len() > 0,
        found(s, pat),
    ensures
        found(s + more, pat),
        first_index(s + more, pat) == first_index(s, pat),
        before(s + more, pat) == before(s, pat),
        after(s + more, pat) == after(s, pat) + more,
{
    let i = first_index(s, pat);
    let t = s + more;
    lemma_first_index_from(s, pat, 0);
    assert(t.subrange(i, i + pat.len()) =~= s.subrange(i, i + pat.len()));
    assert forall|j: int| 0 <= j < i implies !occurs_at(t, pat, j) by {
        assert(!occurs_at(s, pat, j));
        assert(j + pat.len() <= s.len());
        assert(t.subrange(j, j + pat.len()) =~= s.subrange(j, j + pat.len()));
    }
    lemma_first_index_is(t, pat, 0, i);
    assert(t.take(i) =~= s.take(i));
    assert(t.skip(i + pat.len()) =~= s.skip(i + pat.len()) + more);
}

/// The first piece of a text in which the separator is found is what
/// precedes it; the other pieces are those of what follows it.
pub proof fn lemma_split_found(s: Seq<char>, more: Seq<char>, sep: Seq<char>)
    requires
        sep.len() > 0,
        found(s, sep),
    ensures
        split(s + more, sep) == seq![before(s, sep)] + split(after(s, sep) + more, sep),
{
    lemma_found_with_more(s, more, sep);
}

/// The characters of a text, one by one.
pub fn chars_of(s: &str) -> (out: Vec<char>)
    ensures
        out@ == s@,
{
    let mut out: Vec<char> = Vec::new();
    for c in it: s.chars()
        invariant
            out@ == it.seq().take(it.index() as int),
            it.seq() == s@,
    {
        out.push(c);
    }
    out
}

/// Tells whether `pat` stands in `s` at index `i`.
pub fn matches_at(s: &Vec<char>, pat: &Vec<char>, i: usize) -> (b: bool)
    ensures
        b == occurs_at(s@, pat@, i as int),
{
    if i > s.len() || pat.len() > s.len() - i {
        return false;
    }
    let mut k: usize = 0;
    while k < pat.len()
        invariant
            i + pat.len() <= s.len(),
            k <= pat.len(),
            forall|j: int| 0 <= j < k ==> s@[i + j] == pat@[j],
        decreases pat.len() - k,
    {
        if s[i + k] != pat[k] {
            assert(s@.subrange(i as int, i + pat.len())[k as int] != pat@[k as int]);
            return false;
        }
        k += 1;
    }
    assert(s@.subrange(i as int, i + pat.len()) =~= pat@);
    true
}

/// Finds the first place from `from` on at which `pat` stands in `s`, and
/// returns the length of `s` where there is none.
pub fn find(s: &Vec<char>, pat: &Vec<char>, from: usize) -> (r: usize)
    ensures
        r as int == first_index_from(s@, pat@, from as int),
{
    let mut i: usize = from;
    while i < s.len() && pat.len() <= s.len() - i
        invariant
            from <= i,
            first_index_from(s@, pat@, from as int) == first_index_from(s@, pat@, i as int),
        decreases s.len() - i,
    {
        if matches_at(s, pat, i) {
            return i;
        }
        i += 1;
    }
    s.len()
}

/// Tells whether two texts are the same.
pub fn same_text(a: &str, b: &str) -> (r: bool)
    ensures
        r == (a@ == b@),
{
    let x = chars_of(a);
    let y = chars_of(b);
    if x.len() != y.len() {
        return false;
    }
    let r = matches_at(&x, &y, 0);
    assert(a@.subrange(0, a@.len() as int) =~= a@);
    r
}

/// Tells whether `s` begins with `pat`.
pub fn has_prefix(s: &str, pat: &str) -> (b: bool)
    ensures
        b == starts_with(s@, pat@),
{
    let text = chars_of(s);
    let head = chars_of(pat);
    matches_at(&text, &head, 0)
}

/// Cuts `s` at the first `pat` and returns what precedes it; all of `s` where
/// `pat` is not in it.
pub fn cut_before<'a>(s: &'a str, pat: &str) -> (r: &'a str)
    ensures
        r@ == before(s@, pat@),
{
    let text = chars_of(s);
    let mark = chars_of(pat);
    let i = find(&text, &mark, 0);
    if matches_at(&text, &mark, i) {
        s.substring_char(0, i)
    } else {
        s
    }
}

/// Cuts `s` at the first `pat` and returns what follows it; the empty text
/// where `pat` is not in it.
pub fn cut_after<'a>(s: &'a str, pat: &str) -> (r: &'a str)
    ensures
        r@ == after(s@, pat@),
{
    let text = chars_of(s);
    let mark = chars_of(pat);
    let i = find(&text, &mark, 0);
    let n = text.len();
    if matches_at(&text, &mark, i) {
        let m = mark.len();
        assert(i + m <= n);
        s.substring_char(i + m, n)
    } else {
        s.substring_char(0, 0)
    }
}

/// Splits `s` at every `sep`, from the left.
pub fn split_text<'a>(s: &'a str, sep: &str) -> (out: Vec<&'a str>)
    ensures
        out@.len() == split(s@, sep@).len(),
        out@.len() >= 1,
        forall|k: int| 0 <= k < out@.len() ==> (#[trigger] out@[k])@ == split(s@, sep@)[k],
{
    let text = chars_of(s);
    let mark = chars_of(sep);
    let mut out: Vec<&'a str> = Vec::new();
    if mark.len() == 0 {
        out.push(s);
        return out;
    }
    let mut pos: usize = 0;
    let ghost mut done: Seq<Seq<char>> = Seq::empty();
    assert(s@.skip(0) =~= s@);
    assert(done + split(s@, sep@) =~= split(s@, sep@));
    loop
        invariant
            text@ == s@,
            mark@ == sep@,
            mark.len() > 0,
            pos <= text.len(),
            out@.len() == done.len(),
            forall|k: int| 0 <= k < out@.len() ==> (#[trigger] out@[k])@ == done[k],
            split(s@, sep@) == done + split(s@.skip(pos as int), sep@),
        decreases text.len() - pos,
    {
        let i = find(&text, &mark, pos);
        proof {
            lemma_first_index_skip(s@, sep@, pos as int);
            lemma_first_index_from(s@, sep@, pos as int);
            lemma_first_index_from(s@.skip(pos as int), sep@, 0);
        }
        let ghost rest = s@.skip(pos as int);
        if i < text.len() {
            let piece = s.substring_char(pos, i);
            assert(found(rest, sep@));
            assert(piece@ =~= before(rest, sep@));
            assert(after(rest, sep@) =~= s@.skip(i + mark.len()));
            out.push(piece);
            proof {
                assert(done + (seq![piece@] + split(after(rest, sep@), sep@)) =~= done.push(piece@)
                    + split(after(rest, sep@), sep@));
                done = done.push(piece@);
            }
            pos = i + mark.len();
        } else {
            let piece = s.substring_char(pos, text.len());
            assert(!found(rest, sep@));
            assert(piece@ =~= rest);
            out.push(piece);
            proof {
                assert(done + seq![rest] =~= done.push(rest));
                done = done.push(rest);
            }
            return out;
        }
    }
}

} // verus!
