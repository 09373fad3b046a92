use vstd::prelude::*;

verus! {

/// `s` with every occurrence of the character `c` taken out.
pub open spec fn without_char(s: Seq<char>, c: char) -> Seq<char> {
    s.filter(|x: char| x != c)
}

/// `pat` occurs in `s` starting at position `i`.
pub open spec fn occurs_at(s: Seq<char>, pat: Seq<char>, i: int) -> bool {
    0 <= i && i + pat.len() <= s.len() && s.subrange(i, i + pat.len()) == pat
}

/// `pat` occurs somewhere in `s`.
pub open spec fn occurs_in(s: Seq<char>, pat: Seq<char>) -> bool {
    exists|i: int| occurs_at(s, pat, i)
}

/// `s` with the non-overlapping occurrences of the non-empty `pat` taken out,
/// found from left to right (the string of `str::replace(s, pat, "")`).
pub open spec fn without_pattern(s: Seq<char>, pat: Seq<char>) -> Seq<char>
    decreases s.len(),
{
    if pat.len() == 0 || s.len() < pat.len() {
        s
    } else if s.take(pat.len() as int) == pat {
        without_pattern(s.skip(pat.len() as int), pat)
    } else {
        seq![s[0]] + without_pattern(s.skip(1), pat)
    }
}

/// Appends one character: calls `String::push`, which std documents as
/// appending the given `char` to the end of the `String`.
#[verifier::external_body]
pub(crate) fn push_char(s: &mut String, c: char)
    ensures
        final(s)@ == old(s)@.push(c),
{
    s.push(c);
}

/// The characters of `s`, in order.
pub fn chars_of(s: &str) -> (res: Vec<char>)
    ensures
        res@ == s@,
{
    let mut res: Vec<char> = Vec::new();
    for c in it: s.chars()
        invariant
            res@ == it.seq().take(it.index() as int),
    {
        res.push(c);
    }
    res
}

/// Whether the two strings hold the same characters.
pub fn same_text(a: &str, b: &str) -> (res: bool)
    ensures
        res == (a@ == b@),
{
    let x = chars_of(a);
    let y = chars_of(b);
    if x.len() != y.len() {
        return false;
    }
    let mut i: usize = 0;
    while i < x.len()
        invariant
            x@ == a@,
            y@ == b@,
            x.len() == y.len(),
            i <= x.len(),
            forall|j: int| 0 <= j < i ==> x@[j] == y@[j],
        decreases x.len() - i,
    {
        if x[i] != y[i] {
            return false;
        }
        i = i + 1;
    }
    assert(x@ =~= y@);
    true
}

/// Whether `pat` occurs in `s` at position `i`.
fn occurs_at_exec(s: &Vec<char>, pat: &Vec<char>, i: usize) -> (res: bool)
    ensures
        res == occurs_at(s@, pat@, i as int),
{
    if i > s.len() || pat.len() > s.len() - i {
        return false;
    }
    let mut j: usize = 0;
    while j < pat.len()
        invariant
            i + pat.len() <= s.len(),
            j <= pat.len(),
            forall|k: int| 0 <= k < j ==> s@[i + k] == pat@[k],
        decreases pat.len() - j,
    {
        if s[i + j] != pat[j] {
            assert(s@.subrange(i as int, i + pat.len())[j as int] != pat@[j as int]);
            return false;
        }
        j = j + 1;
    }
    assert(s@.subrange(i as int, i + pat.len()) =~= pat@);
    true
}

/// Whether `pat` occurs somewhere in `s`.
pub fn contains_text(s: &str, pat: &str) -> (res: bool)
    ensures
        res == occurs_in(s@, pat@),
{
    let x = chars_of(s);
    let p = chars_of(pat);
    let mut i: usize = 0;
    while i < x.len()
        invariant
            x@ == s@,
            p@ == pat@,
            i <= x.len(),
            forall|j: int| 0 <= j < i ==> !occurs_at(s@, pat@, j),
        decreases x.len() - i,
    {
        if occurs_at_exec(&x, &p, i) {
            return true;
        }
        i = i + 1;
    }
    if occurs_at_exec(&x, &p, i) {
        return true;
    }
    assert forall|j: int| !occurs_at(s@, pat@, j) by {
        if occurs_at(s@, pat@, j) {
            assert(j <= i);
        }
    }
    false
}

/// `s` with every `c` taken out (the string of `str::replace(s, c, "")`).
pub fn remove_char(s: &str, c: char) -> (res: String)
    ensures
        res@ == without_char(s@, c),
{
    let x = chars_of(s);
    let mut res = String::new();
    let mut i: usize = 0;
    while i < x.len()
        invariant
            x@ == s@,
            i <= x.len(),
            res@ == without_char(x@.take(i as int), c),
        decreases x.len() - i,
    {
        proof {
            reveal_with_fuel(Seq::<_>::filter, 1);
            assert(x@.take(i + 1).drop_last() =~= x@.take(i as int));
            assert(x@.take(i + 1).last() == x@[i as int]);
        }
        if x[i] != c {
            push_char(&mut res, x[i]);
        }
        i = i + 1;
    }
    assert(x@.take(x.len() as int) =~= x@);
    res
}

/// `s` with the occurrences of `pat` taken out, found from left to right
/// (the string of `str::replace(s, pat, "")`).
pub fn remove_pattern(s: &str, pat: &str) -> (res: String)
    ensures
        res@ == without_pattern(s@, pat@),
{
    let x = chars_of(s);
    let p = chars_of(pat);
    let mut res = String::new();
    if p.len() == 0 {
        res.append(s);
        return res;
    }
    let mut i: usize = 0;
    assert(s@.skip(0) =~= s@);
    while i < x.len()
        invariant
            x@ == s@,
            p@ == pat@,
            p.len() > 0,
            i <= x.len(),
            without_pattern(s@, pat@) == res@ + without_pattern(s@.skip(i as int), pat@),
        decreases x.len() - i,
    {
        let ghost rest = s@.skip(i as int);
        if occurs_at_exec(&x, &p, i) {
            assert(rest.take(pat@.len() as int) =~= s@.subrange(i as int, i + pat@.len()));
            assert(rest.skip(pat@.len() as int) =~= s@.skip(i + pat@.len()));
            i = i + p.len();
        } else {
            proof {
                if rest.len() >= pat@.len() {
                    assert(rest.take(pat@.len() as int) =~= s@.subrange(i as int, i + pat@.len()));
                } else {
                    assert(rest =~= seq![rest[0]] + rest.skip(1));
                }
                assert(rest.skip(1) =~= s@.skip(i + 1));
                assert(rest[0] == x@[i as int]);
            }
            push_char(&mut res, x[i]);
            i = i + 1;
            assert(res@ + without_pattern(s@.skip(i as int), pat@) =~= res@.drop_last()
                + (seq![rest[0]] + without_pattern(rest.skip(1), pat@)));
        }
    }
    assert(s@.skip(i as int) =~= Seq::<char>::empty());
    res
}

} // verus!

verus! {

/// Taking out a character that does not occur changes nothing.
pub proof fn lemma_without_absent_char(s: Seq<char>, c: char)
    requires
        !s.contains(c),
    ensures
        without_char(s, c) == s,
    decreases s.len(),
{
    reveal_with_fuel(Seq::<_>::filter, 1);
    if s.len() > 0 {
        assert(!s.drop_last().contains(c)) by {
            if s.drop_last().contains(c) {
                let k = choose|k: int| 0 <= k < s.drop_last().len() && s.drop_last()[k] == c;
                assert(s[k] == c);
            }
        }
        lemma_without_absent_char(s.drop_last(), c);
        assert(s.last() != c) by {
            assert(s[s.len() - 1] == s.last());
        }
        assert(s.drop_last().push(s.last()) =~= s);
    }
}

/// Taking out a character distributes over concatenation.
pub proof fn lemma_without_char_concat(a: Seq<char>, b: Seq<char>, c: char)
    ensures
        without_char(a + b, c) == without_char(a, c) + without_char(b, c),
{
    Seq::filter_distributes_over_add(a, b, |x: char| x != c);
}

} // verus!

verus! {

/// A concatenation holds a character only where one of its parts does.
pub proof fn lemma_concat_lacks(a: Seq<char>, b: Seq<char>, c: char)
    requires
        !a.contains(c),
        !b.contains(c),
    ensures
        !(a + b).contains(c),
{
    if (a + b).contains(c) {
        let k = choose|k: int| 0 <= k < (a + b).len() && (a + b)[k] == c;
        if k < a.len() {
            assert(a[k] == c);
        } else {
            assert(b[k - a.len()] == c);
        }
    }
}

/// Taking a pattern out of a text leaves alone a front part that holds no
/// character with which the pattern starts.
pub proof fn lemma_without_pattern_prefix(s: Seq<char>, rest: Seq<char>, pat: Seq<char>)
    requires
        pat.len() > 0,
        !s.contains(pat[0]),
    ensures
        without_pattern(s + rest, pat) == s + without_pattern(rest, pat),
    decreases s.len(),
{
    let t = s + rest;
    if s.len() == 0 {
        assert(t =~= rest);
        assert(s + without_pattern(rest, pat) =~= without_pattern(rest, pat));
    } else if t.len() < pat.len() {
        assert(s + without_pattern(rest, pat) =~= t);
    } else {
        assert(t[0] == s[0]);
        assert(t.take(pat.len() as int)[0] == s[0]);
        assert(t.take(pat.len() as int) != pat);
        let tail = s.skip(1);
        assert(!tail.contains(pat[0])) by {
            if tail.contains(pat[0]) {
                let k = choose|k: int| 0 <= k < tail.len() && tail[k] == pat[0];
                assert(s[k + 1] == pat[0]);
            }
        }
        lemma_without_pattern_prefix(tail, rest, pat);
        assert(t.skip(1) =~= tail + rest);
        assert(s =~= seq![s[0]] + tail);
        assert(seq![s[0]] + (tail + without_pattern(rest, pat)) =~= s + without_pattern(rest,
            pat));
    }
}

/// Taking a pattern out of itself leaves nothing.
pub proof fn lemma_without_pattern_itself(pat: Seq<char>)
    requires
        pat.len() > 0,
    ensures
        without_pattern(pat, pat) == Seq::<char>::empty(),
{
    assert(pat.take(pat.len() as int) =~= pat);
    assert(pat.skip(pat.len() as int) =~= Seq::<char>::empty());
    assert(without_pattern(Seq::<char>::empty(), pat) == Seq::<char>::empty());
}

} // verus!

verus! {

/// The characters with the Unicode `White_Space` property, those that
/// `char::is_whitespace` accepts.
pub open spec fn white_space(c: char) -> bool {
    ('\u{9}' <= c <= '\u{d}') || c == ' ' || c == '\u{85}' || c == '\u{a0}' || c == '\u{1680}'
        || ('\u{2000}' <= c <= '\u{200a}') || c == '\u{2028}' || c == '\u{2029}' || c
        == '\u{202f}' || c == '\u{205f}' || c == '\u{3000}'
}

/// `s` without its leading white space.
pub open spec fn trim_start(s: Seq<char>) -> Seq<char>
    decreases s.len(),
{
    if s.len() > 0 && white_space(s[0]) {
        trim_start(s.skip(1))
    } else {
        s
    }
}

/// `s` without its trailing white space.
pub open spec fn trim_end(s: Seq<char>) -> Seq<char>
    decreases s.len(),
{
    if s.len() > 0 && white_space(s.last()) {
        trim_end(s.drop_last())
    } else {
        s
    }
}

/// `s` without leading and trailing white space (the string of `str::trim`).
pub open spec fn trimmed(s: Seq<char>) -> Seq<char> {
    trim_end(trim_start(s))
}

fn is_white_space(c: char) -> (res: bool)
    ensures
        res == white_space(c),
{
    ('\u{9}' <= c && c <= '\u{d}') || c == ' ' || c == '\u{85}' || c == '\u{a0}' || c
        == '\u{1680}' || ('\u{2000}' <= c && c <= '\u{200a}') || c == '\u{2028}' || c
        == '\u{2029}' || c == '\u{202f}' || c == '\u{205f}' || c == '\u{3000}'
}

/// Whether `s`, without leading and trailing white space, is `t`.
pub fn trimmed_equals(s: &str, t: &str) -> (res: bool)
    ensures
        res == (trimmed(s@) == t@),
{
    let x = chars_of(s);
    let y = chars_of(t);
    let mut i: usize = 0;
    assert(s@.skip(0) =~= s@);
    while i < x.len() && is_white_space(x[i])
        invariant
            x@ == s@,
            i <= x.len(),
            trim_start(s@) == trim_start(s@.skip(i as int)),
        decreases x.len() - i,
    {
        assert(s@.skip(i as int).skip(1) =~= s@.skip(i + 1));
        i = i + 1;
    }
    assert(trim_start(s@) == s@.skip(i as int));
    let mut j: usize = x.len();
    assert(s@.skip(i as int) =~= s@.subrange(i as int, j as int));
    while j > i && is_white_space(x[j - 1])
        invariant
            x@ == s@,
            i <= j <= x.len(),
            trimmed(s@) == trim_end(s@.subrange(i as int, j as int)),
        decreases j - i,
    {
        assert(s@.subrange(i as int, j as int).drop_last() =~= s@.subrange(i as int, j - 1));
        assert(s@.subrange(i as int, j as int).last() == x@[j - 1]);
        j = j - 1;
    }
    assert(trimmed(s@) == s@.subrange(i as int, j as int));
    if j - i != y.len() {
        assert(s@.subrange(i as int, j as int).len() != t@.len());
        return false;
    }
    let mut k: usize = 0;
    while k < y.len()
        invariant
            x@ == s@,
            y@ == t@,
            i <= j <= x.len(),
            j - i == y.len(),
            trimmed(s@) == s@.subrange(i as int, j as int),
            k <= y.len(),
            forall|m: int| 0 <= m < k ==> x@[i + m] == y@[m],
        decreases y.len() - k,
    {
        if x[i + k] != y[k] {
            assert(s@.subrange(i as int, j as int)[k as int] != t@[k as int]);
            return false;
        }
        k = k + 1;
    }
    assert(s@.subrange(i as int, j as int) =~= t@);
    true
}

} // verus!

verus! {

/// The characters of `s` from position `i` on are, one by one, those of `pat`.
pub open spec fn window_matches(s: Seq<char>, pat: Seq<char>, i: int) -> bool {
    &&& 0 <= i
    &&& i + pat.len() <= s.len()
    &&& forall|k: int| 0 <= k < pat.len() ==> #[trigger] s[i + k] == pat[k]
}

/// A pattern occurs in a text exactly when, at some position, the text's
/// characters are one by one those of the pattern.
pub proof fn lemma_occurs_in_window(s: Seq<char>, pat: Seq<char>)
    ensures
        occurs_in(s, pat) <==> exists|i: int| window_matches(s, pat, i),
{
    if occurs_in(s, pat) {
        let i = choose|i: int| occurs_at(s, pat, i);
        assert forall|k: int| 0 <= k < pat.len() implies #[trigger] s[i + k] == pat[k] by {
            assert(s.subrange(i, i + pat.len())[k] == s[i + k]);
        }
        assert(window_matches(s, pat, i));
    }
    if exists|i: int| window_matches(s, pat, i) {
        let i = choose|i: int| window_matches(s, pat, i);
        assert forall|k: int| 0 <= k < pat.len() implies s.subrange(i, i + pat.len())[k]
            == pat[k] by {
            assert(s[i + k] == pat[k]);
        }
        assert(s.subrange(i, i + pat.len()) =~= pat);
        assert(occurs_at(s, pat, i));
    }
}

} // verus!

verus! {

/// The white space characters are those of the Unicode `White_Space`
/// property, by code point.
pub proof fn lemma_white_space_code_points(c: char)
    ensures
        white_space(c) <==> {
            let n = c as int;
            ||| 9 <= n <= 13
            ||| n == 32
            ||| n == 133
            ||| n == 160
            ||| n == 5760
            ||| 8192 <= n <= 8202
            ||| n == 8232
            ||| n == 8233
            ||| n == 8239
            ||| n == 8287
            ||| n == 12288
        },
{
}

proof fn lemma_trim_start_skips(s: Seq<char>) -> (i: int)
    ensures
        0 <= i <= s.len(),
        trim_start(s) == s.skip(i),
        forall|k: int| 0 <= k < i ==> white_space(#[trigger] s[k]),
        i < s.len() ==> !white_space(s[i]),
    decreases s.len(),
{
    if s.len() > 0 && white_space(s[0]) {
        let j = lemma_trim_start_skips(s.skip(1));
        assert(s.skip(1).skip(j) =~= s.skip(j + 1));
        assert forall|k: int| 0 <= k < j + 1 implies white_space(#[trigger] s[k]) by {
            if k > 0 {
                assert(s[k] == s.skip(1)[k - 1]);
            }
        }
        if j + 1 < s.len() {
            assert(s[j + 1] == s.skip(1)[j]);
        }
        j + 1
    } else {
        assert(s.skip(0) =~= s);
        0
    }
}

proof fn lemma_trim_end_takes(s: Seq<char>) -> (j: int)
    ensures
        0 <= j <= s.len(),
        trim_end(s) == s.take(j),
        forall|k: int| j <= k < s.len() ==> white_space(#[trigger] s[k]),
        j > 0 ==> !white_space(s[j - 1]),
    decreases s.len(),
{
    if s.len() > 0 && white_space(s.last()) {
        let j = lemma_trim_end_takes(s.drop_last());
        assert(s.drop_last().take(j) =~= s.take(j));
        assert forall|k: int| j <= k < s.len() implies white_space(#[trigger] s[k]) by {
            if k < s.len() - 1 {
                assert(s[k] == s.drop_last()[k]);
            }
        }
        if j > 0 {
            assert(s[j - 1] == s.drop_last()[j - 1]);
        }
        j
    } else {
        assert(s.take(s.len() as int) =~= s);
        s.len() as int
    }
}

/// Trimming keeps the part of a text between its leading and its trailing
/// white space: a stretch of the text outside which every character is white
/// space, and which neither starts nor ends with white space.
pub proof fn lemma_trimmed_is_inner_stretch(s: Seq<char>)
    ensures
        exists|i: int, j: int|
            #![trigger s.subrange(i, j)]
            {
                &&& 0 <= i <= j <= s.len()
                &&& trimmed(s) == s.subrange(i, j)
                &&& forall|k: int| 0 <= k < i ==> white_space(#[trigger] s[k])
                &&& forall|k: int| j <= k < s.len() ==> white_space(#[trigger] s[k])
                &&& i < j ==> !white_space(s[i]) && !white_space(s[j - 1])
            },
{
    let i = lemma_trim_start_skips(s);
    let t = s.skip(i);
    let j = lemma_trim_end_takes(t);
    assert(t.take(j) =~= s.subrange(i, i + j));
    assert forall|k: int| i + j <= k < s.len() implies white_space(#[trigger] s[k]) by {
        assert(s[k] == t[k - i]);
    }
    if 0 < j {
        assert(s[i + j - 1] == t[j - 1]);
        assert(s[i] == t[0]);
        if i + j - 1 > i {
            assert(!white_space(t[0]));
        } else {
            assert(!white_space(t[0]));
        }
    }
    assert(trimmed(s) == s.subrange(i, i + j));
}

} // verus!
