use vstd::prelude::*;

verus! {

/// Unicode `White_Space`: the characters that `char::is_whitespace` accepts
/// and that `str::trim` removes.
pub open spec fn is_unicode_whitespace(c: char) -> bool {
    let u = c as u32;
    ||| 0x09 <= u <= 0x0d
    ||| u == 0x20
    ||| u == 0x85
    ||| u == 0xa0
    ||| u == 0x1680
    ||| 0x2000 <= u <= 0x200a
    ||| u == 0x2028
    ||| u == 0x2029
    ||| u == 0x202f
    ||| u == 0x205f
    ||| u == 0x3000
}

/// The characters of Unicode general category `Cc`, those that `char::is_control` accepts.
pub open spec fn is_control_char(c: char) -> bool {
    let u = c as u32;
    u <= 0x1f || (0x7f <= u && u <= 0x9f)
}

/// `s` without the run of characters satisfying `p` that starts it.
pub open spec fn drop_while(s: Seq<char>, p: spec_fn(char) -> bool) -> Seq<char>
    decreases s.len(),
{
    if s.len() > 0 && p(s[0]) {
        drop_while(s.drop_first(), p)
    } else {
        s
    }
}

/// `s` without the run of characters satisfying `p` that ends it.
pub open spec fn drop_end_while(s: Seq<char>, p: spec_fn(char) -> bool) -> Seq<char>
    decreases s.len(),
{
    if s.len() > 0 && p(s.last()) {
        drop_end_while(s.drop_last(), p)
    } else {
        s
    }
}

/// The run of characters satisfying `p` that starts `s`.
pub open spec fn take_while(s: Seq<char>, p: spec_fn(char) -> bool) -> Seq<char>
    decreases s.len(),
{
    if s.len() > 0 && p(s[0]) {
        seq![s[0]] + take_while(s.drop_first(), p)
    } else {
        Seq::empty()
    }
}

/// `s` without whitespace at either end, as `str::trim` gives it.
pub open spec fn trim(s: Seq<char>) -> Seq<char> {
    drop_end_while(
        drop_while(s, |c: char| is_unicode_whitespace(c)),
        |c: char| is_unicode_whitespace(c),
    )
}

/// Dropping the leading run of `p` skips the first `i` characters when they
/// are exactly that run.
pub proof fn lemma_drop_while_skip(s: Seq<char>, p: spec_fn(char) -> bool, i: int)
    requires
        0 <= i <= s.len(),
        forall|k: int| 0 <= k < i ==> p(#[trigger] s[k]),
        i == s.len() || !p(s[i]),
    ensures
        drop_while(s, p) == s.skip(i),
        take_while(s, p) == s.take(i),
    decreases i,
{
    if i == 0 {
        assert(s.skip(0) == s);
        assert(s.take(0) == Seq::<char>::empty());
    } else {
        let t = s.drop_first();
        assert forall|k: int| 0 <= k < i - 1 implies p(#[trigger] t[k]) by {
            assert(t[k] == s[k + 1]);
            assert(p(s[k + 1]));
        }
        if i - 1 < t.len() {
            assert(t[i - 1] == s[i]);
        }
        assert(p(s[0]));
        lemma_drop_while_skip(t, p, i - 1);
        assert(t.skip(i - 1) == s.skip(i));
        assert(seq![s[0]] + t.take(i - 1) == s.take(i));
    }
}

/// Dropping the trailing run of `p` keeps the first `j` characters when the
/// rest is exactly that run.
pub proof fn lemma_drop_end_while_take(s: Seq<char>, p: spec_fn(char) -> bool, j: int)
    requires
        0 <= j <= s.len(),
        forall|k: int| j <= k < s.len() ==> p(#[trigger] s[k]),
        j == 0 || !p(s[j - 1]),
    ensures
        drop_end_while(s, p) == s.take(j),
    decreases s.len() - j,
{
    if j == s.len() {
        assert(s.take(j) == s);
    } else {
        let t = s.drop_last();
        assert forall|k: int| j <= k < t.len() implies p(#[trigger] t[k]) by {
            assert(t[k] == s[k]);
            assert(p(s[k]));
        }
        if j > 0 {
            assert(t[j - 1] == s[j - 1]);
        }
        assert(p(s[s.len() - 1]));
        lemma_drop_end_while_take(t, p, j);
        assert(t.take(j) == s.take(j));
    }
}

/// A leading run is no longer than the sequence it starts.
pub proof fn lemma_take_while_len(s: Seq<char>, p: spec_fn(char) -> bool)
    ensures
        take_while(s, p).len() <= s.len(),
    decreases s.len(),
{
    if s.len() > 0 && p(s[0]) {
        lemma_take_while_len(s.drop_first(), p);
    }
}

/// Dropping a leading run leaves a suffix that does not start with the run's kind.
pub proof fn lemma_drop_while_suffix(s: Seq<char>, p: spec_fn(char) -> bool)
    ensures
        drop_while(s, p).len() <= s.len(),
        drop_while(s, p) == s.skip(s.len() - drop_while(s, p).len()),
        drop_while(s, p).len() > 0 ==> !p(drop_while(s, p)[0]),
    decreases s.len(),
{
    if s.len() > 0 && p(s[0]) {
        lemma_drop_while_suffix(s.drop_first(), p);
        let r = drop_while(s.drop_first(), p);
        assert(s.drop_first().skip(s.drop_first().len() - r.len()) == s.skip(s.len() - r.len()));
    } else {
        assert(s.skip(0) == s);
    }
}

/// Dropping a trailing run leaves a prefix that does not end with the run's kind.
pub proof fn lemma_drop_end_while_prefix(s: Seq<char>, p: spec_fn(char) -> bool)
    ensures
        drop_end_while(s, p).len() <= s.len(),
        drop_end_while(s, p) == s.take(drop_end_while(s, p).len() as int),
        drop_end_while(s, p).len() > 0 ==> !p(drop_end_while(s, p).last()),
    decreases s.len(),
{
    if s.len() > 0 && p(s.last()) {
        lemma_drop_end_while_prefix(s.drop_last(), p);
        let r = drop_end_while(s.drop_last(), p);
        assert(s.drop_last().take(r.len() as int) == s.take(r.len() as int));
    } else {
        assert(s.take(s.len() as int) == s);
    }
}

/// What is left of `s` once trimmed is a piece of `s` that neither starts nor ends with whitespace.
pub proof fn lemma_trim_piece(s: Seq<char>)
    ensures
        trim(s).len() <= s.len(),
        exists|k: int|
            0 <= k && k + trim(s).len() <= s.len() && #[trigger] s.subrange(k, k + trim(s).len())
                == trim(s),
        trim(s).len() > 0 ==> !is_unicode_whitespace(trim(s)[0]),
        trim(s).len() > 0 ==> !is_unicode_whitespace(trim(s).last()),
{
    let p = |c: char| is_unicode_whitespace(c);
    let a = drop_while(s, p);
    lemma_drop_while_suffix(s, p);
    lemma_drop_end_while_prefix(a, p);
    let t = drop_end_while(a, p);
    let k = s.len() - a.len();
    assert(trim(s) == t);
    assert(a == s.skip(k));
    assert(t == a.take(t.len() as int));
    assert(s.subrange(k, k + t.len()) =~= t);
    if t.len() > 0 {
        assert(t[0] == a[0]);
    }
}

/// Trimming what neither starts nor ends with whitespace leaves it as it is.
pub proof fn lemma_trim_unchanged(s: Seq<char>)
    requires
        s.len() > 0 ==> !is_unicode_whitespace(s[0]) && !is_unicode_whitespace(s.last()),
    ensures
        trim(s) == s,
{
    let p = |c: char| is_unicode_whitespace(c);
    assert(drop_while(s, p) == s);
    assert(drop_end_while(s, p) == s);
}

/// Appends one character to a string.
/// Wraps `String::push`: the string afterwards is the string before with `c` at its end.
#[verifier::external_body]
fn push_char(s: &mut String, c: char)
    ensures
        final(s)@ == old(s)@.push(c),
{
    s.push(c);
}

/// Whether `c` is Unicode whitespace.
pub fn is_whitespace(c: char) -> (b: bool)
    ensures
        b == is_unicode_whitespace(c),
{
    let u = c as u32;
    (0x09 <= u && u <= 0x0d) || u == 0x20 || u == 0x85 || u == 0xa0 || u == 0x1680 || (0x2000
        <= u && u <= 0x200a) || u == 0x2028 || u == 0x2029 || u == 0x202f || u == 0x205f || u
        == 0x3000
}

/// Whether `c` is a control character.
pub fn is_control(c: char) -> (b: bool)
    ensures
        b == is_control_char(c),
{
    let u = c as u32;
    u <= 0x1f || (0x7f <= u && u <= 0x9f)
}

/// The characters of `s`, in order.
pub fn chars_of(s: &str) -> (v: Vec<char>)
    ensures
        v@ == s@,
{
    let mut v: Vec<char> = Vec::new();
    for c in it: s.chars()
        invariant
            v@ == it.seq().take(it.index() as int),
    {
        v.push(c);
    }
    v
}

/// The string made of `v[lo..hi]`.
pub fn string_from(v: &Vec<char>, lo: usize, hi: usize) -> (s: String)
    requires
        lo <= hi <= v.len(),
    ensures
        s@ == v@.subrange(lo as int, hi as int),
{
    let mut s = String::new();
    let mut i = lo;
    while i < hi
        invariant
            lo <= i <= hi <= v.len(),
            s@ == v@.subrange(lo as int, i as int),
        decreases hi - i,
    {
        push_char(&mut s, v[i]);
        assert(v@.subrange(lo as int, i + 1) == v@.subrange(lo as int, i as int).push(v@[i as int]));
        i = i + 1;
    }
    s
}

/// The bounds of what is left of `v[lo..hi]` once trimmed.
pub fn trim_range(v: &Vec<char>, lo: usize, hi: usize) -> (r: (usize, usize))
    requires
        lo <= hi <= v.len(),
    ensures
        lo <= r.0 <= r.1 <= hi,
        v@.subrange(r.0 as int, r.1 as int) == trim(v@.subrange(lo as int, hi as int)),
{
    let ghost s = v@.subrange(lo as int, hi as int);
    let mut i: usize = lo;
    while i < hi && is_whitespace(v[i])
        invariant
            lo <= i <= hi <= v.len(),
            forall|k: int| lo <= k < i ==> is_unicode_whitespace(#[trigger] v@[k]),
        decreases hi - i,
    {
        i = i + 1;
    }
    proof {
        assert forall|k: int| 0 <= k < i - lo implies (|c: char| is_unicode_whitespace(c))(
            #[trigger] s[k],
        ) by {
            assert(s[k] == v@[lo + k]);
        }
        if i < hi {
            assert(s[i - lo] == v@[i as int]);
        }
        lemma_drop_while_skip(s, |c: char| is_unicode_whitespace(c), i - lo);
    }
    let mut j: usize = hi;
    while j > i && is_whitespace(v[j - 1])
        invariant
            i <= j <= hi <= v.len(),
            forall|k: int| j <= k < hi ==> is_unicode_whitespace(#[trigger] v@[k]),
        decreases j - i,
    {
        j = j - 1;
    }
    proof {
        let t = s.skip(i - lo);
        let m = j - i;
        assert forall|k: int| m <= k < t.len() implies (|c: char| is_unicode_whitespace(c))(
            #[trigger] t[k],
        ) by {
            assert(t[k] == v@[k + i]);
        }
        if m > 0 {
            assert(t[m - 1] == v@[j - 1]);
        }
        lemma_drop_end_while_take(t, |c: char| is_unicode_whitespace(c), m as int);
        assert(t.take(m as int) == v@.subrange(i as int, j as int));
    }
    (i, j)
}

/// The bounds `lo..hi` of what is left of `v` once trimmed.
pub fn trim_bounds(v: &Vec<char>) -> (r: (usize, usize))
    ensures
        r.0 <= r.1 <= v.len(),
        v@.subrange(r.0 as int, r.1 as int) == trim(v@),
{
    assert(v@.subrange(0, v.len() as int) == v@);
    trim_range(v, 0, v.len())
}

/// `s` without whitespace at either end.
pub fn trim_str(s: &str) -> (t: String)
    ensures
        t@ == trim(s@),
{
    let v = chars_of(s);
    let (lo, hi) = trim_bounds(&v);
    string_from(&v, lo, hi)
}

/// `s` trimmed, or `None` where nothing is left of it.
pub fn non_empty(s: String) -> (r: Option<String>)
    ensures
        r is None <==> trim(s@).len() == 0,
        r matches Some(t) ==> t@ == trim(s@),
{
    let t = trim_str(s.as_str());
    if t.as_str().is_empty() {
        None
    } else {
        Some(t)
    }
}

} // verus!
