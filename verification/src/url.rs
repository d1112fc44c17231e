use vstd::prelude::*;

use crate::text::{chars_of, drop_end_while, drop_while, lemma_drop_end_while_take,
    lemma_drop_while_skip, string_from, take_while};

verus! {

/// Where a URL points: the local filesystem, a search over it, or an SFTP
/// service, the last two with the name of their domain.
#[derive(Debug)]
pub enum UrlScheme {
    Regular,
    Search(String),
    Sftp(String),
}

/// A URL: a scheme and a path.
#[derive(Debug)]
pub struct UrlBuf {
    pub scheme: UrlScheme,
    pub path: String,
}

/// What a [`UrlScheme`] holds.
pub enum SchemeView {
    Regular,
    Search(Seq<char>),
    Sftp(Seq<char>),
}

/// What a [`UrlBuf`] holds.
pub struct UrlView {
    pub scheme: SchemeView,
    pub path: Seq<char>,
}

impl View for UrlScheme {
    type V = SchemeView;

    open spec fn view(&self) -> SchemeView {
        match self {
            UrlScheme::Regular => SchemeView::Regular,
            UrlScheme::Search(d) => SchemeView::Search(d@),
            UrlScheme::Sftp(d) => SchemeView::Sftp(d@),
        }
    }
}

impl View for UrlBuf {
    type V = UrlView;

    open spec fn view(&self) -> UrlView {
        UrlView { scheme: self.scheme@, path: self.path@ }
    }
}

/// The path of the directory that lists the machines.
pub open spec fn root_path() -> Seq<char> {
    "/__open_yasa_machines__"@
}

/// The URL of the directory that lists the machines.
pub open spec fn root_url_view() -> UrlView {
    UrlView { scheme: SchemeView::Regular, path: root_path() }
}

/// `name` joined onto `base` as `PathBuf::push` joins them: an absolute
/// `name` replaces `base`, and a separator goes between them where `base`
/// is not empty and does not end with one.
pub open spec fn join_path(base: Seq<char>, name: Seq<char>) -> Seq<char> {
    if name.len() > 0 && name[0] == '/' {
        name
    } else if base.len() == 0 || base.last() == '/' {
        base + name
    } else {
        base + seq!['/'] + name
    }
}

impl UrlScheme {
    /// A copy of this scheme.
    pub fn duplicate(&self) -> (r: UrlScheme)
        ensures
            r@ == self@,
    {
        match self {
            UrlScheme::Regular => UrlScheme::Regular,
            UrlScheme::Search(d) => UrlScheme::Search(d.clone()),
            UrlScheme::Sftp(d) => UrlScheme::Sftp(d.clone()),
        }
    }
}

impl UrlBuf {
    /// A URL of the local filesystem.
    pub fn from_path(path: String) -> (r: UrlBuf)
        ensures
            r@ == (UrlView { scheme: SchemeView::Regular, path: path@ }),
    {
        UrlBuf { scheme: UrlScheme::Regular, path }
    }

    /// A copy of this URL.
    pub fn duplicate(&self) -> (r: UrlBuf)
        ensures
            r@ == self@,
    {
        UrlBuf { scheme: self.scheme.duplicate(), path: self.path.clone() }
    }

    /// This URL with `name` joined onto its path.
    pub fn join(&self, name: &str) -> (r: UrlBuf)
        ensures
            r@ == (UrlView { scheme: self@.scheme, path: join_path(self@.path, name@) }),
    {
        let base = chars_of(self.path.as_str());
        let n = chars_of(name);
        proof {
            reveal_strlit("/");
        }
        let path = if n.len() > 0 && n[0] == '/' {
            String::from_str(name)
        } else if base.len() == 0 || base[base.len() - 1] == '/' {
            let mut p = self.path.clone();
            p.append(name);
            p
        } else {
            let mut p = self.path.clone();
            p.append("/");
            assert(p@ == self.path@ + seq!['/']);
            p.append(name);
            p
        };
        assert(path@ == join_path(self@.path, name@));
        UrlBuf { scheme: self.scheme.duplicate(), path }
    }

    /// Whether this URL is a search.
    pub fn is_search(&self) -> (b: bool)
        ensures
            b == (self@.scheme is Search),
    {
        match self.scheme {
            UrlScheme::Search(_) => true,
            _ => false,
        }
    }

    /// The local URL of the path that this URL names.
    pub fn to_regular(&self) -> (r: UrlBuf)
        ensures
            r@ == (UrlView { scheme: SchemeView::Regular, path: self@.path }),
    {
        UrlBuf { scheme: UrlScheme::Regular, path: self.path.clone() }
    }
}

/// The URL of the directory that lists the machines.
pub fn root_url() -> (u: UrlBuf)
    ensures
        u@ == root_url_view(),
        is_root_view(u@),
{
    proof {
        reveal_strlit("/__open_yasa_machines__");
        let r = root_path();
        assert(r[r.len() - 1] == '_');
        lemma_drop_end_while_take(r, |c: char| c == '/', r.len() as int);
        assert(r.take(r.len() as int) == r);
    }
    UrlBuf::from_path(String::from_str("/__open_yasa_machines__"))
}

/// Whether `path` is the machines directory, trailing separators ignored.
pub open spec fn is_root_path(path: Seq<char>) -> bool {
    drop_end_while(path, |c: char| c == '/') == root_path()
}

/// Whether a URL is the machines directory: a local URL of its path,
/// trailing separators ignored.
pub open spec fn is_root_view(u: UrlView) -> bool {
    u.scheme is Regular && is_root_path(u.path)
}

/// Whether `url` is the directory that lists the machines.
pub fn is_root_url(url: &UrlBuf) -> (b: bool)
    ensures
        b == is_root_view(url@),
{
    let is_regular = match url.scheme {
        UrlScheme::Regular => true,
        _ => false,
    };
    if !is_regular {
        return false;
    }
    let v = chars_of(url.path.as_str());
    assert(v@.take(v.len() as int) == v@);
    let e = strip_trailing_slashes(&v, v.len());
    assert(v@.take(e as int) == v@.subrange(0, e as int));
    let root = chars_of("/__open_yasa_machines__");
    chars_eq(&v, 0, e, &root)
}

/// The last component of a machine entry's URL: the URL is local, its parent
/// is the machines directory (as [`is_root_path`] tells it) and its name is
/// neither empty, `.` nor `..`. Trailing separators, and separators repeated
/// before the name, are ignored.
pub open spec fn entry_component(u: UrlView) -> Option<Seq<char>> {
    let p = drop_end_while(u.path, |c: char| c == '/');
    let q = drop_end_while(p, |c: char| c != '/');
    let name = p.skip(q.len() as int);
    if u.scheme is Regular && q.len() > 0 && is_root_path(q)
        && name.len() > 0 && name != "."@ && name != ".."@ {
        Some(name)
    } else {
        None
    }
}

/// The ASCII whitespace that `str::split_ascii_whitespace` splits at.
pub open spec fn is_ascii_ws(c: char) -> bool {
    c == ' ' || c == '\t' || c == '\n' || c == '\x0C' || c == '\r'
}

/// The first word of `s`, words being separated by ASCII whitespace.
pub open spec fn first_word(s: Seq<char>) -> Seq<char> {
    take_while(drop_while(s, |c: char| is_ascii_ws(c)), |c: char| !is_ascii_ws(c))
}

/// The slug of the machine that an entry URL stands for: the first word of its name.
pub open spec fn entry_slug_spec(u: UrlView) -> Option<Seq<char>> {
    match entry_component(u) {
        Some(n) => if first_word(n).len() > 0 {
            Some(first_word(n))
        } else {
            None
        },
        None => None,
    }
}

/// Whether `a[lo..hi]` holds the characters `b`.
fn chars_eq(a: &Vec<char>, lo: usize, hi: usize, b: &Vec<char>) -> (r: bool)
    requires
        lo <= hi <= a.len(),
    ensures
        r == (a@.subrange(lo as int, hi as int) == b@),
{
    if hi - lo != b.len() {
        return false;
    }
    let mut i: usize = 0;
    while i < b.len()
        invariant
            hi - lo == b.len(),
            lo <= hi <= a.len(),
            i <= b.len(),
            forall|k: int| 0 <= k < i ==> a@[lo + k] == b@[k],
        decreases b.len() - i,
    {
        if a[lo + i] != b[i] {
            assert(a@.subrange(lo as int, hi as int)[i as int] != b@[i as int]);
            return false;
        }
        i = i + 1;
    }
    assert(a@.subrange(lo as int, hi as int) =~= b@);
    true
}

/// Where the trailing run of separators of `v[..hi]` starts.
fn strip_trailing_slashes(v: &Vec<char>, hi: usize) -> (r: usize)
    requires
        hi <= v.len(),
    ensures
        r <= hi,
        drop_end_while(v@.take(hi as int), |c: char| c == '/') == v@.take(r as int),
{
    let mut e: usize = hi;
    while e > 0 && v[e - 1] == '/'
        invariant
            e <= hi <= v.len(),
            forall|k: int| e <= k < hi ==> #[trigger] v@[k] == '/',
        decreases e,
    {
        e = e - 1;
    }
    proof {
        let p = v@.take(hi as int);
        assert forall|k: int| e <= k < p.len() implies (|c: char| c == '/')(#[trigger] p[k]) by {
            assert(p[k] == v@[k]);
        }
        if e > 0 {
            assert(p[e - 1] == v@[e - 1]);
        }
        lemma_drop_end_while_take(p, |c: char| c == '/', e as int);
        assert(p.take(e as int) == v@.take(e as int));
    }
    e
}

/// Where the last component of `v[..hi]` starts: just after its last separator.
fn last_component_start(v: &Vec<char>, hi: usize) -> (r: usize)
    requires
        hi <= v.len(),
    ensures
        r <= hi,
        drop_end_while(v@.take(hi as int), |c: char| c != '/') == v@.take(r as int),
{
    let mut e: usize = hi;
    while e > 0 && v[e - 1] != '/'
        invariant
            e <= hi <= v.len(),
            forall|k: int| e <= k < hi ==> #[trigger] v@[k] != '/',
        decreases e,
    {
        e = e - 1;
    }
    proof {
        let p = v@.take(hi as int);
        assert forall|k: int| e <= k < p.len() implies (|c: char| c != '/')(#[trigger] p[k]) by {
            assert(p[k] == v@[k]);
        }
        if e > 0 {
            assert(p[e - 1] == v@[e - 1]);
        }
        lemma_drop_end_while_take(p, |c: char| c != '/', e as int);
        assert(p.take(e as int) == v@.take(e as int));
    }
    e
}

/// Whether `c` is ASCII whitespace.
fn is_ascii_whitespace(c: char) -> (b: bool)
    ensures
        b == is_ascii_ws(c),
{
    c == ' ' || c == '\t' || c == '\n' || c == '\x0C' || c == '\r'
}

/// The bounds of the first word of `v[lo..hi]`.
fn first_word_bounds(v: &Vec<char>, lo: usize, hi: usize) -> (r: (usize, usize))
    requires
        lo <= hi <= v.len(),
    ensures
        lo <= r.0 <= r.1 <= hi,
        first_word(v@.subrange(lo as int, hi as int)) == v@.subrange(r.0 as int, r.1 as int),
{
    let ghost name = v@.subrange(lo as int, hi as int);
    let mut a: usize = lo;
    while a < hi && is_ascii_whitespace(v[a])
        invariant
            lo <= a <= hi <= v.len(),
            forall|k: int| lo <= k < a ==> is_ascii_ws(#[trigger] v@[k]),
        decreases hi - a,
    {
        a = a + 1;
    }
    proof {
        assert forall|k: int| 0 <= k < a - lo implies (|c: char| is_ascii_ws(c))(
            #[trigger] name[k],
        ) by {
            assert(name[k] == v@[lo + k]);
        }
        if a < hi {
            assert(name[a - lo] == v@[a as int]);
        }
        lemma_drop_while_skip(name, |c: char| is_ascii_ws(c), a - lo);
    }
    let ghost rest = name.skip(a - lo);
    let mut b: usize = a;
    while b < hi && !is_ascii_whitespace(v[b])
        invariant
            a <= b <= hi <= v.len(),
            forall|k: int| a <= k < b ==> !is_ascii_ws(#[trigger] v@[k]),
        decreases hi - b,
    {
        b = b + 1;
    }
    proof {
        assert forall|k: int| 0 <= k < b - a implies (|c: char| !is_ascii_ws(c))(
            #[trigger] rest[k],
        ) by {
            assert(rest[k] == v@[a + k]);
        }
        if b < hi {
            assert(rest[b - a] == v@[b as int]);
        }
        lemma_drop_while_skip(rest, |c: char| !is_ascii_ws(c), b - a);
        assert(rest.take(b - a) == v@.subrange(a as int, b as int));
    }
    (a, b)
}

/// The slug of the machine that `url` stands for, where `url` is an entry
/// of the machines directory whose name holds a word.
pub fn entry_slug_from_url(url: &UrlBuf) -> (r: Option<String>)
    ensures
        r is None <==> entry_slug_spec(url@) is None,
        r matches Some(s) ==> entry_slug_spec(url@) == Some(s@),
{
    let is_regular = match url.scheme {
        UrlScheme::Regular => true,
        _ => false,
    };
    if !is_regular {
        return None;
    }
    let v = chars_of(url.path.as_str());
    assert(v@.take(v.len() as int) == v@);
    let e = strip_trailing_slashes(&v, v.len());
    let s = last_component_start(&v, e);
    if s == 0 {
        return None;
    }
    let t = strip_trailing_slashes(&v, s);
    proof {
        assert(v@.take(e as int).skip(s as int) == v@.subrange(s as int, e as int));
        assert(v@.take(s as int).take(t as int) == v@.take(t as int));
        assert(v@.take(t as int) == v@.subrange(0, t as int));
        reveal_strlit(".");
        reveal_strlit("..");
        reveal_strlit("/__open_yasa_machines__");
    }
    let root = chars_of("/__open_yasa_machines__");
    if !chars_eq(&v, 0, t, &root) {
        return None;
    }
    let n = e - s;
    if n == 0 || (n == 1 && v[s] == '.') || (n == 2 && v[s] == '.' && v[s + 1] == '.') {
        proof {
            if n == 1 {
                assert(v@.subrange(s as int, e as int) =~= "."@);
            }
            if n == 2 {
                assert(v@.subrange(s as int, e as int) =~= ".."@);
            }
        }
        return None;
    }
    proof {
        let name = v@.subrange(s as int, e as int);
        if n == 1 {
            assert(name[0] != "."@[0]);
        }
        if n == 2 {
            assert(name[0] != "."@[0] || name[1] != "."@[0]);
        }
        assert(name != "."@ && name != ".."@);
    }
    let (a, b) = first_word_bounds(&v, s, e);
    if a == b {
        None
    } else {
        Some(string_from(&v, a, b))
    }
}

/// Whether `url` is the entry of a machine.
pub fn is_entry_url(url: &UrlBuf) -> (b: bool)
    ensures
        b == (entry_slug_spec(url@) is Some),
{
    entry_slug_from_url(url).is_some()
}

} // verus!
