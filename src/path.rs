use vstd::prelude::*;

verus! {

/// Position of the last `c` in `s`, or -1 when `s` holds none.
pub open spec fn last_index(s: Seq<char>, c: char) -> int
    decreases s.len(),
{
    if s.len() == 0 {
        -1
    } else if s.last() == c {
        s.len() - 1
    } else {
        last_index(s.drop_last(), c)
    }
}

/// The directory part of a path: everything up to and including the last '/'.
pub open spec fn dir_of(p: Seq<char>) -> Seq<char> {
    p.subrange(0, last_index(p, '/') + 1)
}

/// The file name of a path: everything after the last '/'.
pub open spec fn name_of(p: Seq<char>) -> Seq<char> {
    p.subrange(last_index(p, '/') + 1, p.len() as int)
}

/// A path names a file when its last component is neither empty nor "." nor "..".
pub open spec fn has_name(p: Seq<char>) -> bool {
    let n = name_of(p);
    n.len() > 0 && n != seq!['.'] && n != seq!['.', '.']
}

/// A file name has an extension when it holds a '.' after its first character
/// (so ".bashrc" has none) and it is not "..".
pub open spec fn has_extension(n: Seq<char>) -> bool {
    n != seq!['.', '.'] && last_index(n, '.') > 0
}

/// The file name without its final extension.
pub open spec fn stem_of(n: Seq<char>) -> Seq<char> {
    if has_extension(n) {
        n.subrange(0, last_index(n, '.'))
    } else {
        n
    }
}

/// The final extension of a file name, without its '.'; empty when there is none.
pub open spec fn ext_of(n: Seq<char>) -> Seq<char> {
    if has_extension(n) {
        n.subrange(last_index(n, '.') + 1, n.len() as int)
    } else {
        Seq::empty()
    }
}

/// The extension of the file a path names.
pub open spec fn extension_of(p: Seq<char>) -> Seq<char> {
    ext_of(name_of(p))
}

/// A file name made of a stem and an extension; no separator for an empty extension.
pub open spec fn with_extension(stem: Seq<char>, ext: Seq<char>) -> Seq<char> {
    if ext.len() == 0 {
        stem
    } else {
        stem + seq!['.'] + ext
    }
}

/// The path with `suffix` added to the stem, in front of the extension.
pub open spec fn appended(p: Seq<char>, suffix: Seq<char>) -> Seq<char> {
    dir_of(p) + with_extension(stem_of(name_of(p)) + suffix, ext_of(name_of(p)))
}

/// The path with `prefix` put in front of the whole file name.
pub open spec fn prepended(p: Seq<char>, prefix: Seq<char>) -> Seq<char> {
    dir_of(p) + prefix + name_of(p)
}

/// `s` with every non-overlapping occurrence of `from`, taken from the left, replaced
/// by `to`. An empty `from` matches before every character and at the end.
pub open spec fn replace_all(s: Seq<char>, from: Seq<char>, to: Seq<char>) -> Seq<char>
    decreases s.len(),
{
    if from.len() > 0 && from.len() <= s.len() && s.subrange(0, from.len() as int) == from {
        to + replace_all(s.subrange(from.len() as int, s.len() as int), from, to)
    } else if s.len() == 0 {
        if from.len() == 0 {
            to
        } else {
            s
        }
    } else if from.len() == 0 {
        to + seq![s[0]] + replace_all(s.subrange(1, s.len() as int), from, to)
    } else {
        seq![s[0]] + replace_all(s.subrange(1, s.len() as int), from, to)
    }
}

/// The path with `from` replaced by `to` throughout its file name.
pub open spec fn replaced(p: Seq<char>, from: Seq<char>, to: Seq<char>) -> Seq<char> {
    dir_of(p) + replace_all(name_of(p), from, to)
}

/// What `last_index` finds: the position holds `c`, and no later position does.
proof fn lemma_last_index(s: Seq<char>, c: char)
    ensures
        -1 <= last_index(s, c) < s.len(),
        last_index(s, c) >= 0 ==> s[last_index(s, c)] == c,
        forall|j: int| last_index(s, c) < j < s.len() ==> s[j] != c,
    decreases s.len(),
{
    if s.len() > 0 && s.last() != c {
        lemma_last_index(s.drop_last(), c);
        assert forall|j: int| last_index(s, c) < j < s.len() implies s[j] != c by {
            if j < s.len() - 1 {
                assert(s.drop_last()[j] == s[j]);
            }
        }
    }
}

/// The position `k` is the last `c` in `s` (or -1 for none) when `s` holds no `c` after it.
proof fn lemma_last_index_is(s: Seq<char>, c: char, k: int)
    requires
        -1 <= k < s.len(),
        k >= 0 ==> s[k] == c,
        forall|j: int| k < j < s.len() ==> s[j] != c,
    ensures
        last_index(s, c) == k,
    decreases s.len(),
{
    if s.len() > 0 && k < s.len() - 1 {
        lemma_last_index_is(s.drop_last(), c, k);
    }
}

/// A path put together from the directory of `p` and a name without '/' splits back
/// into that directory and that name.
proof fn lemma_split_rejoined(p: Seq<char>, name: Seq<char>)
    requires
        !name.contains('/'),
    ensures
        dir_of(dir_of(p) + name) == dir_of(p),
        name_of(dir_of(p) + name) == name,
{
    lemma_last_index(p, '/');
    let k = last_index(p, '/');
    let q = dir_of(p) + name;
    assert forall|j: int| k < j < q.len() implies q[j] != '/' by {
        assert(q[j] == name[j - k - 1]);
    }
    if k >= 0 {
        assert(q[k] == p[k]);
    }
    lemma_last_index_is(q, '/', k);
    assert(dir_of(q) =~= dir_of(p));
    assert(name_of(q) =~= name);
}

/// Appending to the stem keeps the file where it was and keeps its extension: the new
/// file name splits into the old stem followed by `suffix`, and the old extension.
/// This fails only when `suffix` holds a '/', or when the name had no extension and the
/// lengthened stem reads as having one (as "a.b" does).
pub proof fn append_keeps_extension(p: Seq<char>, suffix: Seq<char>)
    requires
        !suffix.contains('/'),
        extension_of(p).len() > 0 || !has_extension(stem_of(name_of(p)) + suffix),
    ensures
        dir_of(appended(p, suffix)) == dir_of(p),
        stem_of(name_of(appended(p, suffix))) == stem_of(name_of(p)) + suffix,
        extension_of(appended(p, suffix)) == extension_of(p),
{
    let n = name_of(p);
    let s = stem_of(n);
    let e = ext_of(n);
    let m = with_extension(s + suffix, e);
    lemma_last_index(p, '/');
    lemma_last_index(n, '.');
    assert(!n.contains('/')) by {
        assert forall|j: int| 0 <= j < n.len() implies n[j] != '/' by {
            assert(n[j] == p[last_index(p, '/') + 1 + j]);
        }
    }
    assert(!m.contains('/')) by {
        assert forall|j: int| 0 <= j < m.len() implies m[j] != '/' by {
            if j < s.len() {
                assert(m[j] == n[j]);
            } else if j < s.len() + suffix.len() {
                assert(m[j] == suffix[j - s.len()]);
            } else if j > s.len() + suffix.len() {
                assert(m[j] == n[j - suffix.len()]);
            }
        }
    }
    lemma_split_rejoined(p, m);
    if e.len() > 0 {
        let d = (s.len() + suffix.len()) as int;
        assert(m[d] == '.');
        assert forall|j: int| d < j < m.len() implies m[j] != '.' by {
            assert(m[j] == n[j - suffix.len()]);
        }
        lemma_last_index_is(m, '.', d);
        assert(m != seq!['.', '.']) by {
            assert(m.len() != 2 || m[0] != '.' || m[1] != '.');
        }
        assert(stem_of(m) =~= s + suffix);
        assert(ext_of(m) =~= e);
    }
}

/// A file path held as its characters.
#[derive(Clone, Debug, PartialEq, Eq)]
pub struct FilePath {
    chars: Vec<char>,
}

impl View for FilePath {
    type V = Seq<char>;

    closed spec fn view(&self) -> Seq<char> {
        self.chars@
    }
}

/// The characters of `s`.
pub(crate) fn chars_of(s: &str) -> (r: Vec<char>)
    ensures
        r@ == s@,
{
    let n = s.unicode_len();
    let mut r: Vec<char> = Vec::new();
    let mut i: usize = 0;
    while i < n
        invariant
            n == s@.len(),
            i <= n,
            r@ == s@.subrange(0, i as int),
        decreases n - i,
    {
        r.push(s.get_char(i));
        i = i + 1;
    }
    r
}

/// Adds `b[from..to]` to the end of `a`.
fn push_range(a: &mut Vec<char>, b: &Vec<char>, from: usize, to: usize)
    requires
        from <= to <= b.len(),
    ensures
        final(a)@ == old(a)@ + b@.subrange(from as int, to as int),
{
    let mut i: usize = from;
    while i < to
        invariant
            from <= i <= to <= b.len(),
            a@ == old(a)@ + b@.subrange(from as int, i as int),
        decreases to - i,
    {
        a.push(b[i]);
        i = i + 1;
        assert(a@ =~= old(a)@ + b@.subrange(from as int, i as int));
    }
}

/// One past the position of the last `c` in `v`; zero when `v` holds none.
fn after_last(v: &Vec<char>, c: char) -> (r: usize)
    ensures
        r == last_index(v@, c) + 1,
{
    let mut i: usize = v.len();
    while i > 0 && v[i - 1] != c
        invariant
            i <= v.len(),
            forall|j: int| i <= j < v.len() ==> v@[j] != c,
        decreases i,
    {
        i = i - 1;
    }
    proof {
        lemma_last_index_is(v@, c, i - 1);
    }
    i
}

/// True when `v` holds `pat` at position `at`.
fn matches_at(v: &Vec<char>, at: usize, pat: &Vec<char>) -> (r: bool)
    requires
        at + pat.len() <= v.len(),
    ensures
        r == (v@.subrange(at as int, at + pat.len()) == pat@),
{
    let mut i: usize = 0;
    while i < pat.len()
        invariant
            at + pat.len() <= v.len(),
            i <= pat.len(),
            v@.subrange(at as int, at + i) == pat@.subrange(0, i as int),
        decreases pat.len() - i,
    {
        if v[at + i] != pat[i] {
            assert(v@.subrange(at as int, at + pat.len())[i as int] != pat@[i as int]);
            return false;
        }
        i = i + 1;
        assert(v@.subrange(at as int, at + i) =~= pat@.subrange(0, i as int));
    }
    assert(pat@.subrange(0, i as int) =~= pat@);
    true
}

/// True when `a` and `b` hold the same characters.
pub(crate) fn same_chars(a: &Vec<char>, b: &Vec<char>) -> (r: bool)
    ensures
        r == (a@ == b@),
{
    if a.len() != b.len() {
        return false;
    }
    let r = matches_at(a, 0, b);
    assert(a@.subrange(0, b.len() as int) =~= a@);
    r
}

/// `name` with every occurrence of `from` replaced by `to`.
fn replace_chars(name: &Vec<char>, from: &Vec<char>, to: &Vec<char>) -> (r: Vec<char>)
    ensures
        r@ == replace_all(name@, from@, to@),
{
    let n = name.len();
    let mut out: Vec<char> = Vec::new();
    let mut i: usize = 0;
    assert(name@.subrange(0, n as int) =~= name@);
    while i < n
        invariant
            n == name.len(),
            i <= n,
            out@ + replace_all(name@.subrange(i as int, n as int), from@, to@) == replace_all(
                name@,
                from@,
                to@,
            ),
        decreases n - i,
    {
        let ghost rest = name@.subrange(i as int, n as int);
        let ghost old_out = out@;
        if from.len() > 0 && from.len() <= n - i && matches_at(name, i, from) {
            assert(rest.subrange(0, from.len() as int) =~= name@.subrange(
                i as int,
                i + from.len(),
            ));
            assert(rest.subrange(from.len() as int, rest.len() as int) =~= name@.subrange(
                i + from.len(),
                n as int,
            ));
            push_range(&mut out, to, 0, to.len());
            i = i + from.len();
            assert(to@.subrange(0, to.len() as int) =~= to@);
            assert(out@ + replace_all(name@.subrange(i as int, n as int), from@, to@) =~= old_out
                + replace_all(rest, from@, to@));
        } else {
            if from.len() > 0 && from.len() <= n - i {
                assert(rest.subrange(0, from.len() as int) =~= name@.subrange(
                    i as int,
                    i + from.len(),
                ));
            }
            assert(rest.subrange(1, rest.len() as int) =~= name@.subrange(i + 1, n as int));
            if from.len() == 0 {
                push_range(&mut out, to, 0, to.len());
                assert(to@.subrange(0, to.len() as int) =~= to@);
            }
            out.push(name[i]);
            i = i + 1;
            assert(out@ + replace_all(name@.subrange(i as int, n as int), from@, to@) =~= old_out
                + replace_all(rest, from@, to@));
        }
    }
    assert(name@.subrange(n as int, n as int) =~= Seq::<char>::empty());
    if from.len() == 0 {
        push_range(&mut out, to, 0, to.len());
        assert(to@.subrange(0, to.len() as int) =~= to@);
    }
    assert(out@ =~= replace_all(name@, from@, to@));
    out
}

impl FilePath {
    /// The path written as `s`.
    pub fn new(s: &str) -> (r: FilePath)
        ensures
            r@ == s@,
    {
        FilePath { chars: chars_of(s) }
    }

    /// A second path with the same characters.
    pub fn duplicate(&self) -> (r: FilePath)
        ensures
            r@ == self@,
    {
        let mut chars: Vec<char> = Vec::new();
        push_range(&mut chars, &self.chars, 0, self.chars.len());
        assert(self.chars@.subrange(0, self.chars.len() as int) =~= self.chars@);
        FilePath { chars }
    }

    /// The characters of the path.
    pub fn chars(&self) -> (r: &Vec<char>)
        ensures
            r@ == self@,
    {
        &self.chars
    }

    /// The position just after the last '/', where the file name starts.
    fn name_start(&self) -> (r: usize)
        ensures
            r == last_index(self@, '/') + 1,
            r <= self@.len(),
    {
        proof {
            lemma_last_index(self@, '/');
        }
        after_last(&self.chars, '/')
    }

    /// True when the path names a file.
    pub fn has_name(&self) -> (r: bool)
        ensures
            r == has_name(self@),
    {
        let start = self.name_start();
        let n = self.chars.len() - start;
        let ghost name = name_of(self@);
        assert(name.len() == n);
        if n == 0 {
            return false;
        }
        if n == 1 && self.chars[start] == '.' {
            assert(name =~= seq!['.']);
            return false;
        }
        if n == 2 && self.chars[start] == '.' && self.chars[start + 1] == '.' {
            assert(name =~= seq!['.', '.']);
            return false;
        }
        if n == 1 {
            assert(name[0] != seq!['.'][0]);
        }
        if n == 2 {
            assert(name[0] != seq!['.', '.'][0] || name[1] != seq!['.', '.'][1]);
        }
        true
    }

    /// The file name of the path.
    pub fn file_name(&self) -> (r: Vec<char>)
        ensures
            r@ == name_of(self@),
    {
        let start = self.name_start();
        let mut r: Vec<char> = Vec::new();
        push_range(&mut r, &self.chars, start, self.chars.len());
        r
    }

    /// The extension of the file the path names, without its '.'.
    pub fn extension(&self) -> (r: Vec<char>)
        ensures
            r@ == extension_of(self@),
    {
        let name = self.file_name();
        let dot = after_last(&name, '.');
        proof {
            lemma_last_index(name@, '.');
        }
        let mut r: Vec<char> = Vec::new();
        let is_dotdot = name.len() == 2 && name[0] == '.' && name[1] == '.';
        assert(is_dotdot == (name@ == seq!['.', '.'])) by {
            if name@ == seq!['.', '.'] {
                assert(name@[0] == seq!['.', '.'][0] && name@[1] == seq!['.', '.'][1]);
            }
            if is_dotdot {
                assert(name@ =~= seq!['.', '.']);
            }
        }
        if !is_dotdot && dot > 1 {
            push_range(&mut r, &name, dot, name.len());
        } else {
            assert(r@ =~= Seq::<char>::empty());
        }
        r
    }

    /// The path with `suffix` added to the stem of its file name, in front of the
    /// extension.
    pub fn appended(&self, suffix: &str) -> (r: FilePath)
        ensures
            r@ == appended(self@, suffix@),
    {
        let start = self.name_start();
        let name = self.file_name();
        let dot = after_last(&name, '.');
        proof {
            lemma_last_index(name@, '.');
        }
        let is_dotdot = name.len() == 2 && name[0] == '.' && name[1] == '.';
        assert(is_dotdot == (name@ == seq!['.', '.'])) by {
            if name@ == seq!['.', '.'] {
                assert(name@[0] == seq!['.', '.'][0] && name@[1] == seq!['.', '.'][1]);
            }
            if is_dotdot {
                assert(name@ =~= seq!['.', '.']);
            }
        }
        let stem_end: usize = if !is_dotdot && dot > 1 {
            dot - 1
        } else {
            name.len()
        };
        let mut out: Vec<char> = Vec::new();
        push_range(&mut out, &self.chars, 0, start);
        push_range(&mut out, &name, 0, stem_end);
        let suffix_chars = chars_of(suffix);
        push_range(&mut out, &suffix_chars, 0, suffix_chars.len());
        assert(suffix_chars@.subrange(0, suffix_chars.len() as int) =~= suffix@);
        if stem_end < name.len() && dot < name.len() {
            out.push('.');
            push_range(&mut out, &name, dot, name.len());
        }
        let ghost n = name_of(self@);
        assert(stem_of(n) =~= name@.subrange(0, stem_end as int));
        assert(out@ =~= appended(self@, suffix@));
        FilePath { chars: out }
    }

    /// The path with `prefix` put in front of its whole file name.
    pub fn prepended(&self, prefix: &str) -> (r: FilePath)
        ensures
            r@ == prepended(self@, prefix@),
    {
        let start = self.name_start();
        let mut out: Vec<char> = Vec::new();
        push_range(&mut out, &self.chars, 0, start);
        let prefix_chars = chars_of(prefix);
        push_range(&mut out, &prefix_chars, 0, prefix_chars.len());
        push_range(&mut out, &self.chars, start, self.chars.len());
        assert(prefix_chars@.subrange(0, prefix_chars.len() as int) =~= prefix@);
        assert(out@ =~= prepended(self@, prefix@));
        FilePath { chars: out }
    }

    /// The path with every occurrence of `from` in its file name replaced by `to`.
    pub fn replaced(&self, from: &Vec<char>, to: &Vec<char>) -> (r: FilePath)
        ensures
            r@ == replaced(self@, from@, to@),
    {
        let start = self.name_start();
        let name = self.file_name();
        let new_name = replace_chars(&name, from, to);
        let mut out: Vec<char> = Vec::new();
        push_range(&mut out, &self.chars, 0, start);
        push_range(&mut out, &new_name, 0, new_name.len());
        assert(new_name@.subrange(0, new_name.len() as int) =~= new_name@);
        assert(out@ =~= replaced(self@, from@, to@));
        FilePath { chars: out }
    }
}

} // verus!
