use vstd::prelude::*;

use crate::path::{appended, chars_of, extension_of, has_name, prepended, replaced, same_chars, FilePath};

verus! {

/// True when the path's extension is one of `exts`, compared exactly.
pub open spec fn has_extension_in(exts: Seq<String>, p: Seq<char>) -> bool {
    exists|j: int| 0 <= j < exts.len() && exts[j]@ == extension_of(p)
}

/// The test that `filter` keeps a path by.
pub open spec fn extension_filter(exts: Seq<String>) -> spec_fn(FilePath) -> bool {
    |p: FilePath| has_extension_in(exts, p@)
}

/// The test that a path names a file.
pub open spec fn names_file() -> spec_fn(FilePath) -> bool {
    |p: FilePath| has_name(p@)
}

/// The paths of `ps` that name a file, in order.
pub open spec fn named(ps: Seq<FilePath>) -> Seq<FilePath> {
    ps.filter(names_file())
}

/// Filtering a prefix one element longer adds at most that element.
proof fn lemma_filter_step(ps: Seq<FilePath>, i: int, f: spec_fn(FilePath) -> bool)
    requires
        0 <= i < ps.len(),
    ensures
        ps.subrange(0, i + 1).filter(f) == (if f(ps[i]) {
            ps.subrange(0, i).filter(f).push(ps[i])
        } else {
            ps.subrange(0, i).filter(f)
        }),
{
    reveal(Seq::filter);
    assert(ps.subrange(0, i + 1).drop_last() =~= ps.subrange(0, i));
}

/// Filtering twice by one test keeps what filtering once keeps.
proof fn lemma_filter_twice(s: Seq<FilePath>, f: spec_fn(FilePath) -> bool)
    ensures
        s.filter(f).filter(f) == s.filter(f),
    decreases s.len(),
{
    reveal(Seq::filter);
    if s.len() > 0 {
        lemma_filter_twice(s.drop_last(), f);
        let t = s.drop_last().filter(f);
        if f(s.last()) {
            assert(t.push(s.last()).drop_last() =~= t);
        }
    }
}

/// Filtering an already filtered list by the same extensions gives it back unchanged.
pub proof fn filter_is_idempotent(extensions: Seq<String>, paths: Seq<FilePath>)
    ensures
        paths.filter(extension_filter(extensions)).filter(extension_filter(extensions))
            == paths.filter(extension_filter(extensions)),
{
    lemma_filter_twice(paths, extension_filter(extensions));
}

/// Appends `suffix` to the stem of each path, in front of its extension.
pub fn append(suffix: &str, paths: &Vec<FilePath>) -> (r: Vec<FilePath>)
    ensures
        r.len() == paths.len(),
        forall|i: int| 0 <= i < r.len() ==> #[trigger] r[i]@ == appended(paths[i]@, suffix@),
{
    let mut entries: Vec<FilePath> = Vec::new();
    for i in 0..paths.len()
        invariant
            entries.len() == i,
            forall|k: int| 0 <= k < i ==> #[trigger] entries[k]@ == appended(paths[k]@, suffix@),
    {
        entries.push(paths[i].appended(suffix));
    }
    entries
}

/// Puts `prefix` in front of the whole file name of each path.
pub fn prepend(prefix: &str, paths: &Vec<FilePath>) -> (r: Vec<FilePath>)
    ensures
        r.len() == paths.len(),
        forall|i: int| 0 <= i < r.len() ==> #[trigger] r[i]@ == prepended(paths[i]@, prefix@),
{
    let mut entries: Vec<FilePath> = Vec::new();
    for i in 0..paths.len()
        invariant
            entries.len() == i,
            forall|k: int| 0 <= k < i ==> #[trigger] entries[k]@ == prepended(paths[k]@, prefix@),
    {
        entries.push(paths[i].prepended(prefix));
    }
    entries
}

/// True when the extension of `p` equals one of `exts`.
fn extension_matches(exts: &Vec<Vec<char>>, p: &FilePath) -> (r: bool)
    ensures
        r == exists|j: int| 0 <= j < exts.len() && exts[j]@ == extension_of(p@),
{
    let ext = p.extension();
    for j in 0..exts.len()
        invariant
            ext@ == extension_of(p@),
            forall|k: int| 0 <= k < j ==> exts[k]@ != extension_of(p@),
    {
        if same_chars(&exts[j], &ext) {
            return true;
        }
    }
    false
}

/// Keeps the paths whose extension is one of `extensions`, in their order.
pub fn filter(extensions: Vec<String>, paths: Vec<FilePath>) -> (r: Vec<FilePath>)
    ensures
        r@ == paths@.filter(extension_filter(extensions@)),
{
    let mut exts: Vec<Vec<char>> = Vec::new();
    for j in 0..extensions.len()
        invariant
            exts.len() == j,
            forall|k: int| 0 <= k < j ==> #[trigger] exts[k]@ == extensions[k]@,
    {
        exts.push(chars_of(extensions[j].as_str()));
    }
    let mut entries: Vec<FilePath> = Vec::new();
    let ghost all = paths@;
    for p in it: paths.into_iter()
        invariant
            exts.len() == extensions.len(),
            forall|k: int| 0 <= k < exts.len() ==> #[trigger] exts[k]@ == extensions[k]@,
            it.seq() == all,
            entries@ == all.subrange(0, it.index() as int).filter(extension_filter(extensions@)),
    {
        proof {
            lemma_filter_step(all, it.index() as int, extension_filter(extensions@));
        }
        let keep = extension_matches(&exts, &p);
        assert(extension_filter(extensions@)(p) == has_extension_in(extensions@, p@));
        assert(keep == extension_filter(extensions@)(p)) by {
            if keep {
                let j = choose|j: int| 0 <= j < exts.len() && exts[j]@ == extension_of(p@);
                assert(extensions@[j]@ == extension_of(p@));
            }
            if extension_filter(extensions@)(p) {
                let j = choose|j: int| 0 <= j < extensions@.len() && extensions@[j]@ == extension_of(p@);
                assert(exts[j]@ == extension_of(p@));
            }
        }
        if keep {
            entries.push(p);
        }
    }
    assert(all.subrange(0, all.len() as int) =~= all);
    entries
}

/// Replaces every occurrence of `from` by `to` in the file name of each path.
/// A path that names no file is left out.
pub fn replace(from: &str, to: &str, paths: Vec<FilePath>) -> (r: Vec<FilePath>)
    ensures
        r.len() == named(paths@).len(),
        forall|i: int|
            0 <= i < r.len() ==> #[trigger] r[i]@ == replaced(named(paths@)[i]@, from@, to@),
{
    let from_chars = chars_of(from);
    let to_chars = chars_of(to);
    let mut entries: Vec<FilePath> = Vec::new();
    for i in 0..paths.len()
        invariant
            from_chars@ == from@,
            to_chars@ == to@,
            entries.len() == paths@.subrange(0, i as int).filter(names_file()).len(),
            forall|k: int|
                0 <= k < entries.len() ==> #[trigger] entries[k]@ == replaced(
                    paths@.subrange(0, i as int).filter(names_file())[k]@,
                    from@,
                    to@,
                ),
    {
        proof {
            lemma_filter_step(paths@, i as int, names_file());
        }
        assert(names_file()(paths@[i as int]) == has_name(paths@[i as int]@));
        if paths[i].has_name() {
            entries.push(paths[i].replaced(&from_chars, &to_chars));
        }
    }
    assert(paths@.subrange(0, paths.len() as int) =~= paths@);
    entries
}

/// Removes every occurrence of `pattern` from the file name of each path: `replace`
/// with an empty replacement. A path that names no file is left out.
pub fn delete(pattern: &str, paths: Vec<FilePath>) -> (r: Vec<FilePath>)
    ensures
        r.len() == named(paths@).len(),
        forall|i: int|
            0 <= i < r.len() ==> #[trigger] r[i]@ == replaced(
                named(paths@)[i]@,
                pattern@,
                Seq::empty(),
            ),
{
    proof {
        reveal_strlit("");
    }
    assert(""@ =~= Seq::<char>::empty());
    replace(pattern, "", paths)
}

} // verus!
