use vstd::prelude::*;

use crate::args::{starts_with_dot, Args};
use crate::command::{extension_filter, filter, has_extension_in};
use crate::path::{appended, chars_of, extension_of, has_name, prepended, replaced, FilePath};

verus! {

/// An extension with one leading '.' taken off.
pub open spec fn normalized(e: Seq<char>) -> Seq<char> {
    if starts_with_dot(e) {
        e.subrange(1, e.len() as int)
    } else {
        e
    }
}

/// True when the path's extension is one of `exts` once they are normalized.
pub open spec fn has_requested_extension(exts: Seq<String>, p: Seq<char>) -> bool {
    exists|j: int| 0 <= j < exts.len() && normalized(exts[j]@) == extension_of(p)
}

/// The test that the extension stage keeps a path by.
pub open spec fn requested_filter(exts: Seq<String>) -> spec_fn(FilePath) -> bool {
    |p: FilePath| has_requested_extension(exts, p@)
}

/// The entries that the changes apply to: those with a requested extension, or all of
/// them when no extension was requested.
pub open spec fn selected(args: Args, entries: Seq<FilePath>) -> Seq<FilePath> {
    match args.extensions {
        Some(exts) => if exts@.len() > 0 {
            entries.filter(requested_filter(exts@))
        } else {
            entries
        },
        None => entries,
    }
}

/// The path after the prepend and append stages.
pub open spec fn renamed(args: Args, p: Seq<char>) -> Seq<char> {
    let a = match args.prefix {
        Some(prefix) => prepended(p, prefix@),
        None => p,
    };
    match args.suffix {
        Some(suffix) => appended(a, suffix@),
        None => a,
    }
}

/// The path after the replace stage; none when the path names no file by then.
pub open spec fn after_replace(args: Args, p: Seq<char>) -> Option<Seq<char>> {
    match args.replace {
        Some(pair) => if has_name(p) {
            Some(replaced(p, pair.0@, pair.1@))
        } else {
            None
        },
        None => Some(p),
    }
}

/// The path after the delete stage; none when the path names no file by then.
pub open spec fn after_delete(args: Args, p: Seq<char>) -> Option<Seq<char>> {
    match args.delete {
        Some(pattern) => if has_name(p) {
            Some(replaced(p, pattern@, Seq::empty()))
        } else {
            None
        },
        None => Some(p),
    }
}

/// The new path for `p` after every requested stage, in the fixed order prepend,
/// append, replace, delete; none when a stage drops it.
pub open spec fn target_of(args: Args, p: Seq<char>) -> Option<Seq<char>> {
    match after_replace(args, renamed(args, p)) {
        Some(q) => after_delete(args, q),
        None => None,
    }
}

/// The test that an entry stays in the plan: it names a file and no stage drops it.
pub open spec fn planned(args: Args) -> spec_fn(FilePath) -> bool {
    |p: FilePath| has_name(p@) && target_of(args, p@) is Some
}

/// An ordered list of renames: `spec_sources()[i]` is to be renamed to
/// `spec_targets()[i]`. Each entry holds a path and its new path together, so the two
/// lists stay index-aligned.
pub struct RenamePlan {
    pairs: Vec<(FilePath, FilePath)>,
}

impl RenamePlan {
    /// The paths to rename, in order.
    pub closed spec fn spec_sources(&self) -> Seq<FilePath> {
        self.pairs@.map_values(|e: (FilePath, FilePath)| e.0)
    }

    /// The new paths, in the order of the paths they replace.
    pub closed spec fn spec_targets(&self) -> Seq<FilePath> {
        self.pairs@.map_values(|e: (FilePath, FilePath)| e.1)
    }

    /// The number of renames in the plan.
    pub fn len(&self) -> (r: usize)
        ensures
            r == self.spec_sources().len(),
            r == self.spec_targets().len(),
    {
        self.pairs.len()
    }

    /// True when the plan has no rename.
    pub fn is_empty(&self) -> (r: bool)
        ensures
            r == (self.spec_targets().len() == 0),
    {
        self.pairs.len() == 0
    }

    /// The path that rename `i` starts from.
    pub fn source(&self, i: usize) -> (r: &FilePath)
        requires
            i < self.spec_sources().len(),
        ensures
            *r == self.spec_sources()[i as int],
    {
        &self.pairs[i].0
    }

    /// The new path of rename `i`.
    pub fn target(&self, i: usize) -> (r: &FilePath)
        requires
            i < self.spec_targets().len(),
        ensures
            *r == self.spec_targets()[i as int],
    {
        &self.pairs[i].1
    }
}

/// Every plan pairs each path to rename with exactly one new path.
pub proof fn plan_is_aligned(plan: RenamePlan)
    ensures
        plan.spec_sources().len() == plan.spec_targets().len(),
{
}

/// The extension `e` with one leading '.' taken off.
pub fn normalize_extension(e: &str) -> (r: String)
    ensures
        r@ == normalized(e@),
{
    let n = e.unicode_len();
    if n > 0 && e.get_char(0) == '.' {
        e.substring_char(1, n).to_owned()
    } else {
        e.to_owned()
    }
}

/// The new path for `p`, or none when a stage drops it.
fn target_for(
    args: &Args,
    replace_chars: &Option<(Vec<char>, Vec<char>)>,
    delete_chars: &Option<Vec<char>>,
    p: &FilePath,
) -> (r: Option<FilePath>)
    requires
        args.replace is Some <==> replace_chars is Some,
        args.replace matches Some(pair) ==> (replace_chars matches Some(rc) && rc.0@ == pair.0@
            && rc.1@ == pair.1@),
        args.delete is Some <==> delete_chars is Some,
        args.delete matches Some(pattern) ==> delete_chars->0@ == pattern@,
    ensures
        r is Some <==> target_of(*args, p@) is Some,
        r matches Some(t) ==> t@ == target_of(*args, p@)->0,
{
    let a = match &args.prefix {
        Some(prefix) => p.prepended(prefix.as_str()),
        None => p.duplicate(),
    };
    let b = match &args.suffix {
        Some(suffix) => a.appended(suffix.as_str()),
        None => a,
    };
    let c = match replace_chars {
        Some(pair) => {
            if !b.has_name() {
                return None;
            }
            b.replaced(&pair.0, &pair.1)
        },
        None => b,
    };
    match delete_chars {
        Some(pattern) => {
            if !c.has_name() {
                return None;
            }
            let empty: Vec<char> = Vec::new();
            Some(c.replaced(pattern, &empty))
        },
        None => Some(c),
    }
}

/// Builds the plan for `entries`: keeps those with a requested extension (all of them
/// when none is requested), then works out each new path by the requested stages in
/// the fixed order prepend, append, replace, delete. The sources are the entries
/// before any change. An entry that names no file, or that a stage drops, is left out
/// together with its new path.
pub fn build_plan(entries: Vec<FilePath>, args: &Args) -> (plan: RenamePlan)
    ensures
        plan.spec_sources() == selected(*args, entries@).filter(planned(*args)),
        forall|i: int|
            0 <= i < plan.spec_targets().len() ==> #[trigger] plan.spec_targets()[i]@ == target_of(
                *args,
                plan.spec_sources()[i]@,
            )->0,
{
    let candidates = match &args.extensions {
        Some(exts) => {
            if exts.len() > 0 {
                let mut normal: Vec<String> = Vec::new();
                for j in 0..exts.len()
                    invariant
                        normal.len() == j,
                        forall|k: int| 0 <= k < j ==> #[trigger] normal[k]@ == normalized(exts[k]@),
                {
                    normal.push(normalize_extension(exts[j].as_str()));
                }
                assert(extension_filter(normal@) =~= requested_filter(exts@)) by {
                    assert forall|p: FilePath|
                        #[trigger] extension_filter(normal@)(p) == requested_filter(exts@)(p) by {
                        if has_extension_in(normal@, p@) {
                            let j = choose|j: int| 0 <= j < normal@.len() && normal@[j]@ == extension_of(p@);
                            assert(normalized(exts@[j]@) == extension_of(p@));
                        }
                        if has_requested_extension(exts@, p@) {
                            let j = choose|j: int| 0 <= j < exts@.len() && normalized(exts@[j]@) == extension_of(p@);
                            assert(normal@[j]@ == extension_of(p@));
                        }
                    }
                }
                filter(normal, entries)
            } else {
                entries
            }
        },
        None => entries,
    };
    let replace_chars = match &args.replace {
        Some(pair) => Some((chars_of(pair.0.as_str()), chars_of(pair.1.as_str()))),
        None => None,
    };
    let delete_chars = match &args.delete {
        Some(pattern) => Some(chars_of(pattern.as_str())),
        None => None,
    };
    let ghost all = candidates@;
    assert(all == selected(*args, entries@));
    let mut pairs: Vec<(FilePath, FilePath)> = Vec::new();
    for p in it: candidates.into_iter()
        invariant
            args.replace is Some <==> replace_chars is Some,
            args.replace matches Some(pair) ==> (replace_chars matches Some(rc) && rc.0@ == pair.0@
                && rc.1@ == pair.1@),
            args.delete is Some <==> delete_chars is Some,
            args.delete matches Some(pattern) ==> delete_chars->0@ == pattern@,
            it.seq() == all,
            pairs@.map_values(|e: (FilePath, FilePath)| e.0) == all.subrange(0, it.index() as int).filter(
                planned(*args),
            ),
            forall|k: int|
                0 <= k < pairs.len() ==> #[trigger] pairs[k].1@ == target_of(
                    *args,
                    pairs[k].0@,
                )->0,
    {
        proof {
            reveal(Seq::filter);
            assert(all.subrange(0, it.index() + 1).drop_last() =~= all.subrange(
                0,
                it.index() as int,
            ));
        }
        let ghost before = pairs@;
        if p.has_name() {
            match target_for(args, &replace_chars, &delete_chars, &p) {
                Some(t) => {
                    pairs.push((p, t));
                    assert(pairs@.map_values(|e: (FilePath, FilePath)| e.0) =~= before.map_values(
                        |e: (FilePath, FilePath)| e.0,
                    ).push(p));
                },
                None => {},
            }
        }
    }
    assert(all.subrange(0, all.len() as int) =~= all);
    let plan = RenamePlan { pairs };
    assert(plan.spec_targets().len() == pairs.len());
    plan
}

} // verus!
