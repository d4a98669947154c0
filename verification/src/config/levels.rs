//! Level authoring: the generic per-level config shape, the `level_<n>.json`
//! file-name convention, and the `--levels` command-line flag. Reading the
//! directory and parsing the files are the host's job.

use vstd::prelude::*;

use super::{opt_view, split_flag, take_flag, views};
use crate::chars::{parse_usize, parsed_usize, starts_with, str_eq, tail_from};
use crate::session::LevelSpec;

verus! {

/// One authored level: its display name and difficulty, the reusable
/// per-level rules, and the game's own content.
#[derive(Debug, Clone, PartialEq, Eq)]
pub struct LevelConfig<Content> {
    pub name: String,
    pub difficulty: String,
    pub rules: LevelSpec,
    pub content: Content,
}

/// Why a level directory could not be used.
#[derive(Debug, Clone, PartialEq, Eq)]
pub enum LevelLoadError {
    /// The directory holds no `level_<n>.json` files.
    NoLevels { dir: String },
    /// `--levels` was given without a directory.
    MissingDir,
}

/// What `Path::extension` gives for a path (as text, when it is valid text).
pub uninterp spec fn path_extension(p: Seq<char>) -> Option<Seq<char>>;

/// What `Path::file_stem` gives for a path (as text, when it is valid text).
pub uninterp spec fn path_stem(p: Seq<char>) -> Option<Seq<char>>;

/// `Path::extension` of `p`, as an owned string. Its result depends on the
/// path text alone; std's path-splitting rules are not restated here.
#[verifier::external_body]
fn extension_of(p: &str) -> (e: Option<String>)
    ensures
        opt_view(e) == path_extension(p@),
{
    std::path::Path::new(p).extension().and_then(|e| e.to_str()).map(|e| e.to_owned())
}

/// `Path::file_stem` of `p`, as an owned string. Its result depends on the
/// path text alone; std's path-splitting rules are not restated here.
#[verifier::external_body]
fn stem_of(p: &str) -> (e: Option<String>)
    ensures
        opt_view(e) == path_stem(p@),
{
    std::path::Path::new(p).file_stem().and_then(|e| e.to_str()).map(|e| e.to_owned())
}

/// The index a level file's name carries: `level_<n>.json` gives `n`.
pub open spec fn spec_level_index(path: Seq<char>) -> Option<usize> {
    index_from_parts(path_extension(path), path_stem(path))
}

/// The index named by a file's extension and stem: a `json` extension and a
/// `level_<n>` stem give `n`.
pub open spec fn index_from_parts(ext: Option<Seq<char>>, stem: Option<Seq<char>>) -> Option<usize> {
    if ext == Some("json"@) {
        match stem {
            Some(stem) => if "level_"@.is_prefix_of(stem) {
                parsed_usize(stem.skip(6))
            } else {
                None
            },
            None => None,
        }
    } else {
        None
    }
}

/// An optional borrowed string, as optional text.
pub open spec fn opt_str(o: Option<&str>) -> Option<Seq<char>> {
    match o {
        Some(s) => Some(s@),
        None => None,
    }
}

/// The index of a `level_<n>.json` file, or `None` for any other path.
pub fn level_index(path: &str) -> (r: Option<usize>)
    ensures
        r == spec_level_index(path@),
{
    let ext = extension_of(path);
    let stem = stem_of(path);
    let e = match &ext {
        Some(e) => Some(e.as_str()),
        None => None,
    };
    let t = match &stem {
        Some(t) => Some(t.as_str()),
        None => None,
    };
    level_index_of(e, t)
}

/// The index a file with extension `ext` and stem `stem` carries:
/// `Some(n)` for a `json` file whose stem is `level_` then the decimal `n`,
/// `None` otherwise.
pub fn level_index_of(ext: Option<&str>, stem: Option<&str>) -> (r: Option<usize>)
    ensures
        r == index_from_parts(opt_str(ext), opt_str(stem)),
{
    proof {
        reveal_strlit("level_");
    }
    match ext {
        Some(e) => {
            if !str_eq(e, "json") {
                return None;
            }
        },
        None => {
            return None;
        },
    }
    match stem {
        Some(stem) => {
            if starts_with(stem, "level_") {
                let index = tail_from(stem, 6);
                parse_usize(index.as_str())
            } else {
                None
            }
        },
        None => None,
    }
}

/// Extract `--levels <dir>` / `--levels=<dir>` from the command-line
/// arguments, returning the directory and the remaining arguments in order.
pub fn take_levels_flag(args: Vec<String>) -> (r: Result<(Option<String>, Vec<String>), LevelLoadError>)
    ensures
        match r {
            Ok((dir, rest)) => split_flag(views(args@), "--levels="@, "--levels"@, None, Seq::empty())
                == Some((opt_view(dir), views(rest@))),
            Err(e) => split_flag(views(args@), "--levels="@, "--levels"@, None, Seq::empty()) is None
                && e is MissingDir,
        },
{
    match take_flag(args, "--levels=", "--levels") {
        Some((dir, rest)) => Ok((dir, rest)),
        None => Err(LevelLoadError::MissingDir),
    }
}

/// The level files among `paths`, each with its index, in the order given.
pub open spec fn level_entries(paths: Seq<Seq<char>>) -> Seq<(usize, Seq<char>)>
    decreases paths.len(),
{
    if paths.len() == 0 {
        Seq::empty()
    } else {
        let rest = level_entries(paths.drop_last());
        match spec_level_index(paths.last()) {
            Some(i) => rest.push((i, paths.last())),
            None => rest,
        }
    }
}

/// Entries in order of their index.
pub open spec fn sorted_by_index(s: Seq<(usize, Seq<char>)>) -> bool {
    forall|a: int, b: int| 0 <= a <= b < s.len() ==> (#[trigger] s[a]).0 <= (#[trigger] s[b]).0
}

/// Indexed paths, as text.
pub open spec fn entry_views(s: Seq<(usize, String)>) -> Seq<(usize, Seq<char>)> {
    s.map_values(|e: (usize, String)| (e.0, e.1@))
}

/// The level files of directory `dir`, given the paths it holds: each
/// `level_<n>.json` with its `n`, ordered by `n`; other paths are left out.
/// [`LevelLoadError::NoLevels`] when none of them is a level file.
pub fn order_level_files(dir: &str, paths: &Vec<String>) -> (r: Result<Vec<(usize, String)>, LevelLoadError>)
    ensures
        match r {
            Ok(v) => {
                &&& level_entries(views(paths@)).len() > 0
                &&& sorted_by_index(entry_views(v@))
                &&& entry_views(v@).to_multiset() == level_entries(views(paths@)).to_multiset()
            },
            Err(e) => {
                &&& level_entries(views(paths@)).len() == 0
                &&& e matches LevelLoadError::NoLevels { dir: d } && d@ == dir@
            },
        },
{
    let mut out: Vec<(usize, String)> = Vec::new();
    let mut j: usize = 0;
    proof {
        assert(entry_views(out@) =~= Seq::<(usize, Seq<char>)>::empty());
        assert(views(paths@).take(0) =~= Seq::<Seq<char>>::empty());
        assert(entry_views(out@) == level_entries(views(paths@).take(0)));
    }
    while j < paths.len()
        invariant
            j <= paths@.len(),
            sorted_by_index(entry_views(out@)),
            entry_views(out@).to_multiset() == level_entries(views(paths@).take(j as int)).to_multiset(),
            entry_views(out@).len() == level_entries(views(paths@).take(j as int)).len(),
        decreases paths@.len() - j,
    {
        let ghost before = entry_views(out@);
        proof {
            assert(views(paths@).take(j + 1).drop_last() =~= views(paths@).take(j as int));
            assert(views(paths@).take(j + 1).last() == paths@[j as int]@);
        }
        match level_index(paths[j].as_str()) {
            Some(i) => {
                let mut pos: usize = out.len();
                let ghost snapshot = out@;
                while pos > 0 && out[pos - 1].0 > i
                    invariant
                        pos <= out@.len(),
                        out@ == snapshot,
                        forall|k: int| pos <= k < out@.len() ==> (#[trigger] out@[k]).0 > i,
                    decreases pos,
                {
                    pos = pos - 1;
                }
                let ghost ins = (i, paths@[j as int]@);
                out.insert(pos, (i, paths[j].clone()));
                proof {
                    assert(entry_views(out@) =~= before.insert(pos as int, ins));
                    let after = entry_views(out@);
                    assert(forall|k: int| 0 <= k < pos ==> after[k] == before[k]);
                    assert(after[pos as int] == ins);
                    assert(forall|k: int| pos < k < after.len() ==> after[k] == before[k - 1]);
                    assert(forall|k: int| pos <= k < before.len() ==> before[k].0 > i);
                    assert(pos > 0 ==> before[pos - 1].0 <= i);
                    assert forall|a: int, b: int|
                        0 <= a <= b < after.len() implies (#[trigger] after[a]).0 <= (
                        #[trigger] after[b]).0 by {
                        if a < pos && b < pos {
                            assert(before[a].0 <= before[b].0);
                        } else if a < pos && b == pos {
                            assert(before[a].0 <= before[pos - 1].0);
                        } else if a < pos && b > pos {
                            assert(before[a].0 <= before[b - 1].0);
                        } else if a == pos && b > pos {
                            assert(before[b - 1].0 > i);
                        } else if a > pos {
                            assert(before[a - 1].0 <= before[b - 1].0);
                        }
                    }
                    assert(level_entries(views(paths@).take(j + 1)) == level_entries(
                        views(paths@).take(j as int),
                    ).push(ins));
                    let le = level_entries(views(paths@).take(j as int));
                    assert(le.push(ins) =~= le.insert(le.len() as int, ins));
                    vstd::seq_lib::to_multiset_insert(le, le.len() as int, ins);
                    vstd::seq_lib::to_multiset_insert(before, pos as int, ins);
                }
            },
            None => {
                proof {
                    assert(level_entries(views(paths@).take(j + 1)) == level_entries(
                        views(paths@).take(j as int),
                    ));
                }
            },
        }
        j = j + 1;
    }
    proof {
        assert(views(paths@).take(paths@.len() as int) =~= views(paths@));
    }
    if out.len() == 0 {
        Err(LevelLoadError::NoLevels { dir: dir.to_owned() })
    } else {
        Ok(out)
    }
}

} // verus!
