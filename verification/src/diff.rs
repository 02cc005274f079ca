//! The model of a parsed unified diff, and the classification of patched
//! file paths against the index's directory convention.
//!
//! The library works on already-parsed patches: plain paths, hunks and
//! tagged lines. Turning raw diff text into these values is left to the
//! caller, because a diff parser may refuse — or abort on — adversarial
//! text, and every failure there must become the invalid-diff verdict
//! rather than reach the verified pipeline.
//!
//! A path whose first two `/`-separated components are the diff marker `b`
//! and the index root `github` is in scope. A path under the adjacent
//! `.github` directory yields a warning diagnostic; any other path yields a
//! failing diagnostic. Out-of-scope patches are dropped before extraction.

use vstd::prelude::*;
use crate::strutil::split_slash_spec;

verus! {

/// One line of a hunk, tagged with the kind of change it represents.
#[derive(Debug)]
pub enum Line {
    Added(String),
    Removed(String),
    Context(String),
}

/// The mathematical value of a [`Line`].
pub enum LineV {
    Added(Seq<char>),
    Removed(Seq<char>),
    Context(Seq<char>),
}

impl View for Line {
    type V = LineV;

    open spec fn view(&self) -> LineV {
        match self {
            Line::Added(t) => LineV::Added(t@),
            Line::Removed(t) => LineV::Removed(t@),
            Line::Context(t) => LineV::Context(t@),
        }
    }
}

impl Line {
    /// An identical copy.
    pub fn duplicate(&self) -> (l: Line)
        ensures
            l == *self,
    {
        match self {
            Line::Added(t) => Line::Added(t.clone()),
            Line::Removed(t) => Line::Removed(t.clone()),
            Line::Context(t) => Line::Context(t.clone()),
        }
    }
}

/// One contiguous area of difference within a file.
#[derive(Debug)]
pub struct Hunk {
    pub lines: Vec<Line>,
}

/// The mathematical value of a [`Hunk`].
pub struct HunkV {
    pub lines: Seq<LineV>,
}

impl View for Hunk {
    type V = HunkV;

    open spec fn view(&self) -> HunkV {
        HunkV { lines: self.lines@.map_values(|l: Line| l@) }
    }
}

/// One file's diff: the new-file path and the hunks that touch it.
#[derive(Debug)]
pub struct Patch {
    pub path: String,
    pub hunks: Vec<Hunk>,
}

/// The mathematical value of a [`Patch`].
pub struct PatchV {
    pub path: Seq<char>,
    pub hunks: Seq<HunkV>,
}

impl View for Patch {
    type V = PatchV;

    open spec fn view(&self) -> PatchV {
        PatchV { path: self.path@, hunks: self.hunks@.map_values(|h: Hunk| h@) }
    }
}

/// The views of a sequence of patches.
pub open spec fn patches_view(ps: Seq<Patch>) -> Seq<PatchV> {
    ps.map_values(|p: Patch| p@)
}

/// Is this path under the index root: do its first two `/`-separated
/// components read `b` then `github`?
pub open spec fn path_in_scope(path: Seq<char>) -> bool {
    let parts = split_slash_spec(path);
    parts[0] == "b"@ && parts.len() >= 2 && parts[1] == "github"@
}

/// The diagnostic recorded for an out-of-scope path: whether the
/// modification is benign (only paths under the adjacent `.github`
/// directory are), and the path as shown, with the leading `b/` stripped
/// when the marker was present.
pub open spec fn diag_for(path: Seq<char>) -> (bool, Seq<char>) {
    let parts = split_slash_spec(path);
    if parts[0] != "b"@ || parts.len() < 2 {
        (false, path)
    } else {
        (
            parts[1] == ".github"@,
            if path.len() >= 2 {
                path.subrange(2, path.len() as int)
            } else {
                path
            },
        )
    }
}

/// The patches that classification keeps: exactly the in-scope ones, in
/// their original order.
pub open spec fn classify_retained(ps: Seq<PatchV>) -> Seq<PatchV>
    decreases ps.len(),
{
    if ps.len() == 0 {
        Seq::empty()
    } else {
        let rest = classify_retained(ps.drop_last());
        if path_in_scope(ps.last().path) {
            rest.push(ps.last())
        } else {
            rest
        }
    }
}

/// The diagnostics that classification records: one per out-of-scope patch,
/// in their original order.
pub open spec fn classify_diags(ps: Seq<PatchV>) -> Seq<(bool, Seq<char>)>
    decreases ps.len(),
{
    if ps.len() == 0 {
        Seq::empty()
    } else {
        let rest = classify_diags(ps.drop_last());
        if path_in_scope(ps.last().path) {
            rest
        } else {
            rest.push(diag_for(ps.last().path))
        }
    }
}

/// Path scoping: classification keeps only patches whose path's first two
/// components are the diff marker and the index root. An out-of-scope patch
/// never appears among the retained patches (and so never reaches
/// extraction), and its diagnostic is recorded.
pub proof fn lemma_path_scoping(ps: Seq<PatchV>, i: int)
    requires
        0 <= i < ps.len(),
        !path_in_scope(ps[i].path),
    ensures
        forall|j: int|
            0 <= j < classify_retained(ps).len() ==> path_in_scope(
                #[trigger] classify_retained(ps)[j].path,
            ),
        !classify_retained(ps).contains(ps[i]),
        classify_diags(ps).contains(diag_for(ps[i].path)),
    decreases ps.len(),
{
    lemma_retained_in_scope(ps);
    if ps.len() > 0 {
        if i == ps.len() - 1 {
            assert(classify_diags(ps).last() == diag_for(ps[i].path));
        } else {
            assert(ps.drop_last()[i] == ps[i]);
            lemma_path_scoping(ps.drop_last(), i);
            let d = classify_diags(ps.drop_last());
            let k = choose|k: int| 0 <= k < d.len() && d[k] == diag_for(ps[i].path);
            assert(classify_diags(ps)[k] == diag_for(ps[i].path));
        }
    }
}

/// Every patch kept by classification is in scope.
pub proof fn lemma_retained_in_scope(ps: Seq<PatchV>)
    ensures
        forall|j: int|
            0 <= j < classify_retained(ps).len() ==> path_in_scope(
                #[trigger] classify_retained(ps)[j].path,
            ),
    decreases ps.len(),
{
    if ps.len() > 0 {
        lemma_retained_in_scope(ps.drop_last());
        let rest = classify_retained(ps.drop_last());
        if path_in_scope(ps.last().path) {
            assert forall|j: int| 0 <= j < classify_retained(ps).len() implies path_in_scope(
                #[trigger] classify_retained(ps)[j].path,
            ) by {
                if j < rest.len() {
                    assert(classify_retained(ps)[j] == rest[j]);
                } else {
                    assert(classify_retained(ps)[j] == ps.last());
                }
            }
        }
    }
}

} // verus!
