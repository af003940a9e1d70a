//! Line diffs between versions of a document, in unified format.

use vstd::prelude::*;

verus! {

/// How one line fares in a line diff.
#[derive(Debug, Clone, Copy, PartialEq, Eq, Structural)]
pub enum LineChange {
    Equal,
    Insert,
    Delete,
}

/// The lines of a diff of `old` against `new`, as `similar::TextDiff::from_lines`
/// computes it, each with how it fares.
pub uninterp spec fn line_changes_of(old: Seq<char>, new: Seq<char>) -> Seq<LineChange>;

/// The unified diff text that `similar` writes for `old` against `new` with
/// `radius` lines of context and the two given file headers.
pub uninterp spec fn unified_diff_of(
    old: Seq<char>,
    new: Seq<char>,
    radius: nat,
    old_header: Seq<char>,
    new_header: Seq<char>,
) -> Seq<char>;

/// Whether `diffy::Patch::from_str` parses the text as a patch.
pub uninterp spec fn patch_parses(patch: Seq<char>) -> bool;

/// What `diffy::apply` makes of `base` with the patch that `text` parses
/// to: the patched text, or nothing when the patch does not apply.
pub uninterp spec fn patch_applied_of(base: Seq<char>, text: Seq<char>) -> Option<Seq<char>>;

/// `similar::TextDiff::from_lines(old, new).iter_all_changes()`, each change
/// told by its tag. A text compared with itself has no inserted or deleted
/// line.
#[verifier::external_body]
fn line_changes(old: &str, new: &str) -> (changes: Vec<LineChange>)
    ensures
        changes@ == line_changes_of(old@, new@),
        old@ == new@ ==> forall|i: int| 0 <= i < changes@.len() ==> #[trigger] changes@[i] == LineChange::Equal,
{
    let diff = similar::TextDiff::from_lines(old, new);
    diff.iter_all_changes().map(|c| match c.tag() {
        similar::ChangeTag::Equal => LineChange::Equal,
        similar::ChangeTag::Insert => LineChange::Insert,
        similar::ChangeTag::Delete => LineChange::Delete,
    }).collect()
}

/// The unified diff that `similar` writes: `TextDiff::from_lines(old, new)`,
/// then `unified_diff()` with `context_radius(radius)` and
/// `header(old_header, new_header)`, as text.
#[verifier::external_body]
fn unified_diff(old: &str, new: &str, radius: usize, old_header: &str, new_header: &str) -> (text: String)
    ensures
        text@ == unified_diff_of(old@, new@, radius as nat, old_header@, new_header@),
{
    similar::TextDiff::from_lines(old, new).unified_diff().context_radius(radius).header(old_header, new_header).to_string()
}

/// Why a diff could not be applied.
#[derive(Debug, Clone, Copy, PartialEq, Eq, Structural)]
pub enum DiffError {
    /// The diff text is no patch.
    Parse,
    /// The patch does not fit the text it is applied to.
    Apply,
}

/// The patched text, or why there is none.
pub type PatchOutcome = Result<String, DiffError>;

/// Whether `r` is the error `e`.
pub open spec fn failed_with(r: Result<String, DiffError>, e: DiffError) -> bool {
    r matches Err(x) && x == e
}

/// `diffy::apply(base, &diffy::Patch::from_str(text)?)`: the patched text,
/// or which of the two steps failed.
#[verifier::external_body]
fn apply_patch(base: &str, text: &str) -> (patched: PatchOutcome)
    ensures
        patched.is_ok() ==> patch_parses(text@) && patch_applied_of(base@, text@) == Some(patched->Ok_0@),
        patched.is_err() ==> (patched->Err_0 == DiffError::Parse <==> !patch_parses(text@)),
        patched.is_err() ==> patch_applied_of(base@, text@) is None || !patch_parses(text@),
        patched.is_ok() || !patch_parses(text@) || patch_applied_of(base@, text@) is None,
{
    match diffy::Patch::from_str(text) {
        Ok(patch) => diffy::apply(base, &patch).map_err(|_| DiffError::Apply),
        Err(_) => Err(DiffError::Parse),
    }
}

/// A change to one document: its path, the unified diff and how many lines
/// it adds and deletes.
#[derive(Debug, Clone)]
pub struct FileDiff {
    pub path: String,
    pub unified_diff: String,
    pub additions: usize,
    pub deletions: usize,
}

/// Whether a line change is of the given kind.
pub open spec fn is_kind(kind: LineChange) -> spec_fn(LineChange) -> bool {
    |c: LineChange| c == kind
}

/// How many of `changes` are `kind`.
pub open spec fn count_kind(changes: Seq<LineChange>, kind: LineChange) -> nat {
    changes.filter(is_kind(kind)).len()
}

/// The number of lines of context around each change.
pub const CONTEXT_RADIUS: usize = 3;

impl FileDiff {
    /// The diff of `old_content` against `new_content` for the document at
    /// `path`, with headers `a/<path>` and `b/<path>` and three lines of
    /// context, and its counts of added and deleted lines.
    pub fn compute(path: &str, old_content: &str, new_content: &str) -> (d: Self)
        ensures
            d.path@ == path@,
            d.unified_diff@ == unified_diff_of(
                old_content@,
                new_content@,
                CONTEXT_RADIUS as nat,
                "a/"@ + path@,
                "b/"@ + path@,
            ),
            d.additions == count_kind(line_changes_of(old_content@, new_content@), LineChange::Insert),
            d.deletions == count_kind(line_changes_of(old_content@, new_content@), LineChange::Delete),
            old_content@ == new_content@ ==> d.additions == 0 && d.deletions == 0,
    {
        let mut old_header = String::from_str("a/");
        old_header.append(path);
        let mut new_header = String::from_str("b/");
        new_header.append(path);
        let unified = unified_diff(old_content, new_content, CONTEXT_RADIUS, old_header.as_str(), new_header.as_str());
        let changes = line_changes(old_content, new_content);
        let mut additions: usize = 0;
        let mut deletions: usize = 0;
        let mut i: usize = 0;
        while i < changes.len()
            invariant
                i <= changes@.len(),
                additions == count_kind(changes@.take(i as int), LineChange::Insert),
                deletions == count_kind(changes@.take(i as int), LineChange::Delete),
                additions <= i,
                deletions <= i,
            decreases changes@.len() - i,
        {
            proof {
                let s = changes@;
                assert(s.take(i + 1) =~= s.take(i as int).push(s[i as int]));
                s.take(i as int).lemma_filter_push(s[i as int], is_kind(LineChange::Insert));
                s.take(i as int).lemma_filter_push(s[i as int], is_kind(LineChange::Delete));
            }
            match changes[i] {
                LineChange::Insert => {
                    additions = additions + 1;
                },
                LineChange::Delete => {
                    deletions = deletions + 1;
                },
                LineChange::Equal => {},
            }
            i = i + 1;
        }
        proof {
            assert(changes@.take(changes@.len() as int) =~= changes@);
            if old_content@ == new_content@ {
                lemma_no_kind(changes@, LineChange::Insert);
                lemma_no_kind(changes@, LineChange::Delete);
            }
        }
        FileDiff { path: path.to_string(), unified_diff: unified, additions, deletions }
    }

    /// `old_content` with the diff applied; refused when the diff is no
    /// patch or does not fit.
    pub fn apply(&self, old_content: &str) -> (r: Result<String, DiffError>)
        ensures
            failed_with(r, DiffError::Parse) <==> !patch_parses(self.unified_diff@),
            failed_with(r, DiffError::Apply) <==> patch_parses(self.unified_diff@) && patch_applied_of(
                old_content@,
                self.unified_diff@,
            ) is None,
            r matches Ok(s) ==> patch_applied_of(old_content@, self.unified_diff@) == Some(s@),
    {
        apply_patch(old_content, self.unified_diff.as_str())
    }

    /// Whether the diff adds and deletes no line.
    pub fn is_empty(&self) -> (b: bool)
        ensures
            b == (self.additions == 0 && self.deletions == 0),
    {
        self.additions == 0 && self.deletions == 0
    }
}

proof fn lemma_no_kind(s: Seq<LineChange>, kind: LineChange)
    requires
        kind != LineChange::Equal,
        forall|i: int| 0 <= i < s.len() ==> #[trigger] s[i] == LineChange::Equal,
    ensures
        count_kind(s, kind) == 0,
    decreases s.len(),
{
    if s.len() > 0 {
        let t = s.drop_last();
        assert(s == t.push(s.last()));
        assert forall|i: int| 0 <= i < t.len() implies #[trigger] t[i] == LineChange::Equal by {
            assert(t[i] == s[i]);
        }
        lemma_no_kind(t, kind);
        t.lemma_filter_push(s.last(), is_kind(kind));
    } else {
        assert(s.filter(is_kind(kind)) =~= Seq::<LineChange>::empty()) by {
            reveal(Seq::filter);
        }
    }
}

} // verus!
