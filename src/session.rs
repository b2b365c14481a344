//! One session: the template, the commits of the opened repository, the
//! selected commit and the document built for it. Repository access and the
//! screen stay with the caller, which performs each returned `Action` and
//! hands the outcome back.
use vstd::prelude::*;
use crate::config::Config;
use crate::content::SlotKind;
use crate::diff::{RawDiffLine, decoded, raws_view, segmented};
use crate::document::{DocView, Document, built, empty_doc};
use crate::labeler::CommitLabeler;

verus! {

pub open spec fn is_hex_digit(c: char) -> bool {
    ('0' <= c && c <= '9') || ('a' <= c && c <= 'f') || ('A' <= c && c <= 'F')
}

/// Text that names a commit: one to forty hexadecimal digits.
pub open spec fn is_oid_text(s: Seq<char>) -> bool {
    &&& 0 < s.len() <= 40
    &&& forall|i: int| 0 <= i < s.len() ==> is_hex_digit(#[trigger] s[i])
}

/// Relies on git2::Oid::from_str, which accepts one to forty hexadecimal
/// digits (either case) and refuses everything else.
#[verifier::external_body]
fn parses_as_oid(s: &str) -> (r: bool)
    ensures
        r == is_oid_text(s@),
{
    git2::Oid::from_str(s).is_ok()
}

/// What the user did.
#[derive(Clone, Debug)]
pub enum Message {
    OnVertResize(u16),
    SearchInputChanged(String),
    CommitIDSelected(String),
    HeadingInputChanged(usize, String),
    SubheadingInputChanged(usize, String),
    ParagraphInputChanged(usize, String),
    RepoButtonPressed(String),
    ExportButtonPressed,
}

/// What the caller is to do next.
#[derive(Clone, Debug)]
pub enum Action {
    Nothing,
    /// List the directories under this path and hand them to `set_search_results`.
    ListDirectories(String),
    /// Open the repository at this path, hand the outcome to
    /// `repository_opened`, then walk its commits with `record_commit`.
    OpenRepository(String),
    /// Diff this commit (the head when absent) against its first parent and
    /// hand the lines to `write_content`.
    BuildCommit(Option<String>),
    /// Write this text out.
    Export(String),
}

/// Why a build or an export failed.
#[derive(Clone, Copy, Debug, PartialEq, Eq, Structural)]
pub enum BuildError {
    RepositoryOpen,
    CommitResolution,
    NoParent,
    ExportWrite,
}

/// The divider position, kept between 300 and 500.
pub open spec fn clamped(pos: u16) -> u16 {
    if pos < 300 {
        300
    } else if pos > 500 {
        500
    } else {
        pos
    }
}

/// The commit a selected label resolves to: the one the walk recorded under
/// it, if its id is well formed; otherwise none, which means the head.
pub open spec fn target_of(found: Option<Seq<char>>) -> Option<Seq<char>> {
    match found {
        Some(id) => if is_oid_text(id) {
            Some(id)
        } else {
            None
        },
        None => None,
    }
}

pub struct ConseilApp {
    pub config: Config,
    pub search_input: String,
    pub search_results: Vec<String>,
    pub commit_id: Option<String>,
    pub commits: CommitLabeler,
    pub repo_name: String,
    pub document: Document,
    pub vert_divider_pos: Option<u16>,
}

impl ConseilApp {
    /// The search input and its results are the same in `self` and `o`.
    pub open spec fn same_search(&self, o: &ConseilApp) -> bool {
        &&& self.search_input == o.search_input
        &&& self.search_results == o.search_results
    }

    /// The opened repository, its commits and the selection are the same.
    pub open spec fn same_history(&self, o: &ConseilApp) -> bool {
        &&& self.repo_name == o.repo_name
        &&& self.commits == o.commits
        &&& self.commit_id == o.commit_id
    }

    pub open spec fn wf(&self) -> bool {
        &&& self.commits.wf()
        &&& self.document@.wf()
    }

    /// A session with the given template and nothing opened yet.
    pub fn new(config: Config) -> (r: ConseilApp)
        ensures
            r.wf(),
            r.config == config,
            r.document@ == empty_doc(),
            r.commits.labels@.len() == 0,
            r.commit_id is None,
            r.vert_divider_pos == Some(300u16),
            r.search_input@.len() == 0,
            r.search_results@.len() == 0,
            r.repo_name@.len() == 0,
    {
        ConseilApp {
            config,
            search_input: String::new(),
            search_results: Vec::new(),
            commit_id: None,
            commits: CommitLabeler::new(),
            repo_name: String::new(),
            document: Document::new(),
            vert_divider_pos: Some(300),
        }
    }

    /// The title of the window.
    pub fn title(&self) -> (r: String)
        ensures
            r@ == "Conseil v0.1"@,
    {
        String::from_str("Conseil v0.1")
    }

    /// The commit a selected label resolves to (see `target_of`).
    pub fn resolve_selection(&self, label: &String) -> (r: Option<String>)
        requires
            self.wf(),
        ensures
            r is Some <==> target_of(self.commits.lookup(label@)) is Some,
            r is Some ==> r->0@ == target_of(self.commits.lookup(label@))->0,
    {
        match self.commits.find(label) {
            Some(id) => if parses_as_oid(id.as_str()) {
                Some(id)
            } else {
                None
            },
            None => None,
        }
    }

    /// Handles one user action and says what the caller is to do.
    pub fn update(&mut self, message: Message) -> (r: Action)
        requires
            old(self).wf(),
        ensures
            final(self).wf(),
            final(self).config == old(self).config,
            match message {
                Message::OnVertResize(pos) => {
                    &&& final(self).vert_divider_pos == Some(clamped(pos))
                    &&& final(self).document == old(self).document
                    &&& final(self).same_search(old(self))
                    &&& final(self).same_history(old(self))
                    &&& r is Nothing
                },
                Message::SearchInputChanged(v) => {
                    &&& final(self).search_input@ == v@
                    &&& final(self).search_results@.len() == 0
                    &&& final(self).document == old(self).document
                    &&& final(self).same_history(old(self))
                    &&& final(self).vert_divider_pos == old(self).vert_divider_pos
                    &&& r matches Action::ListDirectories(p) && p@ == v@
                },
                Message::CommitIDSelected(l) => {
                    &&& final(self).commit_id matches Some(c) && c@ == l@
                    &&& final(self).document == old(self).document
                    &&& final(self).commits == old(self).commits
                    &&& final(self).repo_name == old(self).repo_name
                    &&& final(self).same_search(old(self))
                    &&& final(self).vert_divider_pos == old(self).vert_divider_pos
                    &&& r matches Action::BuildCommit(t) && (t is Some <==> target_of(
                        old(self).commits.lookup(l@),
                    ) is Some) && (t is Some ==> t->0@ == target_of(old(self).commits.lookup(l@))->0)
                },
                Message::HeadingInputChanged(i, v) => {
                    &&& final(self).document@ == edited(old(self).document@, SlotKind::Heading, i, v@)
                    &&& final(self).same_search(old(self))
                    &&& final(self).same_history(old(self))
                    &&& final(self).vert_divider_pos == old(self).vert_divider_pos
                    &&& r is Nothing
                },
                Message::SubheadingInputChanged(i, v) => {
                    &&& final(self).document@ == edited(old(self).document@, SlotKind::Subheading, i, v@)
                    &&& final(self).same_search(old(self))
                    &&& final(self).same_history(old(self))
                    &&& final(self).vert_divider_pos == old(self).vert_divider_pos
                    &&& r is Nothing
                },
                Message::ParagraphInputChanged(i, v) => {
                    &&& final(self).document@ == edited(old(self).document@, SlotKind::Paragraph, i, v@)
                    &&& final(self).same_search(old(self))
                    &&& final(self).same_history(old(self))
                    &&& final(self).vert_divider_pos == old(self).vert_divider_pos
                    &&& r is Nothing
                },
                Message::RepoButtonPressed(p) => {
                    &&& *final(self) == *old(self)
                    &&& r matches Action::OpenRepository(q) && q@ == p@
                },
                Message::ExportButtonPressed => {
                    &&& *final(self) == *old(self)
                    &&& r matches Action::Export(t) && t@ == old(self).document@.text()
                },
            },
    {
        match message {
            Message::OnVertResize(pos) => {
                self.vert_divider_pos = Some(
                    if pos < 300 {
                        300
                    } else if pos > 500 {
                        500
                    } else {
                        pos
                    },
                );
                Action::Nothing
            },
            Message::SearchInputChanged(v) => {
                let p = v.clone();
                self.search_input = v;
                self.search_results = Vec::new();
                Action::ListDirectories(p)
            },
            Message::CommitIDSelected(l) => {
                let t = self.resolve_selection(&l);
                self.commit_id = Some(l);
                Action::BuildCommit(t)
            },
            Message::HeadingInputChanged(i, v) => {
                self.document.edit(SlotKind::Heading, i, v);
                Action::Nothing
            },
            Message::SubheadingInputChanged(i, v) => {
                self.document.edit(SlotKind::Subheading, i, v);
                Action::Nothing
            },
            Message::ParagraphInputChanged(i, v) => {
                self.document.edit(SlotKind::Paragraph, i, v);
                Action::Nothing
            },
            Message::RepoButtonPressed(p) => Action::OpenRepository(p),
            Message::ExportButtonPressed => Action::Export(self.make_markdown_file()),
        }
    }

    /// Hands over the list of directories found for the search input.
    pub fn set_search_results(&mut self, results: Vec<String>)
        ensures
            final(self).search_results == results,
            final(self).search_input == old(self).search_input,
            final(self).same_history(old(self)),
            final(self).document == old(self).document,
            final(self).config == old(self).config,
            final(self).vert_divider_pos == old(self).vert_divider_pos,
    {
        self.search_results = results;
    }

    /// Hands over whether the repository at `path` could be opened. When it
    /// was, the session starts over on it: no commits, no selection and an
    /// empty document. When it was not, the error is reported and nothing
    /// changes.
    pub fn repository_opened(&mut self, path: String, opened: bool) -> (r: Result<(), BuildError>)
        requires
            old(self).wf(),
        ensures
            final(self).wf(),
            opened ==> {
                &&& r is Ok
                &&& final(self).repo_name@ == path@
                &&& final(self).document@ == empty_doc()
                &&& final(self).commit_id is None
                &&& final(self).commits.labels@.len() == 0
                &&& final(self).commits.ids@.len() == 0
                &&& final(self).same_search(old(self))
                &&& final(self).config == old(self).config
                &&& final(self).vert_divider_pos == old(self).vert_divider_pos
            },
            !opened ==> r == Err::<(), BuildError>(BuildError::RepositoryOpen) && *final(self) == *old(self),
    {
        if !opened {
            return Err(BuildError::RepositoryOpen);
        }
        self.repo_name = path;
        self.document = Document::new();
        self.commit_id = None;
        self.commits = CommitLabeler::new();
        Ok(())
    }

    /// Records the next commit of the ancestry walk; `false` means the
    /// commit was met before and the walk is to stop.
    pub fn record_commit(&mut self, id: &String, message: &String) -> (fresh: bool)
        requires
            old(self).wf(),
        ensures
            final(self).wf(),
            fresh == !old(self).commits.id_seq().contains(id@),
            fresh ==> final(self).commits.lookup(crate::labeler::commit_label(id@, message@)) == Some(id@),
            fresh ==> final(self).commits.id_seq() == old(self).commits.id_seq().push(id@),
            fresh ==> forall|l: Seq<char>|
                l != crate::labeler::commit_label(id@, message@) ==> #[trigger] final(self).commits.lookup(l)
                    == old(self).commits.lookup(l),
            fresh ==> final(self).commits.label_seq() == old(self).commits.label_seq().push(
                crate::labeler::commit_label(id@, message@),
            ),
            !fresh ==> final(self).commits == old(self).commits,
            final(self).document == old(self).document,
            final(self).same_search(old(self)),
            final(self).repo_name == old(self).repo_name,
            final(self).commit_id == old(self).commit_id,
            final(self).config == old(self).config,
            final(self).vert_divider_pos == old(self).vert_divider_pos,
    {
        self.commits.visit(id, message)
    }

    /// Builds the document for the selected commit from its diff against its
    /// first parent; `None` means the commit has no parent, which fails the
    /// build and leaves the document as it was.
    pub fn write_content(&mut self, diff: Option<Vec<RawDiffLine>>) -> (r: Result<(), BuildError>)
        requires
            old(self).wf(),
        ensures
            final(self).wf(),
            final(self).commits == old(self).commits,
            final(self).config == old(self).config,
            final(self).same_search(old(self)),
            final(self).repo_name == old(self).repo_name,
            final(self).commit_id == old(self).commit_id,
            final(self).vert_divider_pos == old(self).vert_divider_pos,
            diff is None ==> r == Err::<(), BuildError>(BuildError::NoParent) && final(self).document@
                == old(self).document@,
            diff is Some ==> r is Ok && final(self).document@ == built(
                old(self).config.intro_names(),
                old(self).config.hunk_names(),
                old(self).config.outro_names(),
                segmented(decoded(raws_view(diff->0@))),
            ),
    {
        match diff {
            None => Err(BuildError::NoParent),
            Some(lines) => {
                self.document = Document::build(&self.config, &lines);
                Ok(())
            },
        }
    }

    /// The markdown text of the current document, slot edits included.
    pub fn make_markdown_file(&self) -> (r: String)
        requires
            self.wf(),
        ensures
            r@ == self.document@.text(),
    {
        self.document.serialize()
    }
}

/// A document after an edit of slot `i` of kind `k` (no change when the
/// slot does not exist).
pub open spec fn edited(d: DocView, k: SlotKind, i: usize, t: Seq<char>) -> DocView {
    if i < d.slots.store(k).len() {
        DocView { blocks: d.blocks, slots: d.slots.with_text(k, i as int, t) }
    } else {
        d
    }
}

} // verus!
