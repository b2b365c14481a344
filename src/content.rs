//! Diff hunks, content blocks, editable text slots and their markdown form.
use vstd::prelude::*;
use crate::text::strings_view;

verus! {

/// How a diff line edits its file.
#[derive(Clone, Copy, Debug, PartialEq, Eq, Structural)]
pub enum LineKind {
    Context,
    Added,
    Removed,
}

/// The edit kind that a line's origin marker stands for.
pub open spec fn kind_of(origin: char) -> LineKind {
    if origin == '+' {
        LineKind::Added
    } else if origin == '-' {
        LineKind::Removed
    } else {
        LineKind::Context
    }
}

/// Classifies a diff line by its origin marker.
pub fn classify(origin: char) -> (k: LineKind)
    ensures
        k == kind_of(origin),
{
    if origin == '+' {
        LineKind::Added
    } else if origin == '-' {
        LineKind::Removed
    } else {
        LineKind::Context
    }
}

/// The lines of one file, in diff order, each rendered with its origin marker.
#[derive(Clone, Debug)]
pub struct DiffHunk {
    pub path: String,
    pub lines: Vec<(String, LineKind)>,
}

pub ghost struct HunkView {
    pub path: Seq<char>,
    pub lines: Seq<(Seq<char>, LineKind)>,
}

pub open spec fn line_view(l: (String, LineKind)) -> (Seq<char>, LineKind) {
    (l.0@, l.1)
}

impl View for DiffHunk {
    type V = HunkView;

    open spec fn view(&self) -> HunkView {
        HunkView { path: self.path@, lines: self.lines@.map_values(|l: (String, LineKind)| line_view(l)) }
    }
}

/// A copy of a hunk with the same path and lines.
pub fn copy_hunk(h: &DiffHunk) -> (r: DiffHunk)
    ensures
        r@ == h@,
{
    let mut lines: Vec<(String, LineKind)> = Vec::new();
    let mut i: usize = 0;
    while i < h.lines.len()
        invariant
            i <= h.lines.len(),
            lines@.len() == i,
            forall|j: int| 0 <= j < i ==> line_view(#[trigger] lines@[j]) == line_view(h.lines@[j]),
        decreases h.lines.len() - i,
    {
        let t = h.lines[i].0.clone();
        lines.push((t, h.lines[i].1));
        i = i + 1;
    }
    let r = DiffHunk { path: h.path.clone(), lines };
    assert(r@.lines =~= h@.lines);
    r
}

/// The three kinds of editable block, each with a store of its own.
#[derive(Clone, Copy, Debug, PartialEq, Eq, Structural)]
pub enum SlotKind {
    Heading,
    Subheading,
    Paragraph,
}

/// The editable texts, one append-only store per kind, addressed by index.
#[derive(Clone, Debug)]
pub struct Slots {
    pub headings: Vec<String>,
    pub subheadings: Vec<String>,
    pub paragraphs: Vec<String>,
}

pub ghost struct SlotsView {
    pub headings: Seq<Seq<char>>,
    pub subheadings: Seq<Seq<char>>,
    pub paragraphs: Seq<Seq<char>>,
}

impl SlotsView {
    pub open spec fn store(self, kind: SlotKind) -> Seq<Seq<char>> {
        match kind {
            SlotKind::Heading => self.headings,
            SlotKind::Subheading => self.subheadings,
            SlotKind::Paragraph => self.paragraphs,
        }
    }

    /// The stores with text `t` in slot `idx` of `kind`.
    pub open spec fn with_text(self, kind: SlotKind, idx: int, t: Seq<char>) -> SlotsView {
        match kind {
            SlotKind::Heading => SlotsView { headings: self.headings.update(idx, t), ..self },
            SlotKind::Subheading => SlotsView { subheadings: self.subheadings.update(idx, t), ..self },
            SlotKind::Paragraph => SlotsView { paragraphs: self.paragraphs.update(idx, t), ..self },
        }
    }

    /// The stores with text `t` appended to the store of `kind`.
    pub open spec fn pushed(self, kind: SlotKind, t: Seq<char>) -> SlotsView {
        match kind {
            SlotKind::Heading => SlotsView { headings: self.headings.push(t), ..self },
            SlotKind::Subheading => SlotsView { subheadings: self.subheadings.push(t), ..self },
            SlotKind::Paragraph => SlotsView { paragraphs: self.paragraphs.push(t), ..self },
        }
    }
}

impl View for Slots {
    type V = SlotsView;

    open spec fn view(&self) -> SlotsView {
        SlotsView {
            headings: strings_view(self.headings@),
            subheadings: strings_view(self.subheadings@),
            paragraphs: strings_view(self.paragraphs@),
        }
    }
}

impl Slots {
    /// Three empty stores.
    pub fn new() -> (r: Slots)
        ensures
            r@.headings.len() == 0,
            r@.subheadings.len() == 0,
            r@.paragraphs.len() == 0,
    {
        Slots { headings: Vec::new(), subheadings: Vec::new(), paragraphs: Vec::new() }
    }

    /// The number of slots of `kind`.
    pub fn len_of(&self, kind: SlotKind) -> (n: usize)
        ensures
            n == self@.store(kind).len(),
    {
        match kind {
            SlotKind::Heading => self.headings.len(),
            SlotKind::Subheading => self.subheadings.len(),
            SlotKind::Paragraph => self.paragraphs.len(),
        }
    }

    /// The text of slot `idx` of `kind`.
    pub fn text_of(&self, kind: SlotKind, idx: usize) -> (r: &String)
        requires
            idx < self@.store(kind).len(),
        ensures
            r@ == self@.store(kind)[idx as int],
    {
        match kind {
            SlotKind::Heading => &self.headings[idx],
            SlotKind::Subheading => &self.subheadings[idx],
            SlotKind::Paragraph => &self.paragraphs[idx],
        }
    }

    /// Appends `t` as a new slot of `kind`.
    pub fn push(&mut self, kind: SlotKind, t: String)
        ensures
            final(self)@ == old(self)@.pushed(kind, t@),
    {
        match kind {
            SlotKind::Heading => self.headings.push(t),
            SlotKind::Subheading => self.subheadings.push(t),
            SlotKind::Paragraph => self.paragraphs.push(t),
        }
        assert(final(self)@.store(kind) =~= old(self)@.pushed(kind, t@).store(kind));
        assert(final(self)@ =~= old(self)@.pushed(kind, t@));
    }

    /// Replaces the text of slot `idx` of `kind`; an index past the store
    /// leaves every slot as it was.
    pub fn set(&mut self, kind: SlotKind, idx: usize, t: String)
        ensures
            idx < old(self)@.store(kind).len() ==> final(self)@ == old(self)@.with_text(kind, idx as int, t@),
            idx >= old(self)@.store(kind).len() ==> final(self)@ == old(self)@,
    {
        match kind {
            SlotKind::Heading => if idx < self.headings.len() {
                self.headings.set(idx, t);
            },
            SlotKind::Subheading => if idx < self.subheadings.len() {
                self.subheadings.set(idx, t);
            },
            SlotKind::Paragraph => if idx < self.paragraphs.len() {
                self.paragraphs.set(idx, t);
            },
        }
        if idx < self.len_of(kind) {
            assert(final(self)@.store(kind) =~= old(self)@.with_text(kind, idx as int, t@).store(kind));
            assert(final(self)@ =~= old(self)@.with_text(kind, idx as int, t@));
        }
    }
}

/// One block of the write-up. Editable blocks hold the index of their slot.
#[derive(Clone, Debug)]
pub enum Content {
    Heading(usize),
    Subheading(usize),
    Filename(String),
    Paragraph(usize),
    Hunk(DiffHunk),
}

pub ghost enum Block {
    Heading(nat),
    Subheading(nat),
    Filename(Seq<char>),
    Paragraph(nat),
    Hunk(HunkView),
}

impl View for Content {
    type V = Block;

    open spec fn view(&self) -> Block {
        match self {
            Content::Heading(i) => Block::Heading(*i as nat),
            Content::Subheading(i) => Block::Subheading(*i as nat),
            Content::Filename(p) => Block::Filename(p@),
            Content::Paragraph(i) => Block::Paragraph(*i as nat),
            Content::Hunk(h) => Block::Hunk(h@),
        }
    }
}

impl Block {
    /// The slot that an editable block refers to.
    pub open spec fn slot(self) -> Option<(SlotKind, nat)> {
        match self {
            Block::Heading(i) => Some((SlotKind::Heading, i)),
            Block::Subheading(i) => Some((SlotKind::Subheading, i)),
            Block::Paragraph(i) => Some((SlotKind::Paragraph, i)),
            _ => None,
        }
    }

    /// An editable block's slot exists in `s`.
    pub open spec fn fits(self, s: SlotsView) -> bool {
        match self.slot() {
            Some(r) => r.1 < s.store(r.0).len(),
            None => true,
        }
    }
}

/// The rendered lines of a hunk, concatenated with nothing between them.
pub open spec fn hunk_body(lines: Seq<(Seq<char>, LineKind)>) -> Seq<char>
    decreases lines.len(),
{
    if lines.len() == 0 {
        Seq::empty()
    } else {
        hunk_body(lines.drop_last()) + lines.last().0
    }
}

/// The markdown text of one block, with its slot text looked up in `s`.
pub open spec fn block_md(b: Block, s: SlotsView) -> Seq<char> {
    match b {
        Block::Heading(i) => "# "@ + s.headings[i as int] + "\n"@,
        Block::Subheading(i) => "## "@ + s.subheadings[i as int] + "\n"@,
        Block::Filename(p) => "File: `"@ + p + "`\n"@,
        Block::Paragraph(i) => s.paragraphs[i as int] + "\n"@,
        Block::Hunk(h) => "```diff\n"@ + hunk_body(h.lines) + "```\n"@,
    }
}

fn append_hunk_body(out: &mut String, h: &DiffHunk)
    ensures
        final(out)@ == old(out)@ + hunk_body(h@.lines),
{
    let ghost lines = h@.lines;
    let mut i: usize = 0;
    while i < h.lines.len()
        invariant
            i <= h.lines.len(),
            lines == h@.lines,
            out@ == old(out)@ + hunk_body(lines.subrange(0, i as int)),
        decreases h.lines.len() - i,
    {
        assert(lines.subrange(0, i + 1).drop_last() =~= lines.subrange(0, i as int));
        out.append(h.lines[i].0.as_str());
        i = i + 1;
        assert(out@ =~= old(out)@ + hunk_body(lines.subrange(0, i as int)));
    }
    assert(lines.subrange(0, i as int) =~= lines);
}

impl Content {
    /// Appends this block's markdown text to `out`.
    pub fn write_md(&self, slots: &Slots, out: &mut String)
        requires
            self@.fits(slots@),
        ensures
            final(out)@ == old(out)@ + block_md(self@, slots@),
    {
        match self {
            Content::Heading(i) => {
                out.append("# ");
                out.append(slots.headings[*i].as_str());
                out.append("\n");
            },
            Content::Subheading(i) => {
                out.append("## ");
                out.append(slots.subheadings[*i].as_str());
                out.append("\n");
            },
            Content::Filename(p) => {
                out.append("File: `");
                out.append(p.as_str());
                out.append("`\n");
            },
            Content::Paragraph(i) => {
                out.append(slots.paragraphs[*i].as_str());
                out.append("\n");
            },
            Content::Hunk(h) => {
                out.append("```diff\n");
                append_hunk_body(out, h);
                out.append("```\n");
            },
        }
        assert(final(out)@ =~= old(out)@ + block_md(self@, slots@));
    }

    /// This block's markdown text.
    pub fn to_md_string(&self, slots: &Slots) -> (r: String)
        requires
            self@.fits(slots@),
        ensures
            r@ == block_md(self@, slots@),
    {
        let mut r = String::new();
        self.write_md(slots, &mut r);
        assert(r@ =~= block_md(self@, slots@));
        r
    }
}

} // verus!
