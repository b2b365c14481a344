//! The write-up: template-driven blocks over per-kind slot stores, and its
//! markdown rendering.
use vstd::prelude::*;
use crate::content::{Block, Content, DiffHunk, HunkView, SlotKind, Slots, SlotsView, block_md, copy_hunk};
use crate::text::{decimal, push_decimal, strings_view};
use crate::config::Config;
use crate::diff::{RawDiffLine, hunks_view, raws_view, decoded, segmented, segment};

verus! {

/// A template token: what kind of block to emit next.
#[derive(Clone, Copy, Debug, PartialEq, Eq, Structural)]
pub enum Token {
    Heading,
    Subheading,
    Paragraph,
    Filename,
    Diff,
}

/// The token a template entry names, in the intro and outro phases
/// (`per_file` false) or in the per-file phase; other entries are ignored.
pub open spec fn token_of(name: Seq<char>, per_file: bool) -> Option<Token> {
    if name == "heading"@ && !per_file {
        Some(Token::Heading)
    } else if name == "subheading"@ {
        Some(Token::Subheading)
    } else if name == "paragraph"@ {
        Some(Token::Paragraph)
    } else if name == "filename"@ && per_file {
        Some(Token::Filename)
    } else if name == "diff"@ && per_file {
        Some(Token::Diff)
    } else {
        None
    }
}

/// Reads a template entry (see `token_of`).
pub fn parse_token(name: &String, per_file: bool) -> (r: Option<Token>)
    ensures
        r == token_of(name@, per_file),
{
    if !per_file && *name == String::from_str("heading") {
        Some(Token::Heading)
    } else if *name == String::from_str("subheading") {
        Some(Token::Subheading)
    } else if *name == String::from_str("paragraph") {
        Some(Token::Paragraph)
    } else if per_file && *name == String::from_str("filename") {
        Some(Token::Filename)
    } else if per_file && *name == String::from_str("diff") {
        Some(Token::Diff)
    } else {
        None
    }
}

pub open spec fn kind_name(k: SlotKind) -> Seq<char> {
    match k {
        SlotKind::Heading => "Heading"@,
        SlotKind::Subheading => "Subheading"@,
        SlotKind::Paragraph => "Paragraph"@,
    }
}

/// The text a new slot starts with: its kind, then its 1-based number.
pub open spec fn default_text(k: SlotKind, idx: nat) -> Seq<char> {
    kind_name(k) + " "@ + decimal(idx + 1)
}

pub open spec fn slot_block(k: SlotKind, idx: nat) -> Block {
    match k {
        SlotKind::Heading => Block::Heading(idx),
        SlotKind::Subheading => Block::Subheading(idx),
        SlotKind::Paragraph => Block::Paragraph(idx),
    }
}

pub ghost struct DocView {
    pub blocks: Seq<Block>,
    pub slots: SlotsView,
}

/// The slot indices of the blocks of kind `k`, in block order.
pub open spec fn refs(blocks: Seq<Block>, k: SlotKind) -> Seq<nat>
    decreases blocks.len(),
{
    if blocks.len() == 0 {
        Seq::empty()
    } else {
        let rest = refs(blocks.drop_last(), k);
        match blocks.last().slot() {
            Some(r) => if r.0 == k {
                rest.push(r.1)
            } else {
                rest
            },
            None => rest,
        }
    }
}

pub open spec fn upto(n: nat) -> Seq<nat> {
    Seq::new(n, |i: int| i as nat)
}

/// The text of a whole document: its blocks' texts, in order.
pub open spec fn doc_text(blocks: Seq<Block>, s: SlotsView) -> Seq<char>
    decreases blocks.len(),
{
    if blocks.len() == 0 {
        Seq::empty()
    } else {
        doc_text(blocks.drop_last(), s) + block_md(blocks.last(), s)
    }
}

impl DocView {
    /// The blocks of kind `k` refer to slots 0, 1, 2, ... of that kind's
    /// store, in order, one block per slot.
    pub open spec fn aligned(self, k: SlotKind) -> bool {
        refs(self.blocks, k) == upto(self.slots.store(k).len())
    }

    pub open spec fn wf(self) -> bool {
        &&& self.aligned(SlotKind::Heading)
        &&& self.aligned(SlotKind::Subheading)
        &&& self.aligned(SlotKind::Paragraph)
    }

    /// A new slot of kind `k` with its default text, and its block.
    pub open spec fn with_slot(self, k: SlotKind) -> DocView {
        let idx = self.slots.store(k).len();
        DocView {
            blocks: self.blocks.push(slot_block(k, idx)),
            slots: self.slots.pushed(k, default_text(k, idx)),
        }
    }

    /// Slots of the given kinds added one after another, each with its block
    /// (a run of `add_text_edit` calls).
    pub open spec fn with_slots(self, kinds: Seq<SlotKind>) -> DocView
        decreases kinds.len(),
    {
        if kinds.len() == 0 {
            self
        } else {
            self.with_slots(kinds.drop_last()).with_slot(kinds.last())
        }
    }

    /// One token applied; `hunk` is the file being written up, if any.
    pub open spec fn apply(self, t: Token, hunk: Option<HunkView>) -> DocView {
        match t {
            Token::Heading => self.with_slot(SlotKind::Heading),
            Token::Subheading => self.with_slot(SlotKind::Subheading),
            Token::Paragraph => self.with_slot(SlotKind::Paragraph),
            Token::Filename => DocView { blocks: self.blocks.push(Block::Filename(hunk->0.path)), ..self },
            Token::Diff => DocView { blocks: self.blocks.push(Block::Hunk(hunk->0)), ..self },
        }
    }

    /// A template's entries applied in order; with `hunk` present this is
    /// the per-file phase.
    pub open spec fn expanded(self, names: Seq<Seq<char>>, hunk: Option<HunkView>) -> DocView
        decreases names.len(),
    {
        if names.len() == 0 {
            self
        } else {
            let d = self.expanded(names.drop_last(), hunk);
            match token_of(names.last(), hunk is Some) {
                Some(t) => d.apply(t, hunk),
                None => d,
            }
        }
    }

    /// The per-file template applied once for each hunk, in order.
    pub open spec fn per_file(self, names: Seq<Seq<char>>, hunks: Seq<HunkView>) -> DocView
        decreases hunks.len(),
    {
        if hunks.len() == 0 {
            self
        } else {
            self.per_file(names, hunks.drop_last()).expanded(names, Some(hunks.last()))
        }
    }

    pub open spec fn text(self) -> Seq<char> {
        doc_text(self.blocks, self.slots)
    }
}

pub open spec fn empty_doc() -> DocView {
    DocView {
        blocks: Seq::empty(),
        slots: SlotsView { headings: Seq::empty(), subheadings: Seq::empty(), paragraphs: Seq::empty() },
    }
}

/// The document for the given templates and hunks: intro, then the per-file
/// template for each hunk, then outro.
pub open spec fn built(
    intro: Seq<Seq<char>>,
    per_file: Seq<Seq<char>>,
    outro: Seq<Seq<char>>,
    hunks: Seq<HunkView>,
) -> DocView {
    empty_doc().expanded(intro, None).per_file(per_file, hunks).expanded(outro, None)
}

/// The blocks of a write-up and the slot stores that back its editable ones.
#[derive(Clone, Debug)]
pub struct Document {
    pub blocks: Vec<Content>,
    pub slots: Slots,
}

pub open spec fn hunk_opt(h: Option<&DiffHunk>) -> Option<HunkView> {
    match h {
        Some(x) => Some(x@),
        None => None,
    }
}

pub open spec fn blocks_view(v: Seq<Content>) -> Seq<Block> {
    v.map_values(|c: Content| c@)
}

impl View for Document {
    type V = DocView;

    open spec fn view(&self) -> DocView {
        DocView { blocks: blocks_view(self.blocks@), slots: self.slots@ }
    }
}

proof fn lemma_refs_push(blocks: Seq<Block>, b: Block, k: SlotKind)
    ensures
        refs(blocks.push(b), k) == (match b.slot() {
            Some(r) => if r.0 == k {
                refs(blocks, k).push(r.1)
            } else {
                refs(blocks, k)
            },
            None => refs(blocks, k),
        }),
{
    assert(blocks.push(b).drop_last() =~= blocks);
}

proof fn lemma_with_slot_wf(d: DocView, k: SlotKind)
    requires
        d.wf(),
    ensures
        d.with_slot(k).wf(),
{
    let idx = d.slots.store(k).len();
    let b = slot_block(k, idx);
    lemma_refs_push(d.blocks, b, SlotKind::Heading);
    lemma_refs_push(d.blocks, b, SlotKind::Subheading);
    lemma_refs_push(d.blocks, b, SlotKind::Paragraph);
    assert(upto(idx).push(idx) =~= upto(idx + 1));
}

proof fn lemma_apply_wf(d: DocView, t: Token, hunk: Option<HunkView>)
    requires
        d.wf(),
    ensures
        d.apply(t, hunk).wf(),
{
    match t {
        Token::Heading => lemma_with_slot_wf(d, SlotKind::Heading),
        Token::Subheading => lemma_with_slot_wf(d, SlotKind::Subheading),
        Token::Paragraph => lemma_with_slot_wf(d, SlotKind::Paragraph),
        Token::Filename => {
            let b = Block::Filename(hunk->0.path);
            lemma_refs_push(d.blocks, b, SlotKind::Heading);
            lemma_refs_push(d.blocks, b, SlotKind::Subheading);
            lemma_refs_push(d.blocks, b, SlotKind::Paragraph);
        },
        Token::Diff => {
            let b = Block::Hunk(hunk->0);
            lemma_refs_push(d.blocks, b, SlotKind::Heading);
            lemma_refs_push(d.blocks, b, SlotKind::Subheading);
            lemma_refs_push(d.blocks, b, SlotKind::Paragraph);
        },
    }
}

fn kind_label(k: SlotKind) -> (r: &'static str)
    ensures
        r@ == kind_name(k),
{
    match k {
        SlotKind::Heading => "Heading",
        SlotKind::Subheading => "Subheading",
        SlotKind::Paragraph => "Paragraph",
    }
}

impl Document {
    /// A document with no block and empty stores.
    pub fn new() -> (r: Document)
        ensures
            r@ == empty_doc(),
            r@.wf(),
    {
        let r = Document { blocks: Vec::new(), slots: Slots::new() };
        assert(r@.blocks =~= Seq::<Block>::empty());
        assert(r@.slots.headings =~= Seq::<Seq<char>>::empty());
        assert(r@.slots.subheadings =~= Seq::<Seq<char>>::empty());
        assert(r@.slots.paragraphs =~= Seq::<Seq<char>>::empty());
        assert(upto(0) =~= Seq::<nat>::empty());
        r
    }

    /// Appends a new slot of `kind`, with its default text, and the block
    /// that shows it.
    pub fn add_text_edit(&mut self, kind: SlotKind)
        requires
            old(self)@.wf(),
        ensures
            final(self)@ == old(self)@.with_slot(kind),
            final(self)@.wf(),
    {
        let idx = self.slots.len_of(kind);
        let mut txt = String::from_str(kind_label(kind));
        txt.append(" ");
        push_decimal(&mut txt, idx as u128 + 1);
        let block = match kind {
            SlotKind::Heading => Content::Heading(idx),
            SlotKind::Subheading => Content::Subheading(idx),
            SlotKind::Paragraph => Content::Paragraph(idx),
        };
        self.blocks.push(block);
        self.slots.push(kind, txt);
        proof {
            assert(final(self)@.blocks =~= old(self)@.with_slot(kind).blocks);
            lemma_with_slot_wf(old(self)@, kind);
        }
    }

    /// Applies one token; `hunk` is the file being written up, if any.
    pub fn apply_token(&mut self, t: Token, hunk: Option<&DiffHunk>)
        requires
            old(self)@.wf(),
            t == Token::Filename || t == Token::Diff ==> hunk is Some,
        ensures
            final(self)@ == old(self)@.apply(t, hunk_opt(hunk)),
            final(self)@.wf(),
    {
        let ghost hv = hunk_opt(hunk);
        proof {
            lemma_apply_wf(old(self)@, t, hv);
        }
        match t {
            Token::Heading => self.add_text_edit(SlotKind::Heading),
            Token::Subheading => self.add_text_edit(SlotKind::Subheading),
            Token::Paragraph => self.add_text_edit(SlotKind::Paragraph),
            Token::Filename => {
                let h = hunk.unwrap();
                self.blocks.push(Content::Filename(h.path.clone()));
                assert(final(self)@.blocks =~= old(self)@.apply(t, hv).blocks);
            },
            Token::Diff => {
                let h = hunk.unwrap();
                self.blocks.push(Content::Hunk(copy_hunk(h)));
                assert(final(self)@.blocks =~= old(self)@.apply(t, hv).blocks);
            },
        }
    }

    /// Applies a template's entries in order; with `hunk` present this is
    /// the per-file phase.
    pub fn expand(&mut self, names: &Vec<String>, hunk: Option<&DiffHunk>)
        requires
            old(self)@.wf(),
        ensures
            final(self)@ == old(self)@.expanded(
                strings_view(names@),
                hunk_opt(hunk),
            ),
            final(self)@.wf(),
    {
        let ghost ns = strings_view(names@);
        let ghost hv = hunk_opt(hunk);
        let ghost start = self@;
        let mut i: usize = 0;
        assert(ns.subrange(0, 0) =~= Seq::<Seq<char>>::empty());
        while i < names.len()
            invariant
                i <= names.len(),
                ns == strings_view(names@),
                hv == hunk_opt(hunk),
                self@ == start.expanded(ns.subrange(0, i as int), hv),
                self@.wf(),
            decreases names.len() - i,
        {
            assert(ns.subrange(0, i + 1).drop_last() =~= ns.subrange(0, i as int));
            assert(ns.subrange(0, i + 1).last() == names@[i as int]@);
            match parse_token(&names[i], hunk.is_some()) {
                Some(t) => self.apply_token(t, hunk),
                None => {},
            }
            i = i + 1;
        }
        assert(ns.subrange(0, i as int) =~= ns);
    }

    /// Applies the per-file template once for each hunk, in order.
    pub fn expand_files(&mut self, names: &Vec<String>, hunks: &Vec<DiffHunk>)
        requires
            old(self)@.wf(),
        ensures
            final(self)@ == old(self)@.per_file(strings_view(names@), hunks_view(hunks@)),
            final(self)@.wf(),
    {
        let ghost ns = strings_view(names@);
        let ghost hs = hunks_view(hunks@);
        let ghost start = self@;
        let mut i: usize = 0;
        assert(hs.subrange(0, 0) =~= Seq::<HunkView>::empty());
        while i < hunks.len()
            invariant
                i <= hunks.len(),
                ns == strings_view(names@),
                hs == hunks_view(hunks@),
                self@ == start.per_file(ns, hs.subrange(0, i as int)),
                self@.wf(),
            decreases hunks.len() - i,
        {
            assert(hs.subrange(0, i + 1).drop_last() =~= hs.subrange(0, i as int));
            assert(hs.subrange(0, i + 1).last() == hunks@[i as int]@);
            self.expand(names, Some(&hunks[i]));
            i = i + 1;
        }
        assert(hs.subrange(0, i as int) =~= hs);
    }

    /// The document for `config` over the given hunks.
    pub fn from_hunks(config: &Config, hunks: &Vec<DiffHunk>) -> (r: Document)
        ensures
            r@ == built(config.intro_names(), config.hunk_names(), config.outro_names(), hunks_view(hunks@)),
            r@.wf(),
    {
        let mut d = Document::new();
        d.expand(&config.intro, None);
        d.expand_files(&config.hunk, hunks);
        d.expand(&config.outro, None);
        d
    }

    /// The document for `config` over a raw diff stream: the stream is
    /// grouped into hunks, which the template then writes up.
    pub fn build(config: &Config, raw: &Vec<RawDiffLine>) -> (r: Document)
        ensures
            r@ == built(
                config.intro_names(),
                config.hunk_names(),
                config.outro_names(),
                segmented(decoded(raws_view(raw@))),
            ),
            r@.wf(),
    {
        let hunks = segment(raw);
        Document::from_hunks(config, &hunks)
    }

    /// Replaces the text of slot `idx` of `kind`; the blocks stay as they
    /// are. An index past the store changes nothing.
    pub fn edit(&mut self, kind: SlotKind, idx: usize, t: String)
        requires
            old(self)@.wf(),
        ensures
            final(self)@.blocks == old(self)@.blocks,
            idx < old(self)@.slots.store(kind).len() ==> final(self)@.slots == old(self)@.slots.with_text(
                kind,
                idx as int,
                t@,
            ),
            idx >= old(self)@.slots.store(kind).len() ==> final(self)@ == old(self)@,
            final(self)@.wf(),
    {
        self.slots.set(kind, idx, t);
    }

    /// The text of the whole document.
    pub fn serialize(&self) -> (r: String)
        requires
            self@.wf(),
        ensures
            r@ == self@.text(),
    {
        let ghost bs = self@.blocks;
        let mut out = String::new();
        let mut i: usize = 0;
        assert(bs.subrange(0, 0) =~= Seq::<Block>::empty());
        while i < self.blocks.len()
            invariant
                i <= self.blocks.len(),
                bs == self@.blocks,
                self@.wf(),
                out@ == doc_text(bs.subrange(0, i as int), self@.slots),
            decreases self.blocks.len() - i,
        {
            assert(bs.subrange(0, i + 1).drop_last() =~= bs.subrange(0, i as int));
            proof {
                lemma_wf_fits(self@, i as int);
            }
            self.blocks[i].write_md(&self.slots, &mut out);
            i = i + 1;
        }
        assert(bs.subrange(0, i as int) =~= bs);
        out
    }
}

proof fn lemma_ref_in(blocks: Seq<Block>, j: int)
    requires
        0 <= j < blocks.len(),
        blocks[j].slot() is Some,
    ensures
        refs(blocks, (blocks[j].slot()->0).0).contains((blocks[j].slot()->0).1),
    decreases blocks.len(),
{
    let k = (blocks[j].slot()->0).0;
    let i = (blocks[j].slot()->0).1;
    if j == blocks.len() - 1 {
        assert(refs(blocks, k).last() == i);
    } else {
        lemma_ref_in(blocks.drop_last(), j);
        let r = refs(blocks.drop_last(), k);
        let w = choose|w: int| 0 <= w < r.len() && r[w] == i;
        assert(refs(blocks, k)[w] == i);
    }
}

/// Every editable block of a well-formed document has its slot.
pub proof fn lemma_wf_fits(d: DocView, j: int)
    requires
        d.wf(),
        0 <= j < d.blocks.len(),
    ensures
        d.blocks[j].fits(d.slots),
{
    if d.blocks[j].slot() is Some {
        lemma_ref_in(d.blocks, j);
    }
}

proof fn lemma_refs_prefix(blocks: Seq<Block>, k: SlotKind)
    requires
        blocks.len() > 0,
    ensures
        refs(blocks.drop_last(), k).len() <= refs(blocks, k).len(),
        refs(blocks.drop_last(), k) == refs(blocks, k).subrange(0, refs(blocks.drop_last(), k).len() as int),
{
    let r = refs(blocks.drop_last(), k);
    assert(r =~= refs(blocks, k).subrange(0, r.len() as int));
}

proof fn lemma_ref_unique(blocks: Seq<Block>, k: SlotKind, i: nat, j1: int, j2: int)
    requires
        refs(blocks, k).no_duplicates(),
        0 <= j1 < j2 < blocks.len(),
        blocks[j1].slot() == Some((k, i)),
    ensures
        blocks[j2].slot() != Some((k, i)),
    decreases blocks.len(),
{
    let dl = blocks.drop_last();
    lemma_refs_prefix(blocks, k);
    if blocks[j2].slot() != Some((k, i)) {
    } else if j2 == blocks.len() - 1 {
        lemma_ref_in(dl, j1);
        let r = refs(dl, k);
        let w = choose|w: int| 0 <= w < r.len() && r[w] == i;
        assert(refs(blocks, k) == r.push(i));
        assert(refs(blocks, k)[w] == refs(blocks, k)[r.len() as int]);
    } else {
        lemma_ref_unique(dl, k, i, j1, j2);
    }
}

proof fn lemma_ref_exists(blocks: Seq<Block>, k: SlotKind, w: int) -> (j: int)
    requires
        0 <= w < refs(blocks, k).len(),
    ensures
        0 <= j < blocks.len(),
        blocks[j].slot() == Some((k, refs(blocks, k)[w])),
    decreases blocks.len(),
{
    let dl = blocks.drop_last();
    lemma_refs_prefix(blocks, k);
    if w < refs(dl, k).len() {
        lemma_ref_exists(dl, k, w)
    } else {
        blocks.len() - 1
    }
}

/// The text that an editable block of `k` shows for slot text `t`.
pub open spec fn slot_md(k: SlotKind, t: Seq<char>) -> Seq<char> {
    match k {
        SlotKind::Heading => "# "@ + t + "\n"@,
        SlotKind::Subheading => "## "@ + t + "\n"@,
        SlotKind::Paragraph => t + "\n"@,
    }
}

proof fn lemma_text_concat(a: Seq<Block>, b: Seq<Block>, s: SlotsView)
    ensures
        doc_text(a + b, s) == doc_text(a, s) + doc_text(b, s),
    decreases b.len(),
{
    if b.len() == 0 {
        assert(a + b =~= a);
        assert(doc_text(a, s) + doc_text(b, s) =~= doc_text(a, s));
    } else {
        lemma_text_concat(a, b.drop_last(), s);
        assert((a + b).drop_last() =~= a + b.drop_last());
        assert((a + b).last() == b.last());
        assert(doc_text(a, s) + doc_text(b, s) =~= doc_text(a, s) + doc_text(b.drop_last(), s) + block_md(
            b.last(),
            s,
        ));
    }
}

proof fn lemma_text_same(a: Seq<Block>, s1: SlotsView, s2: SlotsView)
    requires
        forall|j: int| 0 <= j < a.len() ==> block_md(#[trigger] a[j], s1) == block_md(a[j], s2),
    ensures
        doc_text(a, s1) == doc_text(a, s2),
    decreases a.len(),
{
    if a.len() > 0 {
        let p = a.drop_last();
        assert forall|j: int| 0 <= j < p.len() implies block_md(#[trigger] p[j], s1) == block_md(p[j], s2) by {
            assert(p[j] == a[j]);
        }
        lemma_text_same(p, s1, s2);
        assert(block_md(a[a.len() - 1], s1) == block_md(a[a.len() - 1], s2));
    }
}

/// Editing slot `i` of kind `k` of a well-formed document changes the text
/// of exactly one block: the one that shows that slot, which then shows the
/// new text. Every other block renders as before, so the document's text is
/// the old text before and after that block, with the new block text between.
pub proof fn edit_changes_one_block(d: DocView, k: SlotKind, i: nat, t: Seq<char>) -> (j: int)
    requires
        d.wf(),
        i < d.slots.store(k).len(),
    ensures
        0 <= j < d.blocks.len(),
        d.blocks[j] == slot_block(k, i),
        block_md(d.blocks[j], d.slots.with_text(k, i as int, t)) == slot_md(k, t),
        forall|j2: int|
            0 <= j2 < d.blocks.len() && j2 != j ==> block_md(d.blocks[j2], d.slots.with_text(k, i as int, t))
                == block_md(d.blocks[j2], d.slots),
        doc_text(d.blocks, d.slots.with_text(k, i as int, t)) == doc_text(d.blocks.subrange(0, j), d.slots)
            + slot_md(k, t) + doc_text(d.blocks.subrange(j + 1, d.blocks.len() as int), d.slots),
{
    assert(refs(d.blocks, k)[i as int] == i);
    let j = lemma_ref_exists(d.blocks, k, i as int);
    let e = d.slots.with_text(k, i as int, t);
    assert(refs(d.blocks, k).no_duplicates());
    assert forall|j2: int|
        0 <= j2 < d.blocks.len() && j2 != j implies block_md(d.blocks[j2], e) == block_md(d.blocks[j2], d.slots) by {
        if d.blocks[j2].slot() == Some((k, i)) {
            if j2 < j {
                lemma_ref_unique(d.blocks, k, i, j2, j);
            } else {
                lemma_ref_unique(d.blocks, k, i, j, j2);
            }
        }
        lemma_wf_fits(d, j2);
    }
    let pre = d.blocks.subrange(0, j);
    let mid = seq![d.blocks[j]];
    let post = d.blocks.subrange(j + 1, d.blocks.len() as int);
    assert(d.blocks =~= pre + mid + post);
    lemma_text_concat(pre + mid, post, e);
    lemma_text_concat(pre, mid, e);
    assert(mid.drop_last() =~= Seq::<Block>::empty());
    assert(mid.last() == d.blocks[j]);
    assert(doc_text(mid.drop_last(), e) =~= Seq::<char>::empty());
    assert(doc_text(mid, e) =~= block_md(d.blocks[j], e));
    assert forall|x: int| 0 <= x < pre.len() implies block_md(#[trigger] pre[x], e) == block_md(pre[x], d.slots) by {
        assert(pre[x] == d.blocks[x]);
    }
    assert forall|x: int| 0 <= x < post.len() implies block_md(#[trigger] post[x], e) == block_md(
        post[x],
        d.slots,
    ) by {
        assert(post[x] == d.blocks[x + j + 1]);
    }
    lemma_text_same(pre, e, d.slots);
    lemma_text_same(post, e, d.slots);
    j
}

/// Rendering depends on the document's state alone: two renderings of one
/// unchanged document give the same text.
pub proof fn serialize_is_repeatable(d: DocView, first: Seq<char>, second: Seq<char>)
    requires
        first == d.text(),
        second == d.text(),
    ensures
        first == second,
{
}

proof fn lemma_apply_grows(d: DocView, t: Token, hunk: Option<HunkView>, k: SlotKind)
    ensures
        d.slots.store(k).len() <= d.apply(t, hunk).slots.store(k).len(),
        d.apply(t, hunk).blocks.subrange(0, d.blocks.len() as int) == d.blocks,
{
    assert(d.apply(t, hunk).blocks.subrange(0, d.blocks.len() as int) =~= d.blocks);
}

proof fn lemma_expanded(d: DocView, names: Seq<Seq<char>>, hunk: Option<HunkView>, k: SlotKind)
    requires
        d.wf(),
    ensures
        d.expanded(names, hunk).wf(),
        d.slots.store(k).len() <= d.expanded(names, hunk).slots.store(k).len(),
        d.blocks.len() <= d.expanded(names, hunk).blocks.len(),
        d.expanded(names, hunk).blocks.subrange(0, d.blocks.len() as int) == d.blocks,
    decreases names.len(),
{
    if names.len() > 0 {
        let e = d.expanded(names.drop_last(), hunk);
        lemma_expanded(d, names.drop_last(), hunk, k);
        match token_of(names.last(), hunk is Some) {
            Some(t) => {
                lemma_apply_wf(e, t, hunk);
                lemma_apply_grows(e, t, hunk, k);
                assert(e.apply(t, hunk).blocks.subrange(0, d.blocks.len() as int)
                    =~= e.blocks.subrange(0, d.blocks.len() as int));
            },
            None => {},
        }
    }
}

/// How many entries of `kinds` are `k`.
pub open spec fn count_kind(kinds: Seq<SlotKind>, k: SlotKind) -> nat
    decreases kinds.len(),
{
    if kinds.len() == 0 {
        0
    } else {
        count_kind(kinds.drop_last(), k) + if kinds.last() == k {
            1nat
        } else {
            0nat
        }
    }
}

proof fn lemma_with_slots(d: DocView, kinds: Seq<SlotKind>, k: SlotKind)
    requires
        d.wf(),
    ensures
        d.with_slots(kinds).wf(),
        d.with_slots(kinds).slots.store(k).len() == d.slots.store(k).len() + count_kind(kinds, k),
        d.with_slots(kinds).blocks.len() == d.blocks.len() + kinds.len(),
        d.with_slots(kinds).blocks.subrange(0, d.blocks.len() as int) == d.blocks,
    decreases kinds.len(),
{
    if kinds.len() > 0 {
        let e = d.with_slots(kinds.drop_last());
        lemma_with_slots(d, kinds.drop_last(), k);
        lemma_with_slot_wf(e, kinds.last());
        assert(e.with_slot(kinds.last()).blocks.subrange(0, d.blocks.len() as int)
            =~= e.blocks.subrange(0, d.blocks.len() as int));
    }
}

/// Slots added one after another, of any kinds: those of kind `k` take the
/// indices from that store's length before the first addition upward, one
/// after another, one per addition of that kind; the blocks already there
/// stay in place.
pub proof fn added_slots_numbered_in_order(d: DocView, kinds: Seq<SlotKind>, k: SlotKind)
    requires
        d.wf(),
    ensures
        ({
            let e = d.with_slots(kinds);
            let n0 = d.slots.store(k).len();
            &&& e.slots.store(k).len() == n0 + count_kind(kinds, k)
            &&& e.blocks.subrange(0, d.blocks.len() as int) == d.blocks
            &&& refs(e.blocks, k) == refs(d.blocks, k) + Seq::new(
                count_kind(kinds, k),
                |x: int| (n0 + x) as nat,
            )
        }),
{
    let e = d.with_slots(kinds);
    lemma_with_slots(d, kinds, k);
    let n0 = d.slots.store(k).len();
    let n1 = e.slots.store(k).len();
    assert(refs(e.blocks, k) == upto(n1));
    assert(upto(n1) =~= upto(n0) + Seq::new(count_kind(kinds, k), |x: int| (n0 + x) as nat));
}

/// In one template pass, the new blocks of kind `k` take the slots from the
/// store's length before the pass upward, one after another, and the blocks
/// that were there stay in place.
pub proof fn expansion_numbers_slots_in_order(
    d: DocView,
    names: Seq<Seq<char>>,
    hunk: Option<HunkView>,
    k: SlotKind,
)
    requires
        d.wf(),
    ensures
        ({
            let e = d.expanded(names, hunk);
            let n0 = d.slots.store(k).len();
            let n1 = e.slots.store(k).len();
            &&& n0 <= n1
            &&& e.blocks.subrange(0, d.blocks.len() as int) == d.blocks
            &&& refs(e.blocks, k) == refs(d.blocks, k) + Seq::new(
                (n1 - n0) as nat,
                |x: int| (n0 + x) as nat,
            )
        }),
{
    let e = d.expanded(names, hunk);
    lemma_expanded(d, names, hunk, k);
    let n0 = d.slots.store(k).len();
    let n1 = e.slots.store(k).len();
    assert(refs(e.blocks, k) == upto(n1));
    assert(upto(n1) =~= upto(n0) + Seq::new((n1 - n0) as nat, |x: int| (n0 + x) as nat));
}

} // verus!
