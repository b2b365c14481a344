//! Groups a stream of diff lines into per-file hunks.
use vstd::prelude::*;
use vstd::utf8::{valid_utf8, decode_utf8};
use crate::content::{DiffHunk, HunkView, LineKind, kind_of, line_view};
use crate::text::push_char;

verus! {

/// One diff line as the repository hands it over: the file it belongs to,
/// its origin marker, and its raw content.
#[derive(Clone, Debug)]
pub struct RawDiffLine {
    pub path: String,
    pub origin: char,
    pub content: Vec<u8>,
}

/// One diff line whose content is text.
#[derive(Clone, Debug)]
pub struct DiffLine {
    pub path: String,
    pub origin: char,
    pub text: String,
}

pub ghost struct RawView {
    pub path: Seq<char>,
    pub origin: char,
    pub content: Seq<u8>,
}

pub ghost struct LineView {
    pub path: Seq<char>,
    pub origin: char,
    pub text: Seq<char>,
}

impl View for RawDiffLine {
    type V = RawView;

    open spec fn view(&self) -> RawView {
        RawView { path: self.path@, origin: self.origin, content: self.content@ }
    }
}

impl View for DiffLine {
    type V = LineView;

    open spec fn view(&self) -> LineView {
        LineView { path: self.path@, origin: self.origin, text: self.text@ }
    }
}

pub open spec fn raws_view(v: Seq<RawDiffLine>) -> Seq<RawView> {
    v.map_values(|l: RawDiffLine| l@)
}

pub open spec fn lines_view(v: Seq<DiffLine>) -> Seq<LineView> {
    v.map_values(|l: DiffLine| l@)
}

pub open spec fn hunks_view(v: Seq<DiffHunk>) -> Seq<HunkView> {
    v.map_values(|h: DiffHunk| h@)
}

/// Header and fragment lines carry no file content.
pub open spec fn is_marker(origin: char) -> bool {
    origin == 'H' || origin == 'F'
}

/// The text lines of a raw stream: marker lines and lines whose content is
/// not UTF-8 are left out, the others decoded, in order.
pub open spec fn decoded(raw: Seq<RawView>) -> Seq<LineView>
    decreases raw.len(),
{
    if raw.len() == 0 {
        Seq::empty()
    } else {
        let rest = decoded(raw.drop_last());
        let l = raw.last();
        if is_marker(l.origin) || !valid_utf8(l.content) {
            rest
        } else {
            rest.push(LineView { path: l.path, origin: l.origin, text: decode_utf8(l.content) })
        }
    }
}

/// A line as it stands in a hunk: its origin marker, then its text.
pub open spec fn rendered(l: LineView) -> (Seq<char>, LineKind) {
    (seq![l.origin] + l.text, kind_of(l.origin))
}

/// The segmenter's state: closed hunks, the path being tracked, and the
/// lines gathered for it.
pub ghost struct SegState {
    pub done: Seq<HunkView>,
    pub path: Seq<char>,
    pub lines: Seq<(Seq<char>, LineKind)>,
}

pub open spec fn seg_step(st: SegState, l: LineView) -> SegState {
    if l.path != st.path && st.lines.len() > 0 {
        SegState {
            done: st.done.push(HunkView { path: st.path, lines: st.lines }),
            path: l.path,
            lines: seq![rendered(l)],
        }
    } else {
        SegState { done: st.done, path: l.path, lines: st.lines.push(rendered(l)) }
    }
}

pub open spec fn seg_run(ls: Seq<LineView>) -> SegState
    decreases ls.len(),
{
    if ls.len() == 0 {
        SegState { done: Seq::empty(), path: Seq::empty(), lines: Seq::empty() }
    } else {
        seg_step(seg_run(ls.drop_last()), ls.last())
    }
}

/// The closed hunks, followed by the last one if it holds any line.
pub open spec fn flushed(st: SegState) -> Seq<HunkView> {
    if st.lines.len() > 0 {
        st.done.push(HunkView { path: st.path, lines: st.lines })
    } else {
        st.done
    }
}

/// The hunks of a line stream: a new hunk starts wherever the path changes.
pub open spec fn segmented(ls: Seq<LineView>) -> Seq<HunkView> {
    flushed(seg_run(ls))
}

fn render_line(l: &DiffLine) -> (r: (String, LineKind))
    ensures
        line_view(r) == rendered(l@),
{
    let mut s = String::new();
    push_char(&mut s, l.origin);
    s.append(l.text.as_str());
    assert(s@ =~= seq![l.origin] + l.text@);
    (s, crate::content::classify(l.origin))
}

/// Groups text lines into hunks, one per run of lines of the same file.
pub fn segment_lines(lines: &Vec<DiffLine>) -> (r: Vec<DiffHunk>)
    ensures
        hunks_view(r@) == segmented(lines_view(lines@)),
{
    let ghost ls = lines_view(lines@);
    let mut done: Vec<DiffHunk> = Vec::new();
    let mut path = String::new();
    let mut cur: Vec<(String, LineKind)> = Vec::new();
    let mut i: usize = 0;
    proof {
        assert(ls.subrange(0, 0) =~= Seq::<LineView>::empty());
        assert(hunks_view(done@) =~= Seq::<HunkView>::empty());
        assert(cur@.map_values(|l: (String, LineKind)| line_view(l)) =~= Seq::<(Seq<char>, LineKind)>::empty());
    }
    while i < lines.len()
        invariant
            i <= lines.len(),
            ls == lines_view(lines@),
            hunks_view(done@) == seg_run(ls.subrange(0, i as int)).done,
            path@ == seg_run(ls.subrange(0, i as int)).path,
            cur@.map_values(|l: (String, LineKind)| line_view(l)) == seg_run(ls.subrange(0, i as int)).lines,
        decreases lines.len() - i,
    {
        let ghost prev = seg_run(ls.subrange(0, i as int));
        assert(ls.subrange(0, i + 1).drop_last() =~= ls.subrange(0, i as int));
        assert(ls.subrange(0, i + 1).last() == lines@[i as int]@);
        let l = &lines[i];
        let same = l.path == path;
        if !same && cur.len() > 0 {
            let h = DiffHunk { path: path.clone(), lines: cur };
            done.push(h);
            cur = Vec::new();
            assert(hunks_view(done@) =~= prev.done.push(HunkView { path: prev.path, lines: prev.lines }));
        }
        path = l.path.clone();
        let ghost before = cur@;
        cur.push(render_line(l));
        assert(cur@.map_values(|l: (String, LineKind)| line_view(l))
            =~= before.map_values(|l: (String, LineKind)| line_view(l)).push(rendered(lines@[i as int]@)));
        i = i + 1;
    }
    assert(ls.subrange(0, i as int) =~= ls);
    if cur.len() > 0 {
        let ghost st = seg_run(ls);
        done.push(DiffHunk { path, lines: cur });
        assert(hunks_view(done@) =~= st.done.push(HunkView { path: st.path, lines: st.lines }));
    }
    done
}

/// Relies on std::str::from_utf8: it accepts exactly the valid UTF-8 byte
/// strings and yields the characters they encode.
#[verifier::external_body]
fn decode_text(b: &[u8]) -> (r: Option<String>)
    ensures
        r is Some <==> valid_utf8(b@),
        r is Some ==> r->0@ == decode_utf8(b@),
{
    std::str::from_utf8(b).ok().map(|s| s.to_string())
}

/// The text lines of a raw stream (see `decoded`).
pub fn decode_lines(raw: &Vec<RawDiffLine>) -> (r: Vec<DiffLine>)
    ensures
        lines_view(r@) == decoded(raws_view(raw@)),
{
    let ghost rs = raws_view(raw@);
    let mut out: Vec<DiffLine> = Vec::new();
    let mut i: usize = 0;
    assert(lines_view(out@) =~= decoded(rs.subrange(0, 0)));
    while i < raw.len()
        invariant
            i <= raw.len(),
            rs == raws_view(raw@),
            lines_view(out@) == decoded(rs.subrange(0, i as int)),
        decreases raw.len() - i,
    {
        assert(rs.subrange(0, i + 1).drop_last() =~= rs.subrange(0, i as int));
        let l = &raw[i];
        if l.origin != 'H' && l.origin != 'F' {
            match decode_text(l.content.as_slice()) {
                Some(t) => {
                    out.push(DiffLine { path: l.path.clone(), origin: l.origin, text: t });
                    assert(lines_view(out@) =~= decoded(rs.subrange(0, i + 1)));
                },
                None => {},
            }
        }
        i = i + 1;
    }
    assert(rs.subrange(0, i as int) =~= rs);
    out
}

/// The hunks of a raw diff stream: marker lines and undecodable lines are
/// skipped, the rest grouped by file.
pub fn segment(raw: &Vec<RawDiffLine>) -> (r: Vec<DiffHunk>)
    ensures
        hunks_view(r@) == segmented(decoded(raws_view(raw@))),
{
    let lines = decode_lines(raw);
    segment_lines(&lines)
}

pub open spec fn rendered_all(ls: Seq<LineView>) -> Seq<(Seq<char>, LineKind)> {
    ls.map_values(|l: LineView| rendered(l))
}

pub open spec fn all_on_path(ls: Seq<LineView>, p: Seq<char>) -> bool {
    forall|j: int| 0 <= j < ls.len() ==> (#[trigger] ls[j]).path == p
}

proof fn lemma_extend_run(prefix: Seq<LineView>, run: Seq<LineView>)
    requires
        seg_run(prefix).lines.len() > 0,
        all_on_path(run, seg_run(prefix).path),
    ensures
        seg_run(prefix + run) == (SegState {
            done: seg_run(prefix).done,
            path: seg_run(prefix).path,
            lines: seg_run(prefix).lines + rendered_all(run),
        }),
    decreases run.len(),
{
    if run.len() == 0 {
        assert(prefix + run =~= prefix);
        assert(seg_run(prefix).lines + rendered_all(run) =~= seg_run(prefix).lines);
    } else {
        lemma_extend_run(prefix, run.drop_last());
        assert((prefix + run).drop_last() =~= prefix + run.drop_last());
        assert((prefix + run).last() == run.last());
        assert(rendered_all(run) =~= rendered_all(run.drop_last()).push(rendered(run.last())));
        assert(seg_run(prefix).lines + rendered_all(run)
            =~= (seg_run(prefix).lines + rendered_all(run.drop_last())).push(rendered(run.last())));
    }
}

proof fn lemma_start_run(prefix: Seq<LineView>, run: Seq<LineView>, p: Seq<char>)
    requires
        run.len() > 0,
        all_on_path(run, p),
        seg_run(prefix).lines.len() == 0 || seg_run(prefix).path != p,
    ensures
        seg_run(prefix + run) == (SegState {
            done: flushed(seg_run(prefix)),
            path: p,
            lines: rendered_all(run),
        }),
{
    let first = prefix.push(run[0]);
    assert(first.drop_last() =~= prefix);
    assert(run[0].path == p);
    let rest = run.subrange(1, run.len() as int);
    assert(all_on_path(rest, p)) by {
        assert forall|j: int| 0 <= j < rest.len() implies (#[trigger] rest[j]).path == p by {
            assert(rest[j] == run[j + 1]);
        }
    }
    lemma_extend_run(first, rest);
    assert(first + rest =~= prefix + run);
    assert(rendered_all(run) =~= seq![rendered(run[0])] + rendered_all(rest));
}

/// An empty line stream has no hunk.
pub proof fn segment_of_empty()
    ensures
        segmented(Seq::empty()) == Seq::<HunkView>::empty(),
{
}

/// Lines that all belong to one file make exactly one hunk, holding every
/// line in the order it came.
pub proof fn segment_of_one_file(ls: Seq<LineView>, p: Seq<char>)
    requires
        ls.len() > 0,
        all_on_path(ls, p),
    ensures
        segmented(ls) == seq![HunkView { path: p, lines: rendered_all(ls) }],
{
    lemma_start_run(Seq::empty(), ls, p);
    assert(Seq::<LineView>::empty() + ls =~= ls);
    assert(rendered_all(ls).len() > 0);
}

/// Runs of lines for file `a`, then `b`, then `a` again make three hunks in
/// that order: runs of the same file that are not adjacent stay apart.
pub proof fn segment_keeps_separate_runs(
    x: Seq<LineView>,
    y: Seq<LineView>,
    z: Seq<LineView>,
    a: Seq<char>,
    b: Seq<char>,
)
    requires
        x.len() > 0,
        y.len() > 0,
        z.len() > 0,
        a != b,
        all_on_path(x, a),
        all_on_path(y, b),
        all_on_path(z, a),
    ensures
        segmented(x + y + z) == seq![
            HunkView { path: a, lines: rendered_all(x) },
            HunkView { path: b, lines: rendered_all(y) },
            HunkView { path: a, lines: rendered_all(z) },
        ],
{
    let e = Seq::<LineView>::empty();
    lemma_start_run(e, x, a);
    assert(e + x =~= x);
    lemma_start_run(x, y, b);
    lemma_start_run(x + y, z, a);
    assert(flushed(seg_run(x)) =~= seq![HunkView { path: a, lines: rendered_all(x) }]);
    assert(rendered_all(z).len() > 0);
}

} // verus!
