//! Commit labels along a first-parent ancestry walk, and the lookup from a
//! label back to its commit.
use vstd::prelude::*;
use crate::text::strings_view;

verus! {

/// A character with the Unicode property White_Space.
pub open spec fn is_white_space(c: char) -> bool {
    let u = c as u32;
    (0x9 <= u && u <= 0xD) || u == 0x20 || u == 0x85 || u == 0xA0 || u == 0x1680 || (0x2000 <= u
        && u <= 0x200A) || u == 0x2028 || u == 0x2029 || u == 0x202F || u == 0x205F || u == 0x3000
}

/// The text without its leading white space.
pub open spec fn trim_start(s: Seq<char>) -> Seq<char>
    decreases s.len(),
{
    if s.len() > 0 && is_white_space(s[0]) {
        trim_start(s.drop_first())
    } else {
        s
    }
}

/// The text without its trailing white space.
pub open spec fn trim_end(s: Seq<char>) -> Seq<char>
    decreases s.len(),
{
    if s.len() > 0 && is_white_space(s.last()) {
        trim_end(s.drop_last())
    } else {
        s
    }
}

/// The text without leading and trailing white space.
pub open spec fn trimmed(s: Seq<char>) -> Seq<char> {
    trim_end(trim_start(s))
}

/// Relies on str::trim, which removes leading and trailing characters with
/// the Unicode White_Space property.
#[verifier::external_body]
fn trim_text(s: &str) -> (r: String)
    ensures
        r@ == trimmed(s@),
{
    s.trim().to_string()
}

/// The text before the first line break (all of it if there is none).
pub open spec fn first_line(s: Seq<char>) -> Seq<char>
    decreases s.len(),
{
    if s.len() == 0 || s[0] == '\n' {
        Seq::empty()
    } else {
        seq![s[0]] + first_line(s.drop_first())
    }
}

/// The first six characters of a commit id (all of it if shorter).
pub open spec fn short_id(id: Seq<char>) -> Seq<char> {
    if id.len() >= 6 {
        id.subrange(0, 6)
    } else {
        id
    }
}

/// A label from a commit's trimmed first line and its id.
pub open spec fn label_of(line: Seq<char>, id: Seq<char>) -> Seq<char> {
    line + " : "@ + short_id(id) + "..."@
}

/// The label a commit is listed under.
pub open spec fn commit_label(id: Seq<char>, message: Seq<char>) -> Seq<char> {
    label_of(trimmed(first_line(message)), id)
}

proof fn lemma_first_line(s: Seq<char>, k: int)
    requires
        0 <= k <= s.len(),
        k == s.len() || s[k] == '\n',
        forall|j: int| 0 <= j < k ==> s[j] != '\n',
    ensures
        first_line(s) == s.subrange(0, k),
    decreases k,
{
    if k > 0 {
        let t = s.drop_first();
        assert forall|j: int| 0 <= j < k - 1 implies t[j] != '\n' by {
            assert(t[j] == s[j + 1]);
        }
        lemma_first_line(t, k - 1);
        assert(seq![s[0]] + t.subrange(0, k - 1) =~= s.subrange(0, k));
    } else {
        assert(s.subrange(0, 0) =~= Seq::<char>::empty());
    }
}

/// The first line of `s`.
pub fn first_line_of(s: &str) -> (r: &str)
    ensures
        r@ == first_line(s@),
{
    let n = s.unicode_len();
    let mut k: usize = 0;
    while k < n && s.get_char(k) != '\n'
        invariant
            k <= n,
            n == s@.len(),
            forall|j: int| 0 <= j < k ==> s@[j] != '\n',
        decreases n - k,
    {
        k = k + 1;
    }
    proof {
        lemma_first_line(s@, k as int);
    }
    s.substring_char(0, k)
}

/// A label from a trimmed first line and a commit id.
pub fn label_from_parts(line: &str, id: &str) -> (r: String)
    ensures
        r@ == label_of(line@, id@),
{
    let mut r = String::from_str(line);
    r.append(" : ");
    let n = id.unicode_len();
    if n >= 6 {
        r.append(id.substring_char(0, 6));
    } else {
        r.append(id);
    }
    r.append("...");
    assert(r@ =~= label_of(line@, id@));
    r
}

/// The label a commit is listed under: the first line of its message,
/// trimmed, then the first six characters of its id.
pub fn make_label(id: &str, message: &str) -> (r: String)
    ensures
        r@ == commit_label(id@, message@),
{
    let line = trim_text(first_line_of(message));
    label_from_parts(line.as_str(), id)
}

/// The id stored last under `label`, looking from the end of the walk.
pub open spec fn find_last(labels: Seq<Seq<char>>, ids: Seq<Seq<char>>, label: Seq<char>) -> Option<Seq<char>>
    decreases labels.len(),
{
    if labels.len() == 0 || ids.len() == 0 {
        None
    } else if labels.last() == label {
        Some(ids.last())
    } else {
        find_last(labels.drop_last(), ids.drop_last(), label)
    }
}

/// The commits met on an ancestry walk, newest first, with their labels.
/// A label met twice maps to the commit met last.
#[derive(Clone, Debug)]
pub struct CommitLabeler {
    pub labels: Vec<String>,
    pub ids: Vec<String>,
}

impl CommitLabeler {
    pub open spec fn label_seq(&self) -> Seq<Seq<char>> {
        strings_view(self.labels@)
    }

    pub open spec fn id_seq(&self) -> Seq<Seq<char>> {
        strings_view(self.ids@)
    }

    /// One label per commit, and no commit twice.
    pub open spec fn wf(&self) -> bool {
        &&& self.labels@.len() == self.ids@.len()
        &&& self.id_seq().no_duplicates()
    }

    /// The commit that `label` stands for.
    pub open spec fn lookup(&self, label: Seq<char>) -> Option<Seq<char>> {
        find_last(self.label_seq(), self.id_seq(), label)
    }

    /// A walk that has met no commit yet.
    pub fn new() -> (r: CommitLabeler)
        ensures
            r.wf(),
            r.labels@.len() == 0,
    {
        let r = CommitLabeler { labels: Vec::new(), ids: Vec::new() };
        assert(r.id_seq() =~= Seq::<Seq<char>>::empty());
        r
    }

    /// Whether the walk has met commit `id`.
    pub fn has_visited(&self, id: &String) -> (r: bool)
        ensures
            r == self.id_seq().contains(id@),
    {
        let mut i: usize = 0;
        while i < self.ids.len()
            invariant
                i <= self.ids.len(),
                forall|j: int| 0 <= j < i ==> self.id_seq()[j] != id@,
            decreases self.ids.len() - i,
        {
            if self.ids[i] == *id {
                assert(self.id_seq()[i as int] == id@);
                return true;
            }
            i = i + 1;
        }
        false
    }

    /// Records the next commit of the walk. A commit met before is not
    /// recorded again, and the answer `false` tells the walk to stop.
    pub fn visit(&mut self, id: &String, message: &String) -> (fresh: bool)
        requires
            old(self).wf(),
        ensures
            final(self).wf(),
            fresh == !old(self).id_seq().contains(id@),
            fresh ==> final(self).label_seq() == old(self).label_seq().push(commit_label(id@, message@)),
            fresh ==> final(self).id_seq() == old(self).id_seq().push(id@),
            fresh ==> final(self).lookup(commit_label(id@, message@)) == Some(id@),
            fresh ==> forall|l: Seq<char>|
                l != commit_label(id@, message@) ==> #[trigger] final(self).lookup(l) == old(self).lookup(l),
            !fresh ==> *final(self) == *old(self),
    {
        if self.has_visited(id) {
            return false;
        }
        let label = make_label(id.as_str(), message.as_str());
        let ghost ol = self.label_seq();
        let ghost oi = self.id_seq();
        self.labels.push(label);
        self.ids.push(id.clone());
        assert(self.label_seq() =~= ol.push(commit_label(id@, message@)));
        assert(self.id_seq() =~= oi.push(id@));
        assert(self.label_seq().drop_last() =~= ol);
        assert(self.id_seq().drop_last() =~= oi);
        assert(self.id_seq().no_duplicates()) by {
            assert forall|a: int, b: int|
                0 <= a < b < self.id_seq().len() implies self.id_seq()[a] != self.id_seq()[b] by {
                if b == oi.len() {
                    assert(oi[a] == self.id_seq()[a]);
                }
            }
        }
        true
    }

    /// The commit that `label` stands for, if the walk met one.
    pub fn find(&self, label: &String) -> (r: Option<String>)
        requires
            self.wf(),
        ensures
            r is Some <==> self.lookup(label@) is Some,
            r is Some ==> r->0@ == self.lookup(label@)->0,
    {
        let mut i: usize = self.labels.len();
        assert(self.label_seq().subrange(0, i as int) =~= self.label_seq());
        assert(self.id_seq().subrange(0, i as int) =~= self.id_seq());
        while i > 0
            invariant
                i <= self.labels.len(),
                self.wf(),
                self.lookup(label@) == find_last(
                    self.label_seq().subrange(0, i as int),
                    self.id_seq().subrange(0, i as int),
                    label@,
                ),
            decreases i,
        {
            let ghost ls = self.label_seq().subrange(0, i as int);
            let ghost is = self.id_seq().subrange(0, i as int);
            assert(ls.drop_last() =~= self.label_seq().subrange(0, i - 1));
            assert(is.drop_last() =~= self.id_seq().subrange(0, i - 1));
            if self.labels[i - 1] == *label {
                return Some(self.ids[i - 1].clone());
            }
            i = i - 1;
        }
        None
    }
}

/// A walk records each commit at most once, so a walk over a repository
/// with finitely many commits records no more commits than it holds: each
/// further step meets a commit recorded before, and `visit` then ends it.
pub proof fn walk_is_bounded(w: CommitLabeler, commits: Set<Seq<char>>)
    requires
        w.wf(),
        commits.finite(),
        forall|i: int| 0 <= i < w.id_seq().len() ==> commits.contains(#[trigger] w.id_seq()[i]),
    ensures
        w.id_seq().len() <= commits.len(),
{
    let ids = w.id_seq();
    ids.unique_seq_to_set();
    assert(ids.to_set().subset_of(commits)) by {
        assert forall|x: Seq<char>| ids.to_set().contains(x) implies commits.contains(x) by {
            let i = choose|i: int| 0 <= i < ids.len() && ids[i] == x;
        }
    }
    vstd::set_lib::lemma_len_subset(ids.to_set(), commits);
}

} // verus!
