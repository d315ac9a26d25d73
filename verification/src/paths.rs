//! Deterministic path resolution and directory-listing logic.
//!
//! A `PathManager` is constructed once per build with the working directory
//! and the project directory; it maps project-relative paths to a `Path`
//! pairing the working-directory-absolute and project-root-relative forms.
//! Listing a directory is split: the filesystem enumeration happens outside
//! the library and its raw outcome is handed in as a `DirOutcome`; the
//! classification and the deterministic lexicographic ordering of the
//! entries are verified here.

use vstd::prelude::*;
use vstd::string::*;
use vstd::relations::{sorted_by, total_ordering};
use vstd::seq_lib::lemma_sorted_unique;
use vstd::multiset::Multiset;

use crate::errors::BuildError;
use crate::errors::IO;

verus! {

/// Joining a child path onto a parent, the way the platform's path type
/// does it: an absolute child replaces the parent, otherwise the child is
/// appended behind exactly one separator.
pub open spec fn join_path(parent: Seq<char>, child: Seq<char>) -> Seq<char> {
    if child.len() >= 1 && child[0] == '/' {
        child
    } else if parent.len() == 0 {
        child
    } else if parent[parent.len() - 1] == '/' {
        parent + child
    } else {
        parent + "/"@ + child
    }
}

/// Appends `child` behind `parent`, separating them with `/` unless the
/// child is absolute or the parent already ends in the separator.
pub fn make_path(parent: &str, child: &str) -> (r: String)
    ensures
        r@ == join_path(parent@, child@),
{
    let clen = child.unicode_len();
    let plen = parent.unicode_len();
    if clen >= 1 && child.get_char(0) == '/' {
        String::from_str(child)
    } else if plen == 0 {
        String::from_str(child)
    } else if parent.get_char(plen - 1) == '/' {
        let mut s = String::from_str(parent);
        s.append(child);
        s
    } else {
        let mut s = String::from_str(parent);
        s.append("/");
        s.append(child);
        s
    }
}

/// One logical location expressed two ways: absolute to the working
/// directory, and relative to the project root.
pub struct Path {
    pub rel_to_working_dir: String,
    pub rel_to_project_root: String,
}

/// Resolves project-relative paths.  Captures the working directory and the
/// project directory once, at construction; resolution itself is pure.
pub struct PathManager {
    pub working_dir_abs: String,
    pub project_dir_rel_working_dir: String,
}

impl PathManager {
    pub fn new(working_dir_abs: String, project_dir_rel_working_dir: String) -> (r: Self)
        ensures
            r.working_dir_abs@ == working_dir_abs@,
            r.project_dir_rel_working_dir@ == project_dir_rel_working_dir@,
    {
        Self { working_dir_abs, project_dir_rel_working_dir }
    }

    /// The working-directory-absolute form of a project-relative path.
    pub open spec fn spec_path_in_project(&self, rel: Seq<char>) -> Seq<char> {
        join_path(join_path(self.working_dir_abs@, self.project_dir_rel_working_dir@), rel)
    }

    /// Maps a project-relative path to both of its forms.
    pub fn path_in_project(&self, path_rel_project_dir: &str) -> (r: Path)
        ensures
            r.rel_to_project_root@ == path_rel_project_dir@,
            r.rel_to_working_dir@ == self.spec_path_in_project(path_rel_project_dir@),
    {
        let root = make_path(self.working_dir_abs.as_str(), self.project_dir_rel_working_dir.as_str());
        Path {
            rel_to_working_dir: make_path(root.as_str(), path_rel_project_dir),
            rel_to_project_root: String::from_str(path_rel_project_dir),
        }
    }
}

/// Lexicographic order on path texts, by Unicode code point.
pub open spec fn str_le(a: Seq<char>, b: Seq<char>) -> bool
    decreases a.len(),
{
    if a.len() == 0 {
        true
    } else if b.len() == 0 {
        false
    } else if a[0] == b[0] {
        str_le(a.drop_first(), b.drop_first())
    } else {
        (a[0] as int) < (b[0] as int)
    }
}

/// `str_le` as a binary relation value, for the ordering lemmas.
pub open spec fn str_leq() -> spec_fn(Seq<char>, Seq<char>) -> bool {
    |a: Seq<char>, b: Seq<char>| str_le(a, b)
}

proof fn lemma_str_le_refl(a: Seq<char>)
    ensures
        str_le(a, a),
    decreases a.len(),
{
    if a.len() > 0 {
        lemma_str_le_refl(a.drop_first());
    }
}

proof fn lemma_str_le_trans(a: Seq<char>, b: Seq<char>, c: Seq<char>)
    requires
        str_le(a, b),
        str_le(b, c),
    ensures
        str_le(a, c),
    decreases a.len(),
{
    if a.len() > 0 && b.len() > 0 && c.len() > 0 {
        if a[0] == b[0] && b[0] == c[0] {
            lemma_str_le_trans(a.drop_first(), b.drop_first(), c.drop_first());
        }
    }
}

proof fn lemma_str_le_antisymmetric(a: Seq<char>, b: Seq<char>)
    requires
        str_le(a, b),
        str_le(b, a),
    ensures
        a == b,
    decreases a.len(),
{
    if a.len() == 0 {
        assert(a =~= b);
    } else {
        lemma_str_le_antisymmetric(a.drop_first(), b.drop_first());
        assert(a =~= seq![a[0]] + a.drop_first());
        assert(b =~= seq![b[0]] + b.drop_first());
    }
}

proof fn lemma_str_le_connected(a: Seq<char>, b: Seq<char>)
    ensures
        str_le(a, b) || str_le(b, a),
    decreases a.len(),
{
    if a.len() > 0 && b.len() > 0 {
        if a[0] == b[0] {
            lemma_str_le_connected(a.drop_first(), b.drop_first());
        } else {
            assert((a[0] as int) != (b[0] as int));
        }
    }
}

/// The lexicographic order on path texts is a total order.
pub proof fn lemma_str_le_total_ordering()
    ensures
        total_ordering(str_leq()),
{
    let leq = str_leq();
    assert forall|a: Seq<char>| #[trigger] leq(a, a) by {
        lemma_str_le_refl(a);
    }
    assert forall|a: Seq<char>, b: Seq<char>, c: Seq<char>|
        #[trigger] leq(a, b) && #[trigger] leq(b, c) implies leq(a, c) by {
        lemma_str_le_trans(a, b, c);
    }
    assert forall|a: Seq<char>, b: Seq<char>|
        #[trigger] leq(a, b) && #[trigger] leq(b, a) implies a == b by {
        lemma_str_le_antisymmetric(a, b);
    }
    assert forall|a: Seq<char>, b: Seq<char>| #[trigger] leq(a, b) || #[trigger] leq(b, a) by {
        lemma_str_le_connected(a, b);
    }
}

/// Relates the order on a suffix pair to the order on the full pair when
/// the dropped prefixes agree.
proof fn lemma_str_le_skip(a: Seq<char>, b: Seq<char>, i: int)
    requires
        0 <= i <= a.len(),
        i <= b.len(),
        forall|k: int| 0 <= k < i ==> a[k] == b[k],
    ensures
        str_le(a, b) == str_le(a.skip(i), b.skip(i)),
    decreases i,
{
    if i > 0 {
        assert(a.len() > 0 && b.len() > 0 && a[0] == b[0]);
        assert(a.drop_first().skip(i - 1) =~= a.skip(i));
        assert(b.drop_first().skip(i - 1) =~= b.skip(i));
        assert(forall|k: int| 0 <= k < i - 1 ==> a.drop_first()[k] == b.drop_first()[k]);
        lemma_str_le_skip(a.drop_first(), b.drop_first(), i - 1);
    } else {
        assert(a.skip(0) =~= a);
        assert(b.skip(0) =~= b);
    }
}

/// Decides `str_le(a@, b@)` by scanning for the first differing character.
pub fn str_le_exec(a: &str, b: &str) -> (r: bool)
    ensures
        r == str_le(a@, b@),
{
    let alen = a.unicode_len();
    let blen = b.unicode_len();
    let mut i: usize = 0;
    loop
        invariant
            i <= alen,
            i <= blen,
            alen == a@.len(),
            blen == b@.len(),
            forall|k: int| 0 <= k < i ==> a@[k] == b@[k],
        decreases alen - i,
    {
        if i == alen {
            proof {
                lemma_str_le_skip(a@, b@, i as int);
                assert(a@.skip(i as int).len() == 0);
            }
            return true;
        }
        if i == blen {
            proof {
                lemma_str_le_skip(a@, b@, i as int);
                assert(b@.skip(i as int).len() == 0);
                assert(a@.skip(i as int).len() > 0);
            }
            return false;
        }
        let ca = a.get_char(i);
        let cb = b.get_char(i);
        if ca != cb {
            proof {
                lemma_str_le_skip(a@, b@, i as int);
                lemma_str_le_skip(b@, a@, i as int);
                assert(a@.skip(i as int)[0] == ca);
                assert(b@.skip(i as int)[0] == cb);
            }
            let r = (ca as u32) < (cb as u32);
            assert(r == ((ca as int) < (cb as int)));
            return r;
        }
        i = i + 1;
    }
}

/// The texts of a sequence of path strings.
pub open spec fn views_of(s: Seq<String>) -> Seq<Seq<char>> {
    s.map_values(|x: String| x@)
}

/// A sorted sequence compares any earlier index below any later one.
proof fn lemma_sorted_index(s: Seq<Seq<char>>, i: int, j: int)
    requires
        sorted_by(s, str_leq()),
        0 <= i <= j < s.len(),
    ensures
        str_le(s[i], s[j]),
{
    let leq = str_leq();
    if i < j {
        assert(leq(s[i], s[j]));
    } else {
        lemma_str_le_refl(s[i]);
    }
}

/// Inserts `x` into a sorted vector, keeping it sorted.
fn insert_sorted(out: &mut Vec<String>, x: String)
    requires
        sorted_by(views_of(old(out)@), str_leq()),
    ensures
        sorted_by(views_of(final(out)@), str_leq()),
        views_of(final(out)@).to_multiset() == views_of(old(out)@).to_multiset().insert(x@),
{
    let mut j: usize = 0;
    loop
        invariant
            j <= out@.len(),
            out@ == old(out)@,
            forall|i: int| 0 <= i < j ==> str_le(#[trigger] views_of(out@)[i], x@),
        ensures
            j <= out@.len(),
            out@ == old(out)@,
            forall|i: int| 0 <= i < j ==> str_le(#[trigger] views_of(out@)[i], x@),
            j < out@.len() ==> !str_le(views_of(out@)[j as int], x@),
        decreases out@.len() - j,
    {
        if j == out.len() {
            break;
        }
        if !str_le_exec(out[j].as_str(), x.as_str()) {
            assert(views_of(out@)[j as int] == out@[j as int]@);
            break;
        }
        assert(views_of(out@)[j as int] == out@[j as int]@);
        j = j + 1;
    }
    let ghost pre = out@;
    let ghost jj = j as int;
    out.insert(j, x);
    proof {
        let leq = str_leq();
        let v_pre = views_of(pre);
        let v_post = views_of(out@);
        assert(v_post =~= v_pre.insert(jj, x@));
        // sortedness of the result
        assert forall|p: int, q: int| 0 <= p < q < v_post.len() implies #[trigger] leq(
            v_post[p],
            v_post[q],
        ) by {
            if q < jj {
                lemma_sorted_index(v_pre, p, q);
            } else if p < jj && q == jj {
                assert(v_post[p] == v_pre[p]);
                assert(str_le(v_pre[p], x@));
            } else if p < jj && q > jj {
                lemma_sorted_index(v_pre, p, q - 1);
            } else if p == jj && q > jj {
                lemma_sorted_index(v_pre, jj, q - 1);
                lemma_str_le_connected(v_pre[jj], x@);
                assert(str_le(x@, v_pre[jj]));
                lemma_str_le_trans(x@, v_pre[jj], v_pre[q - 1]);
            } else {
                lemma_sorted_index(v_pre, p - 1, q - 1);
            }
        }
        // multiset relation
        lemma_insert_multiset(v_pre, x@, jj);
    }
}

/// Inserting one element into a sequence adds exactly that element to its
/// multiset of elements.
proof fn lemma_insert_multiset<A>(s: Seq<A>, x: A, i: int)
    requires
        0 <= i <= s.len(),
    ensures
        s.insert(i, x).to_multiset() == s.to_multiset().insert(x),
    decreases s.len(),
{
    broadcast use vstd::seq_lib::group_to_multiset_ensures;

    let t = s.insert(i, x);
    assert(t.len() == s.len() + 1);
    assert(t.remove(i) =~= s);
    assert(t.remove(i).to_multiset() =~= t.to_multiset().remove(t[i]));
    assert(t[i] == x);
    assert(t.to_multiset().contains(x)) by {
        assert(t.contains(x));
    }
    assert(s.to_multiset() =~= t.to_multiset().remove(x));
    assert(t.to_multiset() =~= s.to_multiset().insert(x));
}

/// Sorts path strings lexicographically: the result is sorted and holds
/// exactly the same texts, so any two enumerations of the same entries sort
/// to the same sequence.
pub fn sort_strings(v: Vec<String>) -> (r: Vec<String>)
    ensures
        sorted_by(views_of(r@), str_leq()),
        views_of(r@).to_multiset() == views_of(v@).to_multiset(),
{
    let ghost orig = v@;
    let mut src = v;
    let mut out: Vec<String> = Vec::new();
    proof {
        broadcast use vstd::seq_lib::group_to_multiset_ensures;

        assert(views_of(out@) =~= Seq::<Seq<char>>::empty());
        assert(views_of(out@).to_multiset().add(views_of(src@).to_multiset()) =~= views_of(
            orig,
        ).to_multiset());
    }
    while src.len() > 0
        invariant
            sorted_by(views_of(out@), str_leq()),
            views_of(out@).to_multiset().add(views_of(src@).to_multiset()) == views_of(
                orig,
            ).to_multiset(),
        decreases src.len(),
    {
        let ghost src_pre = src@;
        let ghost out_pre = out@;
        let x = src.remove(0);
        insert_sorted(&mut out, x);
        proof {
            broadcast use vstd::seq_lib::group_to_multiset_ensures;

            assert(views_of(src@) =~= views_of(src_pre).remove(0));
            assert(views_of(src_pre).remove(0).to_multiset() =~= views_of(
                src_pre,
            ).to_multiset().remove(views_of(src_pre)[0]));
            assert(views_of(src_pre)[0] == x@);
            assert(views_of(out@).to_multiset().add(views_of(src@).to_multiset()) =~= views_of(
                orig,
            ).to_multiset());
        }
    }
    proof {
        broadcast use vstd::seq_lib::group_to_multiset_ensures;

        assert(views_of(src@).to_multiset() =~= Multiset::<Seq<char>>::empty());
        assert(views_of(out@).to_multiset() =~= views_of(orig).to_multiset());
    }
    out
}

/// Law: the sorted listing is order-stable.  Two listings that saw the same
/// entries, in whatever enumeration order the filesystem chose, sort to the
/// same sequence: a sorted sequence is determined by its multiset of texts.
pub proof fn lemma_listing_order_stable(a: Seq<Seq<char>>, b: Seq<Seq<char>>)
    requires
        sorted_by(a, str_leq()),
        sorted_by(b, str_leq()),
        a.to_multiset() == b.to_multiset(),
    ensures
        a == b,
{
    lemma_str_le_total_ordering();
    lemma_sorted_unique(a, b, str_leq());
    assert(a =~= b);
}

/// The raw outcome of asking the filesystem to enumerate a directory,
/// before any classification.
pub enum DirOutcome {
    /// The directory exists and every entry was read: its entries' full
    /// paths, in whatever order the filesystem produced them.
    Entries { paths: Vec<String> },
    /// The directory exists but reading one of its entries failed.
    EntryFailed { msg: String },
    /// The directory does not exist.
    NotFound,
    /// The directory could not be listed for any other reason.
    Failed { msg: String },
}

/// Classifies a directory enumeration and orders its entries.
///
/// A missing directory is not an error: it stands for "zero entries of this
/// kind" and yields the empty listing.  Any other failure becomes an `IO`
/// error carrying the attempted path.  A successful enumeration is returned
/// sorted lexicographically by full path text, so listing is deterministic
/// whatever order the filesystem enumerated in.
pub fn get_paths_from_dir(dir_path: &str, outcome: DirOutcome) -> (r: Result<
    Vec<String>,
    BuildError,
>)
    ensures
        outcome matches DirOutcome::NotFound ==> r matches Ok(v) && v@.len() == 0,
        outcome matches DirOutcome::Failed { msg } ==> r matches Err(BuildError::IO(e))
            && e.path@ == dir_path@ && e.msg@ == msg@,
        outcome matches DirOutcome::EntryFailed { msg } ==> r matches Err(BuildError::IO(e))
            && e.path@ == dir_path@ && e.msg@ == msg@,
        outcome matches DirOutcome::Entries { paths } ==> r matches Ok(v) && sorted_by(
            views_of(v@),
            str_leq(),
        ) && views_of(v@).to_multiset() == views_of(paths@).to_multiset(),
{
    match outcome {
        DirOutcome::Entries { paths } => Ok(sort_strings(paths)),
        DirOutcome::EntryFailed { msg } => Err(BuildError::IO(IO::new(
            String::from_str(dir_path),
            msg,
        ))),
        DirOutcome::NotFound => Ok(Vec::new()),
        DirOutcome::Failed { msg } => Err(BuildError::IO(IO::new(
            String::from_str(dir_path),
            msg,
        ))),
    }
}

} // verus!
