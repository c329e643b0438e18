//! Named-frequency bookmarks: the records, the file that holds them, and
//! the edits the commands make to it. Reading and writing the file is the
//! caller's work.
use crate::error::{RailError, RailErrorView};
use crate::text::{decimal, hex, is_trim_of, push_digits, trim};
use vstd::prelude::*;
use vstd::string::*;

verus! {

/// The newest bookmarks file format this build reads and the one it writes.
pub const FILE_VERSION: u32 = 1;

/// One named frequency.
#[derive(Debug, Clone)]
pub struct Bookmark {
    /// Hexadecimal nanoseconds since the Unix epoch at creation.
    pub id: String,
    pub name: String,
    pub frequency_hz: u32,
    /// Seconds since the Unix epoch at creation.
    pub created_at: u64,
}

/// The bookmarks file: a format version and the bookmarks.
pub struct BookmarksFile {
    pub version: u32,
    pub bookmarks: Vec<Bookmark>,
}

impl Default for BookmarksFile {
    /// The file that stands in for a missing one: current version, empty.
    fn default() -> (r: Self)
        ensures
            r.version == FILE_VERSION,
            r.bookmarks@.len() == 0,
    {
        BookmarksFile { version: FILE_VERSION, bookmarks: Vec::new() }
    }
}

/// Accepts a loaded file unless its format is newer than this build reads.
pub fn check_file_version(file: BookmarksFile) -> (r: Result<BookmarksFile, RailError>)
    ensures
        file.version <= FILE_VERSION ==> r == Ok::<BookmarksFile, RailError>(file),
        file.version > FILE_VERSION ==> (r matches Err(e) && e@ == RailErrorView::CaptureError(
            "bookmarks.json version "@ + decimal(file.version as nat)
                + " is newer than supported (1)"@,
        )),
{
    if file.version > FILE_VERSION {
        let mut msg = String::from_str("bookmarks.json version ");
        push_digits(&mut msg, file.version as u128, 10);
        msg.append(" is newer than supported (1)");
        proof {
            reveal_strlit("bookmarks.json version ");
            reveal_strlit(" is newer than supported (1)");
        }
        return Err(RailError::CaptureError(msg));
    }
    Ok(file)
}

/// The name a new bookmark gets: the given one trimmed, which must not be
/// empty.
pub fn bookmark_name(name: &str) -> (r: Result<String, RailError>)
    ensures
        r matches Ok(t) ==> is_trim_of(name@, t@) && t@.len() > 0,
        r matches Err(e) ==> is_trim_of(name@, Seq::<char>::empty()) && e@
            == RailErrorView::InvalidParameter("bookmark name empty"@),
{
    let t = trim(name);
    if t.as_str().unicode_len() == 0 {
        proof {
            reveal_strlit("bookmark name empty");
            assert(t@ =~= Seq::<char>::empty());
        }
        Err(RailError::InvalidParameter(String::from_str("bookmark name empty")))
    } else {
        Ok(t)
    }
}

/// A bookmark created `now_nanos` nanoseconds after the Unix epoch.
pub fn make_bookmark(name: String, frequency_hz: u32, now_nanos: u128) -> (r: Bookmark)
    requires
        now_nanos < (u64::MAX as u128 + 1) * 1_000_000_000,
    ensures
        r.id@ == hex(now_nanos as nat),
        r.name@ == name@,
        r.frequency_hz == frequency_hz,
        r.created_at == now_nanos / 1_000_000_000,
{
    let mut id = String::new();
    push_digits(&mut id, now_nanos, 16);
    proof {
        assert(id@ =~= hex(now_nanos as nat));
    }
    Bookmark { id, name, frequency_hz, created_at: (now_nanos / 1_000_000_000) as u64 }
}

/// Whether a bookmark does not carry `id`.
pub open spec fn keeps(id: Seq<char>) -> spec_fn(Bookmark) -> bool {
    |b: Bookmark| b.id@ != id
}

/// The bookmarks other than those with `id`, order kept.
pub fn without_id(bookmarks: Vec<Bookmark>, id: &str) -> (r: Vec<Bookmark>)
    ensures
        r@ == bookmarks@.filter(keeps(id@)),
{
    let ghost orig = bookmarks@;
    let mut rest = bookmarks;
    let mut out: Vec<Bookmark> = Vec::new();
    while rest.len() > 0
        invariant
            rest@.len() <= orig.len(),
            rest@ == orig.subrange(orig.len() - rest@.len(), orig.len() as int),
            out@ == orig.take(orig.len() - rest@.len()).filter(keeps(id@)),
        decreases rest@.len(),
    {
        let ghost k = orig.len() - rest@.len();
        let b = rest.remove(0);
        proof {
            assert(b == orig[k]);
            assert(orig.take(k + 1).drop_last() =~= orig.take(k));
            reveal(Seq::filter);
            assert(rest@ =~= orig.subrange(orig.len() - rest@.len(), orig.len() as int));
        }
        if !crate::text::str_eq(b.id.as_str(), id) {
            out.push(b);
        }
    }
    proof {
        assert(orig.take(orig.len() as int) =~= orig);
    }
    out
}

/// Removing a bookmark twice is removing it once, and removing an id that
/// no bookmark carries leaves the list as it was.
pub proof fn lemma_remove_idempotent(bookmarks: Seq<Bookmark>, id: Seq<char>)
    ensures
        bookmarks.filter(keeps(id)).filter(keeps(id)) == bookmarks.filter(keeps(id)),
        (forall|i: int| 0 <= i < bookmarks.len() ==> bookmarks[i].id@ != id) ==> bookmarks.filter(
            keeps(id),
        ) == bookmarks,
    decreases bookmarks.len(),
{
    reveal(Seq::filter);
    if bookmarks.len() > 0 {
        let p = bookmarks.drop_last();
        lemma_remove_idempotent(p, id);
        if forall|i: int| 0 <= i < bookmarks.len() ==> bookmarks[i].id@ != id {
            assert(forall|i: int| 0 <= i < p.len() ==> p[i] == bookmarks[i]);
            assert(p.push(bookmarks.last()) =~= bookmarks);
        }
        let f = p.filter(keeps(id));
        if keeps(id)(bookmarks.last()) {
            assert(f.push(bookmarks.last()).drop_last() =~= f);
        }
    } else {
        assert(bookmarks.filter(keeps(id)) =~= bookmarks);
    }
}

/// `p` places each entry of `r` in `orig`: at increasing positions, each
/// entry a bookmark of `orig` that does not carry `id`, and every bookmark
/// of `orig` that does not carry `id` placed.
pub open spec fn placed_without(orig: Seq<Bookmark>, r: Seq<Bookmark>, id: Seq<char>, p: Seq<int>) -> bool {
    &&& p.len() == r.len()
    &&& forall|i: int, j: int| 0 <= i < j < p.len() ==> p[i] < p[j]
    &&& forall|i: int|
        0 <= i < p.len() ==> 0 <= #[trigger] p[i] < orig.len() && r[i] == orig[p[i]]
            && orig[p[i]].id@ != id
    &&& forall|j: int|
        0 <= j < orig.len() && (#[trigger] orig[j]).id@ != id ==> exists|i: int|
            0 <= i < p.len() && p[i] == j
}

/// Removing by id leaves no bookmark that carries the id, and keeps every
/// other bookmark, each once and in its original order.
pub proof fn lemma_removal_is_exact(bookmarks: Seq<Bookmark>, id: Seq<char>)
    ensures
        forall|i: int|
            0 <= i < bookmarks.filter(keeps(id)).len() ==> (#[trigger] bookmarks.filter(
                keeps(id),
            )[i]).id@ != id,
        exists|p: Seq<int>| placed_without(bookmarks, bookmarks.filter(keeps(id)), id, p),
    decreases bookmarks.len(),
{
    reveal(Seq::filter);
    let r = bookmarks.filter(keeps(id));
    if bookmarks.len() == 0 {
        assert(r.len() == 0);
        assert(placed_without(bookmarks, r, id, Seq::<int>::empty()));
    } else {
        let q = bookmarks.drop_last();
        let x = bookmarks.last();
        let n = bookmarks.len() - 1;
        lemma_removal_is_exact(q, id);
        let rq = q.filter(keeps(id));
        let pq = choose|p: Seq<int>| placed_without(q, rq, id, p);
        if x.id@ != id {
            assert(r == rq.push(x));
            let p = pq.push(n);
            assert forall|j: int| 0 <= j < bookmarks.len() && (#[trigger] bookmarks[j]).id@ != id implies exists|i: int|
                0 <= i < p.len() && p[i] == j by {
                if j < n {
                    assert(q[j] == bookmarks[j]);
                    let i = choose|i: int| 0 <= i < pq.len() && pq[i] == j;
                    assert(p[i] == j);
                } else {
                    assert(p[p.len() - 1] == j);
                }
            }
            assert forall|i: int| 0 <= i < p.len() implies 0 <= #[trigger] p[i] < bookmarks.len()
                && r[i] == bookmarks[p[i]] && bookmarks[p[i]].id@ != id by {
                if i < pq.len() {
                    assert(pq[i] == p[i]);
                    assert(q[pq[i]] == bookmarks[pq[i]]);
                }
            }
            assert(placed_without(bookmarks, r, id, p));
        } else {
            assert(r == rq);
            assert forall|j: int| 0 <= j < bookmarks.len() && (#[trigger] bookmarks[j]).id@ != id implies exists|i: int|
                0 <= i < pq.len() && pq[i] == j by {
                assert(j < n);
                assert(q[j] == bookmarks[j]);
            }
            assert forall|i: int| 0 <= i < pq.len() implies 0 <= #[trigger] pq[i] < bookmarks.len()
                && r[i] == bookmarks[pq[i]] && bookmarks[pq[i]].id@ != id by {
                assert(q[pq[i]] == bookmarks[pq[i]]);
            }
            assert(placed_without(bookmarks, r, id, pq));
        }
        assert forall|i: int| 0 <= i < r.len() implies (#[trigger] r[i]).id@ != id by {
            let p = choose|p: Seq<int>| placed_without(bookmarks, r, id, p);
            assert(r[i] == bookmarks[p[i]]);
        }
    }
}

/// `r` is `orig` rearranged by `p` (`r[i]` is `orig[p[i]]`, each index
/// used once) into ascending `created_at`, ties in the order given.
pub open spec fn stable_arrangement(orig: Seq<Bookmark>, r: Seq<Bookmark>, p: Seq<int>) -> bool {
    &&& p.len() == r.len() == orig.len()
    &&& forall|i: int| 0 <= i < r.len() ==> 0 <= #[trigger] p[i] < orig.len() && r[i] == orig[p[i]]
    &&& forall|i: int, j: int| 0 <= i < j < r.len() ==> #[trigger] p[i] != #[trigger] p[j]
    &&& forall|i: int, j: int|
        0 <= i < j < r.len() ==> (#[trigger] r[i]).created_at < (#[trigger] r[j]).created_at || (
        r[i].created_at == r[j].created_at && p[i] < p[j])
}

/// `r` is `orig` sorted by `created_at`, stably.
pub open spec fn stably_sorted(orig: Seq<Bookmark>, r: Seq<Bookmark>) -> bool {
    exists|p: Seq<int>| stable_arrangement(orig, r, p)
}

/// The first `k` entries of `orig`, arranged by `p` into `r` in ascending
/// `created_at` order with ties in the order given.
spec fn partial_arrangement(orig: Seq<Bookmark>, r: Seq<Bookmark>, p: Seq<int>, k: int) -> bool {
    &&& p.len() == r.len() == k
    &&& forall|i: int| 0 <= i < r.len() ==> 0 <= #[trigger] p[i] < k && r[i] == orig[p[i]]
    &&& forall|i: int, j: int| 0 <= i < j < r.len() ==> #[trigger] p[i] != #[trigger] p[j]
    &&& forall|i: int, j: int|
        0 <= i < j < r.len() ==> (#[trigger] r[i]).created_at < (#[trigger] r[j]).created_at || (
        r[i].created_at == r[j].created_at && p[i] < p[j])
}

/// Inserting entry `k` of `orig` after every entry with a `created_at` no
/// later than its own keeps the arrangement.
proof fn lemma_insert_keeps_order(
    orig: Seq<Bookmark>,
    r: Seq<Bookmark>,
    p: Seq<int>,
    k: int,
    pos: int,
)
    requires
        0 <= k < orig.len(),
        partial_arrangement(orig, r, p, k),
        0 <= pos <= r.len(),
        forall|i: int| 0 <= i < pos ==> (#[trigger] r[i]).created_at <= orig[k].created_at,
        pos < r.len() ==> r[pos].created_at > orig[k].created_at,
    ensures
        partial_arrangement(orig, r.insert(pos, orig[k]), p.insert(pos, k), k + 1),
{
    let x = orig[k];
    let r2 = r.insert(pos, x);
    let p2 = p.insert(pos, k);
    r.insert_ensures(pos, x);
    p.insert_ensures(pos, k);
    assert forall|i: int| pos < i < r2.len() implies (#[trigger] r2[i]) == r[i - 1] && p2[i] == p[i
        - 1] by {
        assert(r2[(i - 1) + 1] == r[i - 1]);
        assert(p2[(i - 1) + 1] == p[i - 1]);
    }
    assert forall|i: int| pos <= i < r.len() implies (#[trigger] r[i]).created_at > x.created_at by {
        if i > pos {
            assert(r[pos].created_at <= r[i].created_at);
        }
    }
    assert forall|i: int| 0 <= i < r2.len() implies 0 <= #[trigger] p2[i] < k + 1 && r2[i]
        == orig[p2[i]] by {
        if i > pos {
            assert(r2[i] == r[i - 1]);
        }
    }
    assert forall|i: int, j: int| 0 <= i < j < r2.len() implies #[trigger] p2[i] != #[trigger] p2[j] by {
        if i > pos {
            assert(p2[i] == p[i - 1] && p2[j] == p[j - 1]);
        } else if i == pos {
            assert(p2[j] == p[j - 1]);
        } else if j > pos {
            assert(p2[j] == p[j - 1]);
        }
    }
    assert forall|i: int, j: int| 0 <= i < j < r2.len() implies (#[trigger] r2[i]).created_at < (
    #[trigger] r2[j]).created_at || (r2[i].created_at == r2[j].created_at && p2[i] < p2[j]) by {
        if i > pos {
            assert(r2[i] == r[i - 1] && r2[j] == r[j - 1]);
            assert(p2[i] == p[i - 1] && p2[j] == p[j - 1]);
        } else if i == pos {
            assert(r2[j] == r[j - 1]);
        } else if j > pos {
            assert(r2[j] == r[j - 1] && p2[j] == p[j - 1]);
            assert(r[j - 1].created_at > x.created_at);
        } else if j == pos {
            assert(r[i].created_at <= x.created_at);
        }
    }
}

/// The bookmarks in ascending `created_at` order, ties in the order given.
pub fn sorted_by_created(bookmarks: Vec<Bookmark>) -> (r: Vec<Bookmark>)
    ensures
        stably_sorted(bookmarks@, r@),
{
    let ghost orig = bookmarks@;
    let mut rest = bookmarks;
    let mut out: Vec<Bookmark> = Vec::new();
    let ghost mut perm: Seq<int> = Seq::empty();
    while rest.len() > 0
        invariant
            rest@.len() <= orig.len(),
            rest@ == orig.subrange(orig.len() - rest@.len(), orig.len() as int),
            partial_arrangement(orig, out@, perm, orig.len() - rest@.len()),
        decreases rest@.len(),
    {
        let ghost k = orig.len() - rest@.len();
        let x = rest.remove(0);
        proof {
            assert(x == orig[k]);
            assert(rest@ =~= orig.subrange(orig.len() - rest@.len(), orig.len() as int));
        }
        let mut pos: usize = 0;
        while pos < out.len() && out[pos].created_at <= x.created_at
            invariant
                pos <= out@.len(),
                forall|i: int| 0 <= i < pos ==> (#[trigger] out@[i]).created_at <= x.created_at,
            decreases out@.len() - pos,
        {
            pos = pos + 1;
        }
        proof {
            lemma_insert_keeps_order(orig, out@, perm, k, pos as int);
            perm = perm.insert(pos as int, k);
        }
        out.insert(pos, x);
    }
    proof {
        assert(stable_arrangement(orig, out@, perm));
    }
    out
}

/// The file written by a wholesale replacement: the current version, with
/// the given bookmarks sorted by creation time.
pub fn replacement_file(bookmarks: Vec<Bookmark>) -> (r: BookmarksFile)
    ensures
        r.version == FILE_VERSION,
        stably_sorted(bookmarks@, r.bookmarks@),
{
    BookmarksFile { version: FILE_VERSION, bookmarks: sorted_by_created(bookmarks) }
}

/// Arguments of the add-bookmark command.
pub struct AddBookmarkArgs {
    pub name: String,
    pub frequency_hz: u32,
}

/// Arguments of the remove-bookmark command.
pub struct RemoveBookmarkArgs {
    pub id: String,
}

/// Arguments of the replace-bookmarks command.
pub struct ReplaceBookmarksArgs {
    pub bookmarks: Vec<Bookmark>,
}

} // verus!
