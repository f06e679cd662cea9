//! The persistence plan: which directories must exist and which file
//! gets which bytes.
//!
//! The surrounding application executes the plan in order: it creates
//! each listed directory (tolerating "already exists") and writes each
//! listed file, overwriting any same-named one.  Everything about
//! paths and contents is decided here.

use vstd::prelude::*;

use crate::orchestrator::ResultMap;
use crate::pic::Pic;

verus! {

/// The subdirectory for one resolution: the root (which the caller
/// keeps ending in the path separator) followed by the resolution key.
pub open spec fn pic_dir_spec(root: Seq<char>, resolution: Seq<char>) -> Seq<char> {
    root + resolution
}

pub fn pic_dir(root: &str, resolution: &str) -> (r: String)
    ensures
        r@ == pic_dir_spec(root@, resolution@),
{
    let mut r = root.to_owned();
    r.append(resolution);
    r
}

/// The target path of one picture inside its resolution directory.
pub open spec fn pic_path_spec(dir: Seq<char>, filename: Seq<char>) -> Seq<char> {
    dir + "/"@ + filename
}

pub fn pic_path(dir: &str, filename: &str) -> (r: String)
    ensures
        r@ == pic_path_spec(dir@, filename@),
{
    let mut r = dir.to_owned();
    r.append("/");
    r.append(filename);
    r
}

/// The writes that persist one resolution's pictures into `dir`, in
/// order.  Writes are executed in sequence, so a later picture with the
/// same filename overwrites an earlier one.
pub open spec fn writes_of(pics: Seq<Pic>, dir: Seq<char>) -> Seq<(Seq<char>, Seq<u8>)> {
    pics.map_values(|p: Pic| (pic_path_spec(dir, p.filename@), p.body@))
}

/// The views of a list of planned writes.
pub open spec fn view_writes(w: Seq<(String, Vec<u8>)>) -> Seq<(Seq<char>, Seq<u8>)> {
    w.map_values(|e: (String, Vec<u8>)| (e.0@, e.1@))
}

/// Turn one resolution's pictures into its list of file writes.
pub fn save_pics(pics: Vec<Pic>, pic_dir: &str) -> (r: Vec<(String, Vec<u8>)>)
    ensures
        view_writes(r@) == writes_of(pics@, pic_dir@),
{
    let mut rest = pics;
    let ghost orig = rest@;
    let mut out: Vec<(String, Vec<u8>)> = Vec::new();
    while rest.len() > 0
        invariant
            out@.len() + rest@.len() == orig.len(),
            rest@ == orig.subrange(out@.len() as int, orig.len() as int),
            forall|i: int|
                0 <= i < out@.len() ==> out@[i].0@ == pic_path_spec(pic_dir@, orig[i].filename@)
                    && out@[i].1@ == orig[i].body@,
        decreases rest@.len(),
    {
        let ghost k = out@.len() as int;
        let p = rest.remove(0);
        proof {
            assert(p == orig[k]);
            assert(rest@ =~= orig.subrange(k + 1, orig.len() as int));
        }
        let path = pic_path(pic_dir, p.filename.as_str());
        out.push((path, p.body));
    }
    proof {
        assert(view_writes(out@) =~= writes_of(orig, pic_dir@));
    }
    out
}

/// The full persistence plan of a run: for each resolved resolution in
/// order, the writes of its pictures under `<root><resolution>`.
pub open spec fn plan_of(entries: Seq<(String, Vec<Pic>)>, root: Seq<char>) -> Seq<
    (Seq<char>, Seq<u8>),
>
    decreases entries.len(),
{
    if entries.len() == 0 {
        Seq::empty()
    } else {
        writes_of(entries.first().1@, pic_dir_spec(root, entries.first().0@)) + plan_of(
            entries.drop_first(),
            root,
        )
    }
}

/// The directories that must exist for `entries`: one per resolved
/// resolution, in order.
pub open spec fn dirs_of(entries: Seq<(String, Vec<Pic>)>, root: Seq<char>) -> Seq<Seq<char>> {
    entries.map_values(|e: (String, Vec<Pic>)| pic_dir_spec(root, e.0@))
}

/// The directories the sink must ensure exist, one per resolved
/// resolution, in order.
pub fn dir_plan(map: &ResultMap, root: &str) -> (r: Vec<String>)
    ensures
        r.deep_view() == dirs_of(map.entries@, root@),
{
    let mut out: Vec<String> = Vec::new();
    let count = map.entries.len();
    let mut i: usize = 0;
    while i < count
        invariant
            i <= count,
            count == map.entries@.len(),
            out.deep_view() == dirs_of(map.entries@.subrange(0, i as int), root@),
        decreases count - i,
    {
        let ghost prevv = out@;
        let ghost prev = out.deep_view();
        out.push(pic_dir(root, map.entries[i].0.as_str()));
        proof {
            let sub0 = map.entries@.subrange(0, i as int);
            let sub1 = map.entries@.subrange(0, i + 1);
            assert(prev.len() == i);
            assert forall|q: int| 0 <= q < i + 1 implies out.deep_view()[q] == dirs_of(
                sub1,
                root@,
            )[q] by {
                assert(dirs_of(sub1, root@)[q] == pic_dir_spec(root@, map.entries@[q].0@));
                assert(out.deep_view()[q] == out@[q].deep_view());
                if q < i {
                    assert(out@[q] == prevv[q]);
                    assert(prev[q] == prevv[q].deep_view());
                    assert(prev[q] == pic_dir_spec(root@, map.entries@[q].0@));
                }
            }
            assert(out.deep_view() =~= dirs_of(sub1, root@));
        }
        i += 1;
    }
    proof {
        assert(map.entries@.subrange(0, count as int) =~= map.entries@);
    }
    out
}

/// Flatten the whole result map into its ordered list of file writes.
pub fn persist_plan(map: ResultMap, root: &str) -> (r: Vec<(String, Vec<u8>)>)
    ensures
        view_writes(r@) == plan_of(map.entries@, root@),
{
    let mut rest = map.entries;
    let ghost orig = rest@;
    let mut out: Vec<(String, Vec<u8>)> = Vec::new();
    while rest.len() > 0
        invariant
            view_writes(out@) + plan_of(rest@, root@) == plan_of(orig, root@),
        decreases rest@.len(),
    {
        let ghost before = rest@;
        let entry = rest.remove(0);
        proof {
            assert(before.first() == entry);
            assert(before.drop_first() =~= rest@);
        }
        let dir = pic_dir(root, entry.0.as_str());
        let mut writes = save_pics(entry.1, dir.as_str());
        proof {
            assert(view_writes(out@ + writes@) =~= view_writes(out@) + view_writes(writes@));
        }
        out.append(&mut writes);
    }
    proof {
        assert(plan_of(rest@, root@) =~= Seq::<(Seq<char>, Seq<u8>)>::empty());
        assert(view_writes(out@) =~= plan_of(orig, root@));
    }
    out
}

/// Persistence round-trip: a picture recorded for a resolution stands
/// in the plan at the path `<root><resolution>/<filename>`, with
/// exactly its bytes.
pub proof fn lemma_persist_roundtrip(
    entries: Seq<(String, Vec<Pic>)>,
    root: Seq<char>,
    i: int,
    j: int,
)
    requires
        0 <= i < entries.len(),
        0 <= j < entries[i].1@.len(),
    ensures
        ({
            let p = entries[i].1@[j];
            exists|k: int|
                0 <= k < plan_of(entries, root).len() && plan_of(entries, root)[k] == (
                pic_path_spec(pic_dir_spec(root, entries[i].0@), p.filename@),
                p.body@,
                )
        }),
    decreases i,
{
    let p = entries[i].1@[j];
    let head = writes_of(entries.first().1@, pic_dir_spec(root, entries.first().0@));
    let tail = plan_of(entries.drop_first(), root);
    if i == 0 {
        assert(plan_of(entries, root)[j] == head[j]);
        assert(head[j] == (pic_path_spec(pic_dir_spec(root, entries[0].0@), p.filename@), p.body@));
    } else {
        lemma_persist_roundtrip(entries.drop_first(), root, i - 1, j);
        let e2 = entries.drop_first();
        let k0 = choose|k: int|
            0 <= k < plan_of(e2, root).len() && plan_of(e2, root)[k] == (
            pic_path_spec(pic_dir_spec(root, e2[i - 1].0@), e2[i - 1].1@[j].filename@),
            e2[i - 1].1@[j].body@,
            );
        assert(plan_of(entries, root)[head.len() + k0] == tail[k0]);
    }
}

} // verus!
