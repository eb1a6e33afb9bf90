//! What the 2D batch draws: which objects of the store it takes, and how the
//! depth-sorted instances are cut into draw calls, one per run of instances
//! sharing a texture.

use vstd::prelude::*;
use crate::objects::ObjectId;
use crate::store::{slot_of, store_wf, ObjectStore};

verus! {

/// One draw call: `count` instances from `start_index` on, all drawn with
/// the texture `texture_id` (0 for none).
#[derive(Debug, Clone, Copy, PartialEq, Eq, Structural)]
pub struct DrawCommand {
    pub texture_id: u32,
    pub start_index: u32,
    pub count: u32,
}

/// The instance just past a command.
pub open spec fn command_end(c: DrawCommand) -> int {
    c.start_index + c.count
}

/// `cmds` cuts `ids` into its maximal runs of equal texture identifiers, in
/// order: the commands are non-empty, follow one another from the first
/// instance to the last, each holds instances of its own texture only, and
/// two neighbouring commands have different textures.
pub open spec fn is_run_split(ids: Seq<u32>, cmds: Seq<DrawCommand>) -> bool {
    &&& (cmds.len() == 0 <==> ids.len() == 0)
    &&& cmds.len() > 0 ==> cmds[0].start_index == 0
    &&& cmds.len() > 0 ==> command_end(cmds.last()) == ids.len()
    &&& forall|k: int| 0 <= k < cmds.len() ==> #[trigger] cmds[k].count > 0
    &&& forall|k: int, l: int|
        #![trigger cmds[k], cmds[l]]
        0 <= k && l == k + 1 && l < cmds.len() ==> command_end(cmds[k]) == cmds[l].start_index
            && cmds[k].texture_id != cmds[l].texture_id
    &&& forall|k: int, j: int|
        #![trigger cmds[k], ids[j]]
        0 <= k < cmds.len() && cmds[k].start_index <= j < command_end(cmds[k]) ==> ids[j] == cmds[k].texture_id
}

proof fn lemma_run_split_push(ids: Seq<u32>, cmds: Seq<DrawCommand>, start: int, end: int, t: u32)
    requires
        0 <= start < end <= ids.len(),
        end <= u32::MAX,
        is_run_split(ids.take(start), cmds),
        forall|j: int| start <= j < end ==> ids[j] == t,
        cmds.len() > 0 ==> cmds.last().texture_id != t,
    ensures
        is_run_split(
            ids.take(end),
            cmds.push(DrawCommand { texture_id: t, start_index: start as u32, count: (end - start) as u32 }),
        ),
{
    let c = DrawCommand { texture_id: t, start_index: start as u32, count: (end - start) as u32 };
    let nc = cmds.push(c);
    let pre = ids.take(start);
    let full = ids.take(end);
    assert forall|k: int, j: int|
        #![trigger nc[k], full[j]]
        0 <= k < nc.len() && nc[k].start_index <= j < command_end(nc[k]) implies full[j] == nc[k].texture_id by {
        if k < cmds.len() {
            assert(nc[k] == cmds[k]);
            assert(command_end(cmds[k]) <= start) by {
                if cmds.len() > 0 {
                    assert(command_end(cmds.last()) == start);
                    lemma_run_split_ends_ordered(pre, cmds, k);
                }
            }
            assert(pre[j] == cmds[k].texture_id);
        }
    }
    assert forall|k: int, l: int|
        #![trigger nc[k], nc[l]]
        0 <= k && l == k + 1 && l < nc.len() implies command_end(nc[k]) == nc[l].start_index
            && nc[k].texture_id != nc[l].texture_id by {
        if l < cmds.len() {
            assert(nc[k] == cmds[k]);
            assert(nc[l] == cmds[l]);
        } else {
            assert(nc[k] == cmds.last());
        }
    }
    assert forall|k: int| 0 <= k < nc.len() implies #[trigger] nc[k].count > 0 by {
        if k < cmds.len() {
            assert(nc[k] == cmds[k]);
        }
    }
}

/// In a run split, every command ends no later than the last one does.
proof fn lemma_run_split_ends_ordered(ids: Seq<u32>, cmds: Seq<DrawCommand>, k: int)
    requires
        is_run_split(ids, cmds),
        0 <= k < cmds.len(),
    ensures
        command_end(cmds[k]) <= command_end(cmds.last()),
    decreases cmds.len() - k,
{
    if k < cmds.len() - 1 {
        assert(command_end(cmds[k]) == cmds[k + 1].start_index);
        assert(cmds[k + 1].count > 0);
        lemma_run_split_ends_ordered(ids, cmds, k + 1);
    }
}

/// Cuts the texture identifiers of the depth-sorted instances into draw
/// calls: a new call starts wherever the texture changes.
pub fn group_draw_commands(texture_ids: &Vec<u32>) -> (r: Vec<DrawCommand>)
    requires
        texture_ids.len() <= u32::MAX,
    ensures
        is_run_split(texture_ids@, r@),
{
    let ghost ids = texture_ids@;
    let mut commands: Vec<DrawCommand> = Vec::new();
    let n = texture_ids.len();
    if n == 0 {
        return commands;
    }
    let mut current_tex: u32 = texture_ids[0];
    let mut start: u32 = 0;
    let mut count: u32 = 0;
    let mut i: usize = 0;
    assert(ids.take(0) =~= Seq::<u32>::empty());
    while i < n
        invariant
            ids == texture_ids@,
            n == ids.len(),
            0 < n <= u32::MAX,
            i <= n,
            start as int + count as int == i as int,
            i > 0 ==> count > 0,
            i == 0 ==> current_tex == ids[0],
            start < n,
            forall|j: int| start <= j < i ==> ids[j] == current_tex,
            is_run_split(ids.take(start as int), commands@),
            commands@.len() > 0 ==> commands@.last().texture_id != current_tex,
        decreases n - i,
    {
        let t = texture_ids[i];
        if t != current_tex {
            proof {
                lemma_run_split_push(ids, commands@, start as int, i as int, current_tex);
            }
            commands.push(DrawCommand { texture_id: current_tex, start_index: start, count });
            current_tex = t;
            start = i as u32;
            count = 0;
        }
        count = count + 1;
        i = i + 1;
    }
    proof {
        lemma_run_split_push(ids, commands@, start as int, n as int, current_tex);
        assert(ids.take(n as int) =~= ids);
    }
    commands.push(DrawCommand { texture_id: current_tex, start_index: start, count });
    commands
}

/// The object list of a batch: the listed identifiers, or none.
pub open spec fn filter_list(filter: Option<Seq<ObjectId>>) -> Seq<ObjectId> {
    match filter {
        Some(s) => s,
        None => Seq::empty(),
    }
}

/// The slots of the rectangles a batch draws, in the order of `ids`: those
/// alive and, when `keep` lists any object, whose slot index (as an
/// identifier) is listed in `keep`.
pub open spec fn rect_batch_slots(ids: Seq<ObjectId>, alive: Seq<bool>, keep: Seq<ObjectId>) -> Seq<usize>
    decreases ids.len(),
{
    if ids.len() == 0 {
        Seq::empty()
    } else {
        let prev = rect_batch_slots(ids.drop_last(), alive, keep);
        let i = slot_of(ids.last());
        if alive[i] && (keep.len() == 0 || keep.contains(ObjectId(i as usize))) {
            prev.push(i as usize)
        } else {
            prev
        }
    }
}

/// The slots of the texts a batch draws, in the order of `ids`: those alive
/// with a non-empty text.
pub open spec fn text_batch_slots(ids: Seq<ObjectId>, alive: Seq<bool>, texts: Seq<Seq<char>>) -> Seq<usize>
    decreases ids.len(),
{
    if ids.len() == 0 {
        Seq::empty()
    } else {
        let prev = text_batch_slots(ids.drop_last(), alive, texts);
        let i = slot_of(ids.last());
        if alive[i] && texts[i].len() > 0 {
            prev.push(i as usize)
        } else {
            prev
        }
    }
}

/// Every identifier refers to a slot of the store.
pub open spec fn ids_in_range(ids: Seq<ObjectId>, n: nat) -> bool {
    forall|k: int| 0 <= k < ids.len() ==> slot_of(#[trigger] ids[k]) < n
}

/// A text batch holds exactly the live text objects with a non-empty text:
/// every recorded text whose slot is alive and whose text is not empty is
/// drawn, every slot drawn is such a text, and no more slots are drawn than
/// texts are recorded.
pub proof fn law_text_batch_draws_live_nonempty_texts(ids: Seq<ObjectId>, alive: Seq<bool>, texts: Seq<Seq<char>>)
    requires
        ids_in_range(ids, alive.len()),
        texts.len() == alive.len(),
    ensures
        ({
            let r = text_batch_slots(ids, alive, texts);
            &&& r.len() <= ids.len()
            &&& forall|k: int|
                0 <= k < ids.len() && alive[slot_of(#[trigger] ids[k])] && texts[slot_of(ids[k])].len() > 0
                    ==> r.contains(slot_of(ids[k]) as usize)
            &&& forall|j: int|
                0 <= j < r.len() ==> alive[#[trigger] r[j] as int] && texts[r[j] as int].len() > 0 && exists|
                    k: int,
                | 0 <= k < ids.len() && slot_of(#[trigger] ids[k]) == r[j] as int
        }),
    decreases ids.len(),
{
    if ids.len() > 0 {
        let d = ids.drop_last();
        law_text_batch_draws_live_nonempty_texts(d, alive, texts);
        let prev = text_batch_slots(d, alive, texts);
        let r = text_batch_slots(ids, alive, texts);
        let i = slot_of(ids.last());
        assert forall|k: int|
            0 <= k < ids.len() && alive[slot_of(#[trigger] ids[k])] && texts[slot_of(ids[k])].len() > 0
                implies r.contains(slot_of(ids[k]) as usize) by {
            if k < ids.len() - 1 {
                assert(ids[k] == d[k]);
                let j = choose|j: int| 0 <= j < prev.len() && prev[j] == slot_of(d[k]) as usize;
                assert(r[j] == prev[j]);
            } else {
                assert(r.last() == i as usize);
            }
        }
        assert forall|j: int| 0 <= j < r.len() implies alive[#[trigger] r[j] as int] && texts[r[j] as int].len() > 0
            && exists|k: int| 0 <= k < ids.len() && slot_of(#[trigger] ids[k]) == r[j] as int by {
            if j < prev.len() {
                assert(r[j] == prev[j]);
                let k = choose|k: int| 0 <= k < d.len() && slot_of(#[trigger] d[k]) == prev[j] as int;
                assert(ids[k] == d[k]);
            } else {
                assert(r[j] == i as usize);
                assert(ids[ids.len() - 1] == ids.last());
            }
        }
    }
}

/// A rectangle batch holds exactly the live rectangles that are listed (all
/// live ones when nothing is listed): every recorded rectangle whose slot is
/// alive and listed is drawn, and every slot drawn is such a rectangle.
pub proof fn law_rect_batch_draws_live_listed_rects(ids: Seq<ObjectId>, alive: Seq<bool>, keep: Seq<ObjectId>)
    requires
        ids_in_range(ids, alive.len()),
    ensures
        ({
            let r = rect_batch_slots(ids, alive, keep);
            &&& r.len() <= ids.len()
            &&& forall|k: int|
                0 <= k < ids.len() && alive[slot_of(#[trigger] ids[k])] && (keep.len() == 0 || keep.contains(
                    ObjectId(slot_of(ids[k]) as usize),
                )) ==> r.contains(slot_of(ids[k]) as usize)
            &&& forall|j: int|
                0 <= j < r.len() ==> alive[#[trigger] r[j] as int] && (keep.len() == 0 || keep.contains(
                    ObjectId(r[j]),
                )) && exists|k: int| 0 <= k < ids.len() && slot_of(#[trigger] ids[k]) == r[j] as int
        }),
    decreases ids.len(),
{
    if ids.len() > 0 {
        let d = ids.drop_last();
        law_rect_batch_draws_live_listed_rects(d, alive, keep);
        let prev = rect_batch_slots(d, alive, keep);
        let r = rect_batch_slots(ids, alive, keep);
        let i = slot_of(ids.last());
        assert forall|k: int|
            0 <= k < ids.len() && alive[slot_of(#[trigger] ids[k])] && (keep.len() == 0 || keep.contains(
                ObjectId(slot_of(ids[k]) as usize),
            )) implies r.contains(slot_of(ids[k]) as usize) by {
            if k < ids.len() - 1 {
                assert(ids[k] == d[k]);
                let j = choose|j: int| 0 <= j < prev.len() && prev[j] == slot_of(d[k]) as usize;
                assert(r[j] == prev[j]);
            } else {
                assert(r.last() == i as usize);
            }
        }
        assert forall|j: int| 0 <= j < r.len() implies alive[#[trigger] r[j] as int] && (keep.len() == 0
            || keep.contains(ObjectId(r[j]))) && exists|k: int|
            0 <= k < ids.len() && slot_of(#[trigger] ids[k]) == r[j] as int by {
            if j < prev.len() {
                assert(r[j] == prev[j]);
                let k = choose|k: int| 0 <= k < d.len() && slot_of(#[trigger] d[k]) == prev[j] as int;
                assert(ids[k] == d[k]);
            } else {
                assert(r[j] == i as usize);
                assert(ids[ids.len() - 1] == ids.last());
            }
        }
    }
}

fn contains_id(list: &Vec<ObjectId>, id: ObjectId) -> (r: bool)
    ensures
        r == list@.contains(id),
{
    let n = list.len();
    let mut i: usize = 0;
    while i < n
        invariant
            n == list@.len(),
            i <= n,
            forall|k: int| 0 <= k < i ==> list@[k] != id,
        decreases n - i,
    {
        if list[i] == id {
            return true;
        }
        i = i + 1;
    }
    false
}

/// The slots of the rectangles to batch, in creation order: the live
/// rectangles listed in the filter (by slot index, as an identifier), or
/// every live rectangle when there is no filter or it lists nothing.
pub fn rect_slots_to_batch(store: &ObjectStore, filter: Option<&Vec<ObjectId>>) -> (r: Vec<usize>)
    requires
        store_wf(store@),
    ensures
        r@ == rect_batch_slots(
            store@.rect_ids,
            store@.alive,
            filter_list(
                match filter {
                    Some(v) => Some(v@),
                    None => None,
                },
            ),
        ),
{
    let ghost ids = store@.rect_ids;
    let ghost keep = filter_list(
        match filter {
            Some(v) => Some(v@),
            None => None,
        },
    );
    let mut out: Vec<usize> = Vec::new();
    let n = store.rect_ids.len();
    let mut k: usize = 0;
    while k < n
        invariant
            store_wf(store@),
            ids == store@.rect_ids,
            keep == filter_list(
                match filter {
                    Some(v) => Some(v@),
                    None => None,
                },
            ),
            n == ids.len(),
            k <= n,
            out@ == rect_batch_slots(ids.take(k as int), store@.alive, keep),
        decreases n - k,
    {
        let id = store.rect_ids[k];
        let idx = id.index();
        proof {
            assert(ids.take(k + 1).drop_last() =~= ids.take(k as int));
            assert(ids.take(k + 1).last() == id);
            assert(slot_of(ids[k as int]) < store@.alive.len());
        }
        if store.alive[idx] {
            let listed = match filter {
                Some(list) => list.len() == 0 || contains_id(list, ObjectId(idx)),
                None => true,
            };
            if listed {
                out.push(idx);
            }
        }
        k = k + 1;
    }
    assert(ids.take(n as int) =~= ids);
    out
}

/// The slots of the texts to batch: every live text object with a
/// non-empty text, in creation order.
pub fn text_slots_to_batch(store: &ObjectStore) -> (r: Vec<usize>)
    requires
        store_wf(store@),
    ensures
        r@ == text_batch_slots(store@.text_ids, store@.alive, store@.text_contents),
{
    let ghost ids = store@.text_ids;
    let mut out: Vec<usize> = Vec::new();
    let n = store.text_ids.len();
    let mut k: usize = 0;
    while k < n
        invariant
            store_wf(store@),
            ids == store@.text_ids,
            n == ids.len(),
            k <= n,
            out@ == text_batch_slots(ids.take(k as int), store@.alive, store@.text_contents),
        decreases n - k,
    {
        let id = store.text_ids[k];
        let idx = id.index();
        proof {
            assert(ids.take(k + 1).drop_last() =~= ids.take(k as int));
            assert(ids.take(k + 1).last() == id);
            assert(slot_of(ids[k as int]) < store@.alive.len());
        }
        if store.alive[idx] && !store.text_contents[idx].as_str().is_empty() {
            out.push(idx);
        }
        k = k + 1;
    }
    assert(ids.take(n as int) =~= ids);
    out
}

} // verus!
