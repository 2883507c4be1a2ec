//! What a writer's output looks like, stated over the items written.
//!
//! The rules of [`crate::writer`] say how one item changes a writer. This
//! module says what a whole run of items leaves behind: which items share a
//! part, what the two streams of a part hold, and how many parts there are.

use crate::text::{byte_len, lemma_byte_len_push};
use crate::writer::{item_size, ItemView, PartView, WriterView};
use vstd::prelude::*;

verus! {

/// Content stream of a part that got `items`: each text, followed by a line feed.
pub open spec fn content_of(items: Seq<ItemView>) -> Seq<char>
    decreases items.len(),
{
    if items.len() == 0 {
        Seq::empty()
    } else {
        content_of(items.drop_last()) + items.last().text.push('\n')
    }
}

/// Metadata stream of a part that got `items` and was not closed: the opening
/// bracket, then each record, followed by a separator.
pub open spec fn open_array_of(items: Seq<ItemView>) -> Seq<char>
    decreases items.len(),
{
    if items.len() == 0 {
        seq!['[']
    } else {
        open_array_of(items.drop_last()) + items.last().metadata.push(',')
    }
}

/// The records of `items` with a separator between each two.
pub open spec fn joined(items: Seq<ItemView>) -> Seq<char>
    decreases items.len(),
{
    if items.len() == 0 {
        Seq::empty()
    } else if items.len() == 1 {
        items[0].metadata
    } else {
        joined(items.drop_last()) + seq![','] + items.last().metadata
    }
}

/// The records of `items` as an array: in brackets, separated by commas, in
/// the order of `items`, with no separator behind the last.
pub open spec fn array_of(items: Seq<ItemView>) -> Seq<char> {
    seq!['['] + joined(items) + seq![']']
}

/// A part that was opened and then got `items`, first to last.
pub open spec fn part_of(items: Seq<ItemView>) -> PartView
    decreases items.len(),
{
    if items.len() == 0 {
        PartView::fresh()
    } else {
        part_of(items.drop_last()).append(items.last())
    }
}

/// The runs of `items` that share a part, after one more item. The item opens
/// a new run where there is a limit, the last run is not empty, and with the
/// item it would hold more bytes than the limit.
pub open spec fn layout_push(limit: Option<u64>, runs: Seq<Seq<ItemView>>, item: ItemView) -> Seq<
    Seq<ItemView>,
> {
    let run = runs.last();
    if limit is Some && run.len() > 0 && byte_len(content_of(run)) + item_size(item)
        > limit->Some_0 {
        runs.push(seq![item])
    } else {
        runs.update(runs.len() - 1, run.push(item))
    }
}

/// How a writer with `limit` that starts with one empty part lays `items` out:
/// one run of items for each part, in order.
pub open spec fn layout(limit: Option<u64>, items: Seq<ItemView>) -> Seq<Seq<ItemView>>
    decreases items.len(),
{
    if items.len() == 0 {
        seq![Seq::empty()]
    } else {
        layout_push(limit, layout(limit, items.drop_last()), items.last())
    }
}

/// Number of items of `items` at which a writer that starts as `w` rotates.
pub open spec fn rotations(w: WriterView, items: Seq<ItemView>) -> nat
    decreases items.len(),
{
    if items.len() == 0 {
        0
    } else {
        let before = w.write_all(items.drop_last());
        rotations(w, items.drop_last()) + if before.must_rotate(items.last()) {
            1nat
        } else {
            0nat
        }
    }
}

/// Number of items in all of `parts`.
pub open spec fn total_items(parts: Seq<PartView>) -> nat
    decreases parts.len(),
{
    if parts.len() == 0 {
        0
    } else {
        total_items(parts.drop_last()) + parts.last().items
    }
}

/// The streams of a part that was opened and got `items`: the content stream
/// holds their lines, the metadata stream their records, each with a
/// separator behind it; once closed, the metadata stream is the array of
/// the records, with no separator behind the last.
pub proof fn lemma_part_streams(items: Seq<ItemView>)
    ensures
        part_of(items).wf(),
        part_of(items).content == content_of(items),
        part_of(items).meta == open_array_of(items),
        part_of(items).items == items.len(),
        !part_of(items).closed,
        part_of(items).close().content == content_of(items),
        part_of(items).close().meta == array_of(items),
        part_of(items).close().items == items.len(),
        part_of(items).close().closed,
    decreases items.len(),
{
    if items.len() > 0 {
        let init = items.drop_last();
        let last = items.last();
        lemma_part_streams(init);
        lemma_open_array(items);
        crate::text::lemma_byte_len_concat(content_of(init), last.text.push('\n'));
    }
}

/// A metadata stream that is open and holds a record ends in a separator;
/// without it, it is the opening bracket and the records joined.
pub proof fn lemma_open_array(items: Seq<ItemView>)
    requires
        items.len() > 0,
    ensures
        open_array_of(items) == (seq!['['] + joined(items)).push(','),
    decreases items.len(),
{
    let init = items.drop_last();
    if init.len() == 0 {
        assert(open_array_of(init) == seq!['[']);
    } else {
        lemma_open_array(init);
    }
}

/// Closing twice is closing once.
pub proof fn lemma_close_idempotent(w: WriterView)
    requires
        w.wf(),
    ensures
        w.close().close() == w.close(),
        w.close().wf(),
{
    assert(w.close().close().parts =~= w.close().parts);
}

/// Writing keeps a writer well formed.
pub proof fn lemma_write_one_wf(w: WriterView, item: ItemView)
    requires
        w.wf(),
    ensures
        w.write_one(item).wf(),
        w.write_one(item).current().items > 0,
        w.write_one(item).lang == w.lang,
        w.write_one(item).limit == w.limit,
{
    let v = if w.must_rotate(item) {
        w.rotate()
    } else {
        w
    };
    crate::text::lemma_byte_len_concat(v.current().content, item.text.push('\n'));
}

/// Writing keeps a writer well formed, and once an item is written no part
/// is empty.
pub proof fn lemma_write_all_wf(w: WriterView, items: Seq<ItemView>)
    requires
        w.wf(),
    ensures
        w.write_all(items).wf(),
        w.write_all(items).lang == w.lang,
        w.write_all(items).limit == w.limit,
        items.len() > 0 ==> forall|i: int|
            0 <= i < w.write_all(items).parts.len() ==> (#[trigger] w.write_all(items).parts[i]).items
                > 0,
    decreases items.len(),
{
    if items.len() > 0 {
        lemma_write_all_wf(w, items.drop_last());
        lemma_write_one_wf(w.write_all(items.drop_last()), items.last());
    }
}

/// Writing two runs of items one after the other is writing them as one
/// run: whole writes that take turns on a writer leave what a single write of
/// all their items, in the order of the turns, leaves.
pub proof fn lemma_write_all_concat(w: WriterView, first: Seq<ItemView>, second: Seq<ItemView>)
    ensures
        w.write_all(first + second) == w.write_all(first).write_all(second),
    decreases second.len(),
{
    if second.len() > 0 {
        lemma_write_all_concat(w, first, second.drop_last());
        assert((first + second).drop_last() == first + second.drop_last());
    }
}

/// Every item written is in exactly one part: the parts hold as many items
/// more as were written.
pub proof fn lemma_total_items(w: WriterView, items: Seq<ItemView>)
    requires
        w.wf(),
    ensures
        total_items(w.write_all(items).parts) == total_items(w.parts) + items.len(),
    decreases items.len(),
{
    if items.len() > 0 {
        let before = w.write_all(items.drop_last());
        lemma_total_items(w, items.drop_last());
        lemma_write_all_wf(w, items.drop_last());
        lemma_total_items_one(before, items.last());
    }
}

proof fn lemma_total_items_one(w: WriterView, item: ItemView)
    requires
        w.wf(),
    ensures
        total_items(w.write_one(item).parts) == total_items(w.parts) + 1,
{
    let after = w.write_one(item);
    assert(total_items(after.parts) == total_items(after.parts.drop_last())
        + after.current().items);
    if w.must_rotate(item) {
        let sealed = w.with_current(w.current().close()).parts;
        assert(after.parts.drop_last() =~= sealed);
        assert(sealed.drop_last() =~= w.parts.drop_last());
    } else {
        assert(after.parts.drop_last() =~= w.parts.drop_last());
    }
}

/// A writer has one part more for each rotation, and no part of it is empty
/// once an item is written.
pub proof fn lemma_parts_and_rotations(w: WriterView, items: Seq<ItemView>)
    requires
        w.wf(),
    ensures
        w.write_all(items).parts.len() == w.parts.len() + rotations(w, items),
        items.len() > 0 ==> forall|i: int|
            0 <= i < w.write_all(items).parts.len() ==> (#[trigger] w.write_all(items).parts[i]).items
                > 0,
    decreases items.len(),
{
    if items.len() > 0 {
        lemma_parts_and_rotations(w, items.drop_last());
    }
}

/// What a writer that starts with one empty part holds after `items`: one
/// part for each run of the layout, in order; each part but the last is the
/// part of its run, closed; the last is the part of its run, open. The runs,
/// one after the other, are `items`, and none but the last can be empty.
pub proof fn lemma_layout(lang: Seq<char>, limit: Option<u64>, items: Seq<ItemView>)
    ensures
        ({
            let w = WriterView::fresh(lang, limit).write_all(items);
            let runs = layout(limit, items);
            &&& w.parts.len() == runs.len()
            &&& runs.len() > 0
            &&& runs.flatten() == items
            &&& w.current() == part_of(runs.last())
            &&& forall|i: int|
                0 <= i < runs.len() - 1 ==> w.parts[i] == part_of(#[trigger] runs[i]).close()
                    && runs[i].len() > 0
            &&& items.len() > 0 ==> runs.last().len() > 0
        }),
    decreases items.len(),
{
    let fresh = WriterView::fresh(lang, limit);
    if items.len() == 0 {
        Seq::<Seq<ItemView>>::empty().lemma_flatten_push(Seq::empty());
    } else {
        let init = items.drop_last();
        let item = items.last();
        lemma_layout(lang, limit, init);
        let w0 = fresh.write_all(init);
        let r0 = layout(limit, init);
        let runs = layout(limit, items);
        lemma_part_streams(r0.last());
        lemma_write_all_wf(fresh, init);
        assert(items == init.push(item));
        if w0.must_rotate(item) {
            r0.lemma_flatten_push(seq![item]);
            assert(part_of(seq![item].drop_last()) == PartView::fresh());
        } else {
            let run = r0.last();
            assert(run.push(item).drop_last() =~= run);
            assert(runs =~= r0.drop_last().push(run.push(item)));
            assert(r0 =~= r0.drop_last().push(run));
            r0.drop_last().lemma_flatten_push(run.push(item));
            r0.drop_last().lemma_flatten_push(run);
        }
    }
}

/// What a writer that starts with one empty part holds once `items` are
/// written and its metadata is closed: for each run of the layout one part,
/// whose content stream holds the lines of the run and whose metadata stream
/// is the array of its records, in the order written.
pub proof fn lemma_closed_layout(lang: Seq<char>, limit: Option<u64>, items: Seq<ItemView>)
    ensures
        ({
            let w = WriterView::fresh(lang, limit).write_all(items).close();
            let runs = layout(limit, items);
            &&& w.parts.len() == runs.len()
            &&& runs.flatten() == items
            &&& forall|i: int|
                0 <= i < runs.len() ==> {
                    &&& (#[trigger] w.parts[i]).content == content_of(runs[i])
                    &&& w.parts[i].meta == array_of(runs[i])
                    &&& w.parts[i].items == runs[i].len()
                    &&& w.parts[i].closed
                    &&& (items.len() > 0 ==> runs[i].len() > 0)
                }
        }),
{
    lemma_layout(lang, limit, items);
    let w = WriterView::fresh(lang, limit).write_all(items).close();
    let runs = layout(limit, items);
    assert forall|i: int| 0 <= i < runs.len() implies {
        &&& (#[trigger] w.parts[i]).content == content_of(runs[i])
        &&& w.parts[i].meta == array_of(runs[i])
        &&& w.parts[i].items == runs[i].len()
        &&& w.parts[i].closed
        &&& (items.len() > 0 ==> runs[i].len() > 0)
    } by {
        lemma_part_streams(runs[i]);
    }
}

} // verus!
