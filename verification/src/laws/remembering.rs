//! What the cache remembers. A cache passed by `&mut` is `old` before the call and
//! `final` after it.

use vstd::prelude::*;

use crate::cache::{
    ids_in_order, is_order_of, law_listing_grows_by_a_new_buffer,
    law_listing_holds_every_block, law_listings_differ_only_in_order, CodeLensCache,
    CodeLensCacheView,
};
use crate::ids::{BufferId, CustomBlockId};
use crate::lens::{lens_views, CodeLensData};

verus! {

/// Nothing is remembered of this buffer.
pub open spec fn knows_nothing_of<Task>(cache: CodeLensCacheView<Task>, buffer: u64) -> bool {
    &&& !cache.lenses.contains_key(buffer)
    &&& !cache.pending_refresh.contains_key(buffer)
    &&& !cache.block_ids.contains_key(buffer)
}

/// A new cache is on or off as it was asked for, and remembers nothing.
pub proof fn law_new_cache_knows_nothing<Task>(
    enabled: bool,
    res: CodeLensCache<Task>,
    buffer: u64,
)
    requires
        call_ensures(CodeLensCache::<Task>::new, (enabled,), res),
    ensures
        res@.enabled == enabled,
        knows_nothing_of(res@, buffer),
{
}

/// A cache made by default is off and remembers nothing.
pub proof fn law_default_cache_is_off<Task>(res: CodeLensCache<Task>, buffer: u64)
    requires
        call_ensures(CodeLensCache::<Task>::default, (), res),
    ensures
        !res@.enabled,
        knows_nothing_of(res@, buffer),
{
}

/// A cache says whether it is on as it was made.
pub proof fn law_cache_is_on_as_made<Task>(enabled: bool, cache: CodeLensCache<Task>, res: bool)
    requires
        call_ensures(CodeLensCache::<Task>::new, (enabled,), cache),
        call_ensures(CodeLensCache::<Task>::enabled, (&cache,), res),
    ensures
        res == enabled,
{
}

/// Switching is told to be a change exactly where it is one, and the cache is then on
/// or off as asked. Switching off forgets every buffer; any other switching keeps all.
pub proof fn law_switching_the_cache<Task>(
    cache: &mut CodeLensCache<Task>,
    enabled: bool,
    res: bool,
    buffer: u64,
)
    requires
        call_ensures(CodeLensCache::<Task>::toggle, (cache, enabled), res),
    ensures
        res <==> old(cache)@.enabled != enabled,
        final(cache)@.enabled == enabled,
        old(cache)@.enabled && !enabled ==> knows_nothing_of(final(cache)@, buffer),
        enabled || !old(cache)@.enabled ==> final(cache)@.lenses == old(cache)@.lenses,
        enabled || !old(cache)@.enabled ==> final(cache)@.pending_refresh
            == old(cache)@.pending_refresh,
        enabled || !old(cache)@.enabled ==> final(cache)@.block_ids == old(cache)@.block_ids,
{
}

/// After switching, the cache says that it is on exactly where it was switched on.
pub proof fn law_switched_cache_says_so<Task>(
    cache: &mut CodeLensCache<Task>,
    enabled: bool,
    changed: bool,
    before: bool,
    after: bool,
)
    requires
        call_ensures(CodeLensCache::<Task>::enabled, (old(cache),), before),
        call_ensures(CodeLensCache::<Task>::toggle, (cache, enabled), changed),
        call_ensures(CodeLensCache::<Task>::enabled, (final(cache),), after),
    ensures
        after == enabled,
        changed <==> before != after,
{
}

/// Clearing forgets every buffer and leaves the switch alone.
pub proof fn law_clearing_forgets<Task>(cache: &mut CodeLensCache<Task>, buffer: u64)
    requires
        call_ensures(CodeLensCache::<Task>::clear, (cache,), ()),
    ensures
        final(cache)@.enabled == old(cache)@.enabled,
        knows_nothing_of(final(cache)@, buffer),
{
}

/// The lenses that are set for a buffer are remembered, line by line; those of every
/// other buffer, and all else, stay.
pub proof fn law_set_lenses_are_remembered<Task>(
    cache: &mut CodeLensCache<Task>,
    buffer_id: BufferId,
    lenses: Vec<CodeLensData>,
    i: int,
    other: u64,
)
    requires
        call_ensures(
            CodeLensCache::<Task>::set_lenses_for_buffer,
            (cache, buffer_id, lenses),
            (),
        ),
    ensures
        final(cache)@.lenses.contains_key(buffer_id@),
        final(cache)@.lenses[buffer_id@].len() == lenses@.len(),
        0 <= i < lenses@.len() ==> {
            let line = final(cache)@.lenses[buffer_id@][i];
            &&& line.position == lenses@[i].position
            &&& line.symbol_position == lenses@[i].symbol_position
            &&& line.items == lenses@[i].items@
        },
        other != buffer_id@ ==> final(cache)@.lenses.contains_key(other)
            == old(cache)@.lenses.contains_key(other),
        other != buffer_id@ ==> final(cache)@.lenses[other] == old(cache)@.lenses[other],
        final(cache)@.enabled == old(cache)@.enabled,
        final(cache)@.pending_refresh == old(cache)@.pending_refresh,
        final(cache)@.block_ids == old(cache)@.block_ids,
{
    assert(lens_views(lenses@).len() == lenses@.len());
    if 0 <= i < lenses@.len() {
        assert(lens_views(lenses@)[i] == lenses@[i]@);
    }
}

/// The blocks that are set for a buffer are remembered; those of every other buffer,
/// and all else, stay.
pub proof fn law_set_blocks_are_remembered<Task>(
    cache: &mut CodeLensCache<Task>,
    buffer_id: BufferId,
    ids: Vec<CustomBlockId>,
    other: u64,
)
    requires
        call_ensures(CodeLensCache::<Task>::set_block_ids, (cache, buffer_id, ids), ()),
    ensures
        final(cache)@.block_ids.contains_key(buffer_id@),
        final(cache)@.block_ids[buffer_id@] == ids@,
        other != buffer_id@ ==> final(cache)@.block_ids.contains_key(other)
            == old(cache)@.block_ids.contains_key(other),
        other != buffer_id@ ==> final(cache)@.block_ids[other] == old(cache)@.block_ids[other],
        final(cache)@.enabled == old(cache)@.enabled,
        final(cache)@.lenses == old(cache)@.lenses,
        final(cache)@.pending_refresh == old(cache)@.pending_refresh,
{
}

/// The task that is set for a buffer is remembered; those of every other buffer, and
/// all else, stay.
pub proof fn law_set_task_is_remembered<Task>(
    cache: &mut CodeLensCache<Task>,
    buffer_id: BufferId,
    task: Task,
    other: u64,
)
    requires
        call_ensures(CodeLensCache::<Task>::set_refresh_task, (cache, buffer_id, task), ()),
    ensures
        final(cache)@.pending_refresh.contains_key(buffer_id@),
        final(cache)@.pending_refresh[buffer_id@] == task,
        other != buffer_id@ ==> final(cache)@.pending_refresh.contains_key(other)
            == old(cache)@.pending_refresh.contains_key(other),
        other != buffer_id@ ==> final(cache)@.pending_refresh[other]
            == old(cache)@.pending_refresh[other],
        final(cache)@.enabled == old(cache)@.enabled,
        final(cache)@.lenses == old(cache)@.lenses,
        final(cache)@.block_ids == old(cache)@.block_ids,
{
}

/// The task of a buffer is forgotten when it is removed; those of every other buffer,
/// and all else, stay.
pub proof fn law_removed_task_is_forgotten<Task>(
    cache: &mut CodeLensCache<Task>,
    buffer_id: BufferId,
    other: u64,
)
    requires
        call_ensures(CodeLensCache::<Task>::remove_refresh_task, (cache, &buffer_id), ()),
    ensures
        !final(cache)@.pending_refresh.contains_key(buffer_id@),
        other != buffer_id@ ==> final(cache)@.pending_refresh.contains_key(other)
            == old(cache)@.pending_refresh.contains_key(other),
        other != buffer_id@ && old(cache)@.pending_refresh.contains_key(other)
            ==> final(cache)@.pending_refresh[other] == old(cache)@.pending_refresh[other],
        final(cache)@.enabled == old(cache)@.enabled,
        final(cache)@.lenses == old(cache)@.lenses,
        final(cache)@.block_ids == old(cache)@.block_ids,
{
}

/// A buffer's blocks are read as they are remembered.
pub proof fn law_blocks_are_read_as_remembered<Task>(
    cache: CodeLensCache<Task>,
    buffer_id: BufferId,
    res: Option<&Vec<CustomBlockId>>,
)
    requires
        call_ensures(CodeLensCache::<Task>::get_block_ids, (&cache, &buffer_id), res),
    ensures
        res is Some <==> cache@.block_ids.contains_key(buffer_id@),
        res is Some ==> res->Some_0@ == cache@.block_ids[buffer_id@],
{
}

/// The blocks that are set for a buffer are those that are read for it afterwards, and
/// every other buffer's blocks are read as before.
pub proof fn law_reading_after_setting_blocks<Task>(
    cache: &mut CodeLensCache<Task>,
    buffer_id: BufferId,
    ids: Vec<CustomBlockId>,
    res: Option<&Vec<CustomBlockId>>,
    other: BufferId,
    other_before: Option<&Vec<CustomBlockId>>,
    other_after: Option<&Vec<CustomBlockId>>,
)
    requires
        call_ensures(CodeLensCache::<Task>::get_block_ids, (old(cache), &other), other_before),
        call_ensures(CodeLensCache::<Task>::set_block_ids, (cache, buffer_id, ids), ()),
        call_ensures(CodeLensCache::<Task>::get_block_ids, (final(cache), &buffer_id), res),
        call_ensures(CodeLensCache::<Task>::get_block_ids, (final(cache), &other), other_after),
        other@ != buffer_id@,
    ensures
        res is Some,
        res->Some_0@ == ids@,
        other_after is Some <==> other_before is Some,
        other_after is Some ==> other_after->Some_0@ == other_before->Some_0@,
{
}

/// Where the blocks of one buffer stand among those of all.
proof fn lemma_blocks_stand_together(
    block_ids: Map<u64, Seq<CustomBlockId>>,
    order: Seq<u64>,
    j: int,
) -> (start: int)
    requires
        0 <= j < order.len(),
    ensures
        0 <= start <= ids_in_order(block_ids, order).len() - block_ids[order[j]].len(),
        ids_in_order(block_ids, order).subrange(start, start + block_ids[order[j]].len())
            == block_ids[order[j]],
    decreases order.len(),
{
    let rest = order.drop_last();
    let front = ids_in_order(block_ids, rest);
    let back = block_ids[order.last()];
    if j == rest.len() {
        assert((front + back).subrange(front.len() as int, (front.len() + back.len()) as int)
            =~= back);
        front.len() as int
    } else {
        let start = lemma_blocks_stand_together(block_ids, rest, j);
        let ids = block_ids[order[j]];
        assert(rest[j] == order[j]);
        assert((front + back).subrange(start, start + ids.len()) =~= front.subrange(
            start,
            start + ids.len(),
        ));
        start
    }
}

/// The list of all blocks holds a block exactly where some buffer has it.
pub proof fn law_all_blocks_are_listed<Task>(
    cache: CodeLensCache<Task>,
    res: Vec<CustomBlockId>,
    id: CustomBlockId,
)
    requires
        call_ensures(CodeLensCache::<Task>::all_block_ids, (&cache,), res),
    ensures
        res@.contains(id) <==> exists|buffer: u64| #[trigger]
            cache@.block_ids.contains_key(buffer) && cache@.block_ids[buffer].contains(id),
{
    law_listing_holds_every_block(cache@.block_ids, res@, id);
}

/// In the list of all blocks those of one buffer stand together and in their order:
/// `start` is the place of the first.
pub proof fn law_blocks_of_a_buffer_stand_together<Task>(
    cache: CodeLensCache<Task>,
    res: Vec<CustomBlockId>,
    buffer: u64,
) -> (start: int)
    requires
        call_ensures(CodeLensCache::<Task>::all_block_ids, (&cache,), res),
        cache@.block_ids.contains_key(buffer),
    ensures
        0 <= start <= res@.len() - cache@.block_ids[buffer].len(),
        res@.subrange(start, start + cache@.block_ids[buffer].len()) == cache@.block_ids[buffer],
{
    let order = choose|order: Seq<u64>|
        #[trigger] is_order_of(order, cache@.block_ids) && res@ == ids_in_order(
            cache@.block_ids,
            order,
        );
    assert(order.contains(buffer));
    lemma_blocks_stand_together(cache@.block_ids, order, order.index_of(buffer))
}

/// Two lists of all blocks of one cache hold the same blocks, as often each.
pub proof fn law_lists_of_all_blocks_agree<Task>(
    cache: CodeLensCache<Task>,
    a: Vec<CustomBlockId>,
    b: Vec<CustomBlockId>,
)
    requires
        call_ensures(CodeLensCache::<Task>::all_block_ids, (&cache,), a),
        call_ensures(CodeLensCache::<Task>::all_block_ids, (&cache,), b),
    ensures
        a@.to_multiset() == b@.to_multiset(),
{
    law_listings_differ_only_in_order(cache@.block_ids, a@, b@);
}

/// A new cache lists no blocks.
pub proof fn law_new_cache_lists_no_blocks<Task>(
    enabled: bool,
    cache: CodeLensCache<Task>,
    res: Vec<CustomBlockId>,
)
    requires
        call_ensures(CodeLensCache::<Task>::new, (enabled,), cache),
        call_ensures(CodeLensCache::<Task>::all_block_ids, (&cache,), res),
    ensures
        res@.len() == 0,
{
    if res@.len() > 0 {
        law_all_blocks_are_listed(cache, res, res@[0]);
        assert(res@.contains(res@[0]));
    }
}

/// Setting the blocks of a buffer that had none adds exactly them to the list of all.
pub proof fn law_list_grows_by_the_blocks_set<Task>(
    cache: &mut CodeLensCache<Task>,
    buffer_id: BufferId,
    ids: Vec<CustomBlockId>,
    none: Option<&Vec<CustomBlockId>>,
    before: Vec<CustomBlockId>,
    after: Vec<CustomBlockId>,
)
    requires
        call_ensures(CodeLensCache::<Task>::get_block_ids, (old(cache), &buffer_id), none),
        none is None,
        call_ensures(CodeLensCache::<Task>::all_block_ids, (old(cache),), before),
        call_ensures(CodeLensCache::<Task>::set_block_ids, (cache, buffer_id, ids), ()),
        call_ensures(CodeLensCache::<Task>::all_block_ids, (final(cache),), after),
    ensures
        after@.to_multiset() == before@.to_multiset().add(ids@.to_multiset()),
{
    law_listing_grows_by_a_new_buffer(old(cache)@, buffer_id, ids@, before@, after@);
}

/// After lenses are switched off no buffer has blocks, and the list of all is empty.
pub proof fn law_switched_off_cache_has_no_blocks<Task>(
    cache: &mut CodeLensCache<Task>,
    buffer_id: BufferId,
    res: Option<&Vec<CustomBlockId>>,
    all: Vec<CustomBlockId>,
)
    requires
        call_ensures(CodeLensCache::<Task>::toggle, (cache, false), true),
        call_ensures(CodeLensCache::<Task>::get_block_ids, (final(cache), &buffer_id), res),
        call_ensures(CodeLensCache::<Task>::all_block_ids, (final(cache),), all),
    ensures
        res is None,
        all@.len() == 0,
{
    if all@.len() > 0 {
        law_all_blocks_are_listed(*final(cache), all, all@[0]);
        assert(all@.contains(all@[0]));
    }
}

} // verus!
