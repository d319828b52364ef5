//! What an editor remembers of its code lenses.

use std::collections::HashMap;
use vstd::prelude::*;

use crate::ids::{BufferId, CustomBlockId};
use crate::lens::{lens_views, CodeLensData, CodeLensDataView};

verus! {

broadcast use vstd::std_specs::hash::group_hash_axioms;

/// Whether lenses are shown, and for each buffer its lenses, the task that is
/// refreshing them, and the blocks in which they are drawn. Dropping a task
/// cancels it.
pub struct CodeLensCache<Task = ()> {
    enabled: bool,
    lenses: HashMap<u64, Vec<CodeLensData>>,
    pending_refresh: HashMap<u64, Task>,
    block_ids: HashMap<u64, Vec<CustomBlockId>>,
}

/// The contents of a cache, by buffer number.
#[verifier::ext_equal]
pub struct CodeLensCacheView<Task> {
    pub enabled: bool,
    pub lenses: Map<u64, Seq<CodeLensDataView>>,
    pub pending_refresh: Map<u64, Task>,
    pub block_ids: Map<u64, Seq<CustomBlockId>>,
}

impl<Task> CodeLensCacheView<Task> {
    /// A cache that remembers nothing.
    pub open spec fn empty(enabled: bool) -> Self {
        CodeLensCacheView {
            enabled,
            lenses: Map::empty(),
            pending_refresh: Map::empty(),
            block_ids: Map::empty(),
        }
    }

    /// The cache remembers nothing.
    pub open spec fn is_empty(self) -> bool {
        &&& self.lenses == Map::<u64, Seq<CodeLensDataView>>::empty()
        &&& self.pending_refresh == Map::<u64, Task>::empty()
        &&& self.block_ids == Map::<u64, Seq<CustomBlockId>>::empty()
    }

    /// The cache after lenses are switched on or off: switching off forgets
    /// everything.
    pub open spec fn toggled(self, enabled: bool) -> Self {
        if self.enabled && !enabled {
            CodeLensCacheView::empty(false)
        } else {
            CodeLensCacheView { enabled, ..self }
        }
    }

    /// The cache with the lenses of one buffer replaced.
    pub open spec fn with_lenses(self, buffer_id: BufferId, lenses: Seq<CodeLensDataView>) -> Self {
        CodeLensCacheView { lenses: self.lenses.insert(buffer_id@, lenses), ..self }
    }

    /// The cache with the blocks of one buffer replaced.
    pub open spec fn with_block_ids(
        self,
        buffer_id: BufferId,
        block_ids: Seq<CustomBlockId>,
    ) -> Self {
        CodeLensCacheView { block_ids: self.block_ids.insert(buffer_id@, block_ids), ..self }
    }

    /// The cache with the refresh task of one buffer replaced.
    pub open spec fn with_refresh_task(self, buffer_id: BufferId, task: Task) -> Self {
        CodeLensCacheView { pending_refresh: self.pending_refresh.insert(buffer_id@, task), ..self }
    }

    /// The cache without a refresh task for one buffer.
    pub open spec fn without_refresh_task(self, buffer_id: BufferId) -> Self {
        CodeLensCacheView { pending_refresh: self.pending_refresh.remove(buffer_id@), ..self }
    }

    /// The blocks of one buffer, where any were set.
    pub open spec fn blocks_of(self, buffer_id: BufferId) -> Option<Seq<CustomBlockId>> {
        if self.block_ids.contains_key(buffer_id@) {
            Some(self.block_ids[buffer_id@])
        } else {
            None
        }
    }
}

/// The blocks of the given buffers, buffer by buffer.
pub open spec fn ids_in_order(
    block_ids: Map<u64, Seq<CustomBlockId>>,
    order: Seq<u64>,
) -> Seq<CustomBlockId>
    decreases order.len(),
{
    if order.len() == 0 {
        Seq::empty()
    } else {
        ids_in_order(block_ids, order.drop_last()) + block_ids[order.last()]
    }
}

/// `order` names each buffer that has blocks once.
pub open spec fn is_order_of(order: Seq<u64>, block_ids: Map<u64, Seq<CustomBlockId>>) -> bool {
    &&& order.no_duplicates()
    &&& forall|buffer: u64| #[trigger] order.contains(buffer) <==> block_ids.contains_key(buffer)
}

/// `ids` are the blocks of all buffers, those of one buffer together and in
/// their order, with the buffers in some order.
pub open spec fn is_listing(
    ids: Seq<CustomBlockId>,
    block_ids: Map<u64, Seq<CustomBlockId>>,
) -> bool {
    exists|order: Seq<u64>|
        #[trigger] is_order_of(order, block_ids) && ids == ids_in_order(block_ids, order)
}

impl<Task> View for CodeLensCache<Task> {
    type V = CodeLensCacheView<Task>;

    closed spec fn view(&self) -> CodeLensCacheView<Task> {
        CodeLensCacheView {
            enabled: self.enabled,
            lenses: self.lenses@.map_values(|lenses: Vec<CodeLensData>| lens_views(lenses@)),
            pending_refresh: self.pending_refresh@,
            block_ids: self.block_ids@.map_values(|ids: Vec<CustomBlockId>| ids@),
        }
    }
}

impl<Task> Default for CodeLensCache<Task> {
    fn default() -> (res: Self)
        ensures
            res@ == CodeLensCacheView::<Task>::empty(false),
    {
        CodeLensCache::new(false)
    }
}

impl<Task> CodeLensCache<Task> {
    /// A cache that remembers nothing.
    pub fn new(enabled: bool) -> (res: Self)
        ensures
            res@ == CodeLensCacheView::<Task>::empty(enabled),
    {
        let res = CodeLensCache {
            enabled,
            lenses: HashMap::new(),
            pending_refresh: HashMap::new(),
            block_ids: HashMap::new(),
        };
        assert(res@ =~= CodeLensCacheView::<Task>::empty(enabled));
        res
    }

    /// Switches lenses on or off and says whether that was a change. Switching
    /// off forgets everything.
    pub fn toggle(&mut self, enabled: bool) -> (res: bool)
        ensures
            res == (old(self)@.enabled != enabled),
            final(self)@ == old(self)@.toggled(enabled),
    {
        if self.enabled == enabled {
            return false;
        }
        self.enabled = enabled;
        if !enabled {
            self.clear();
        }
        true
    }

    /// Forgets everything but whether lenses are shown.
    pub fn clear(&mut self)
        ensures
            final(self)@ == CodeLensCacheView::<Task>::empty(old(self)@.enabled),
    {
        self.lenses.clear();
        self.pending_refresh.clear();
        self.block_ids.clear();
        assert(self@ =~= CodeLensCacheView::<Task>::empty(old(self)@.enabled));
    }

    /// Whether lenses are shown.
    pub fn enabled(&self) -> (res: bool)
        ensures
            res == self@.enabled,
    {
        self.enabled
    }

    /// Remembers the lenses of a buffer in place of those known before.
    pub fn set_lenses_for_buffer(&mut self, buffer_id: BufferId, lenses: Vec<CodeLensData>)
        ensures
            final(self)@ == old(self)@.with_lenses(buffer_id, lens_views(lenses@)),
    {
        self.lenses.insert(buffer_id.to_u64(), lenses);
        assert(self@ =~= old(self)@.with_lenses(buffer_id, lens_views(lenses@)));
    }

    /// Remembers the blocks of a buffer in place of those known before.
    pub fn set_block_ids(&mut self, buffer_id: BufferId, block_ids: Vec<CustomBlockId>)
        ensures
            final(self)@ == old(self)@.with_block_ids(buffer_id, block_ids@),
    {
        self.block_ids.insert(buffer_id.to_u64(), block_ids);
        assert(self@ =~= old(self)@.with_block_ids(buffer_id, block_ids@));
    }

    /// The blocks of a buffer; `None` where none were set.
    pub fn get_block_ids(&self, buffer_id: &BufferId) -> (res: Option<&Vec<CustomBlockId>>)
        ensures
            match res {
                Some(ids) => self@.blocks_of(*buffer_id) == Some(ids@),
                None => self@.blocks_of(*buffer_id) is None,
            },
    {
        self.block_ids.get(&buffer_id.to_u64())
    }

    /// The blocks of all buffers. In which order the buffers come is not fixed.
    pub fn all_block_ids(&self) -> (res: Vec<CustomBlockId>)
        ensures
            is_listing(res@, self@.block_ids),
    {
        let mut res: Vec<CustomBlockId> = Vec::new();
        let iter = self.block_ids.iter();
        let ghost entries = vstd::std_specs::iter::IteratorSpec::remaining(&iter);
        let ghost order = Seq::new(entries.len(), |i: int| *entries[i].0);
        for entry in it: iter
            invariant
                it.seq() == entries,
                order == Seq::new(entries.len(), |i: int| *entries[i].0),
                forall|i: int|
                    0 <= i < entries.len() ==> self.block_ids@.contains_key(
                        *(#[trigger] entries[i]).0,
                    ) && self.block_ids@[*entries[i].0] == *entries[i].1,
                res@ == ids_in_order(self@.block_ids, order.take(it.index())),
        {
            let ghost before = res@;
            res.extend_from_slice(entry.1.as_slice());
            proof {
                let next = order.take(it.index() + 1);
                assert(next.drop_last() == order.take(it.index()));
                assert(next.last() == *entry.0);
                assert(self@.block_ids[*entry.0] == entry.1@);
                assert(res@ == before + entry.1@);
            }
        }
        proof {
            assert(order.take(order.len() as int) == order);
            assert(is_order_of(order, self@.block_ids)) by {
                assert forall|i: int, j: int|
                    0 <= i < order.len() && 0 <= j < order.len() && i != j implies order[i]
                    != order[j] by {
                    assert(entries[i] != entries[j]);
                }
                assert forall|buffer: u64| #[trigger] order.contains(buffer)
                    <==> self@.block_ids.contains_key(buffer) by {
                    if order.contains(buffer) {
                        let i = order.index_of(buffer);
                        assert(self.block_ids@.contains_key(*entries[i].0));
                    }
                    if self.block_ids@.contains_key(buffer) {
                        assert(entries.contains((&buffer, &self.block_ids@[buffer])));
                        let i = entries.index_of((&buffer, &self.block_ids@[buffer]));
                        assert(order[i] == buffer);
                    }
                }
            }
        }
        res
    }

    /// Remembers the task that refreshes a buffer's lenses. A task that was known
    /// before is dropped.
    pub fn set_refresh_task(&mut self, buffer_id: BufferId, task: Task)
        ensures
            final(self)@ == old(self)@.with_refresh_task(buffer_id, task),
    {
        self.pending_refresh.insert(buffer_id.to_u64(), task);
        assert(self@ =~= old(self)@.with_refresh_task(buffer_id, task));
    }

    /// Forgets the task that refreshes a buffer's lenses.
    pub fn remove_refresh_task(&mut self, buffer_id: &BufferId)
        ensures
            final(self)@ == old(self)@.without_refresh_task(*buffer_id),
    {
        self.pending_refresh.remove(&buffer_id.to_u64());
        assert(self@ =~= old(self)@.without_refresh_task(*buffer_id));
    }
}

/// Switching lenses off forgets everything: no buffer has blocks any more, the
/// list of all blocks is empty, and nothing is being refreshed.
pub proof fn law_switching_off_forgets<Task>(
    cache: CodeLensCacheView<Task>,
    buffer_id: BufferId,
    ids: Seq<CustomBlockId>,
)
    requires
        cache.enabled,
        is_listing(ids, cache.toggled(false).block_ids),
    ensures
        !cache.toggled(false).enabled,
        cache.toggled(false).is_empty(),
        cache.toggled(false).blocks_of(buffer_id) is None,
        ids.len() == 0,
{
    law_no_blocks_list_as_nothing(cache.toggled(false).block_ids, ids);
}

/// Switching lenses to what they are already changes nothing, and switching them
/// on keeps what is remembered.
pub proof fn law_only_switching_off_forgets<Task>(cache: CodeLensCacheView<Task>, enabled: bool)
    requires
        enabled || !cache.enabled,
    ensures
        cache.toggled(enabled) == (CodeLensCacheView { enabled, ..cache }),
        cache.enabled == enabled ==> cache.toggled(enabled) == cache,
{
}

/// Switching lenses off and on again leaves an empty cache.
pub proof fn law_off_and_on_leaves_nothing<Task>(cache: CodeLensCacheView<Task>)
    requires
        cache.enabled,
    ensures
        cache.toggled(false).toggled(true) == CodeLensCacheView::<Task>::empty(true),
{
}

/// The blocks that were set for a buffer are read back, and those of other
/// buffers stay as they were. Lenses and refresh tasks do not touch any.
pub proof fn law_set_blocks_are_read_back<Task>(
    cache: CodeLensCacheView<Task>,
    buffer_id: BufferId,
    ids: Seq<CustomBlockId>,
    other: BufferId,
    lenses: Seq<CodeLensDataView>,
    task: Task,
)
    ensures
        cache.with_block_ids(buffer_id, ids).blocks_of(buffer_id) == Some(ids),
        other@ != buffer_id@ ==> cache.with_block_ids(buffer_id, ids).blocks_of(other)
            == cache.blocks_of(other),
        cache.with_lenses(buffer_id, lenses).blocks_of(other) == cache.blocks_of(other),
        cache.with_refresh_task(buffer_id, task).blocks_of(other) == cache.blocks_of(other),
        cache.without_refresh_task(buffer_id).blocks_of(other) == cache.blocks_of(other),
{
}

/// What is set last for a buffer counts: it replaces what was set before.
pub proof fn law_last_set_counts<Task>(
    cache: CodeLensCacheView<Task>,
    buffer_id: BufferId,
    first: Seq<CustomBlockId>,
    second: Seq<CustomBlockId>,
)
    ensures
        cache.with_block_ids(buffer_id, first).with_block_ids(buffer_id, second)
            == cache.with_block_ids(buffer_id, second),
{
    assert(cache.block_ids.insert(buffer_id@, first).insert(buffer_id@, second)
        =~= cache.block_ids.insert(buffer_id@, second));
}

/// Removing a buffer's refresh task undoes setting it where the buffer had none,
/// and leaves the buffer without one in any case.
pub proof fn law_removing_undoes_setting_a_task<Task>(
    cache: CodeLensCacheView<Task>,
    buffer_id: BufferId,
    task: Task,
)
    ensures
        cache.with_refresh_task(buffer_id, task).without_refresh_task(buffer_id)
            == cache.without_refresh_task(buffer_id),
        !cache.pending_refresh.contains_key(buffer_id@) ==> cache.with_refresh_task(
            buffer_id,
            task,
        ).without_refresh_task(buffer_id) == cache,
        !cache.without_refresh_task(buffer_id).pending_refresh.contains_key(buffer_id@),
{
    assert(cache.pending_refresh.insert(buffer_id@, task).remove(buffer_id@)
        =~= cache.pending_refresh.remove(buffer_id@));
    if !cache.pending_refresh.contains_key(buffer_id@) {
        assert(cache.pending_refresh.remove(buffer_id@) =~= cache.pending_refresh);
    }
}

/// The blocks of buffers in order hold a block where one of the buffers has it.
proof fn lemma_ids_in_order_contains(
    block_ids: Map<u64, Seq<CustomBlockId>>,
    order: Seq<u64>,
    id: CustomBlockId,
)
    ensures
        ids_in_order(block_ids, order).contains(id) <==> exists|i: int|
            0 <= i < order.len() && block_ids[#[trigger] order[i]].contains(id),
    decreases order.len(),
{
    if order.len() > 0 {
        let rest = order.drop_last();
        let front = ids_in_order(block_ids, rest);
        let back = block_ids[order.last()];
        lemma_ids_in_order_contains(block_ids, rest, id);
        if ids_in_order(block_ids, order).contains(id) {
            let k = (front + back).index_of(id);
            if k < front.len() {
                assert(front[k] == id);
                let i = choose|i: int|
                    0 <= i < rest.len() && block_ids[#[trigger] rest[i]].contains(id);
                assert(order[i] == rest[i]);
            } else {
                assert(back[k - front.len()] == id);
                assert(block_ids[order[order.len() - 1]].contains(id));
            }
        }
        if exists|i: int| 0 <= i < order.len() && block_ids[#[trigger] order[i]].contains(id) {
            let i = choose|i: int|
                0 <= i < order.len() && block_ids[#[trigger] order[i]].contains(id);
            if i < rest.len() {
                assert(block_ids[rest[i]].contains(id));
                let k = front.index_of(id);
                assert((front + back)[k] == id);
            } else {
                let k = back.index_of(id);
                assert((front + back)[front.len() + k] == id);
            }
        }
    }
}

/// The list of all blocks holds exactly the blocks that some buffer has.
pub proof fn law_listing_holds_every_block(
    block_ids: Map<u64, Seq<CustomBlockId>>,
    ids: Seq<CustomBlockId>,
    id: CustomBlockId,
)
    requires
        is_listing(ids, block_ids),
    ensures
        ids.contains(id) <==> exists|buffer: u64| #[trigger]
            block_ids.contains_key(buffer) && block_ids[buffer].contains(id),
{
    let order = choose|order: Seq<u64>|
        #[trigger] is_order_of(order, block_ids) && ids == ids_in_order(block_ids, order);
    lemma_ids_in_order_contains(block_ids, order, id);
    if ids.contains(id) {
        let i = choose|i: int| 0 <= i < order.len() && block_ids[#[trigger] order[i]].contains(id);
        assert(order.contains(order[i]));
        assert(block_ids.contains_key(order[i]));
    }
    if exists|buffer: u64| #[trigger]
        block_ids.contains_key(buffer) && block_ids[buffer].contains(id) {
        let buffer = choose|buffer: u64| #[trigger]
            block_ids.contains_key(buffer) && block_ids[buffer].contains(id);
        assert(order.contains(buffer));
        let i = order.index_of(buffer);
        assert(block_ids[order[i]].contains(id));
    }
}

/// Where no buffer has blocks, the list of all blocks is empty.
pub proof fn law_no_blocks_list_as_nothing(
    block_ids: Map<u64, Seq<CustomBlockId>>,
    ids: Seq<CustomBlockId>,
)
    requires
        is_listing(ids, block_ids),
        forall|buffer: u64| #[trigger]
            block_ids.contains_key(buffer) ==> block_ids[buffer].len() == 0,
    ensures
        ids.len() == 0,
{
    if ids.len() > 0 {
        law_listing_holds_every_block(block_ids, ids, ids[0]);
        assert(ids.contains(ids[0]));
        let buffer = choose|buffer: u64| #[trigger]
            block_ids.contains_key(buffer) && block_ids[buffer].contains(ids[0]);
        assert(block_ids[buffer].len() == 0);
    }
}

/// Taking one buffer out of an order takes out its blocks.
proof fn lemma_ids_without_buffer(
    block_ids: Map<u64, Seq<CustomBlockId>>,
    order: Seq<u64>,
    j: int,
)
    requires
        0 <= j < order.len(),
    ensures
        ids_in_order(block_ids, order).to_multiset() == ids_in_order(
            block_ids,
            order.remove(j),
        ).to_multiset().add(block_ids[order[j]].to_multiset()),
    decreases order.len(),
{
    let rest = order.drop_last();
    let back = block_ids[order.last()];
    vstd::seq_lib::lemma_multiset_commutative(ids_in_order(block_ids, rest), back);
    if j == order.len() - 1 {
        assert(order.remove(j) == rest);
    } else {
        let shorter = rest.remove(j);
        assert(order.remove(j).drop_last() == shorter);
        assert(order.remove(j).last() == order.last());
        lemma_ids_without_buffer(block_ids, rest, j);
        vstd::seq_lib::lemma_multiset_commutative(ids_in_order(block_ids, shorter), back);
        assert(ids_in_order(block_ids, order).to_multiset() =~= ids_in_order(
            block_ids,
            order.remove(j),
        ).to_multiset().add(block_ids[order[j]].to_multiset()));
    }
}

/// Orders of the same buffers list the same blocks, as often each.
proof fn lemma_orders_list_alike(
    block_ids: Map<u64, Seq<CustomBlockId>>,
    a: Seq<u64>,
    b: Seq<u64>,
)
    requires
        a.no_duplicates(),
        b.no_duplicates(),
        forall|buffer: u64| #[trigger] a.contains(buffer) <==> b.contains(buffer),
    ensures
        ids_in_order(block_ids, a).to_multiset() == ids_in_order(block_ids, b).to_multiset(),
    decreases a.len(),
{
    if a.len() == 0 {
        if b.len() > 0 {
            assert(b.contains(b[0]));
            assert(a.contains(b[0]));
        }
        assert(a == b);
    } else {
        let buffer = a.last();
        assert(a.contains(buffer));
        assert(b.contains(buffer));
        let j = b.index_of(buffer);
        let a_rest = a.drop_last();
        let b_rest = b.remove(j);
        assert forall|x: u64| #[trigger] a_rest.contains(x) <==> b_rest.contains(x) by {
            if a_rest.contains(x) {
                let i = a_rest.index_of(x);
                assert(a[i] == x);
                assert(a.contains(x));
                assert(b.contains(x));
                let k = b.index_of(x);
                assert(k != j);
                assert(b_rest[if k < j { k } else { k - 1 }] == x);
            }
            if b_rest.contains(x) {
                let k = b_rest.index_of(x);
                let l = if k < j { k } else { k + 1 };
                assert(b[l] == x);
                assert(b.contains(x));
                assert(a.contains(x));
                let i = a.index_of(x);
                assert(x != buffer);
                assert(a_rest[i] == x);
            }
        }
        assert(b_rest.no_duplicates()) by {
            assert forall|i: int, k: int|
                0 <= i < b_rest.len() && 0 <= k < b_rest.len() && i != k implies b_rest[i]
                != b_rest[k] by {
                assert(b_rest[i] == b[if i < j { i } else { i + 1 }]);
                assert(b_rest[k] == b[if k < j { k } else { k + 1 }]);
            }
        }
        lemma_orders_list_alike(block_ids, a_rest, b_rest);
        lemma_ids_without_buffer(block_ids, b, j);
        lemma_ids_without_buffer(block_ids, a, a.len() - 1);
        assert(a.remove(a.len() - 1) == a_rest);
    }
}

/// Two lists of all blocks differ in nothing but order.
pub proof fn law_listings_differ_only_in_order(
    block_ids: Map<u64, Seq<CustomBlockId>>,
    a: Seq<CustomBlockId>,
    b: Seq<CustomBlockId>,
)
    requires
        is_listing(a, block_ids),
        is_listing(b, block_ids),
    ensures
        a.to_multiset() == b.to_multiset(),
{
    let a_order = choose|order: Seq<u64>|
        #[trigger] is_order_of(order, block_ids) && a == ids_in_order(block_ids, order);
    let b_order = choose|order: Seq<u64>|
        #[trigger] is_order_of(order, block_ids) && b == ids_in_order(block_ids, order);
    assert forall|buffer: u64| #[trigger] a_order.contains(buffer)
        <==> b_order.contains(buffer) by {
        assert(a_order.contains(buffer) <==> block_ids.contains_key(buffer));
        assert(b_order.contains(buffer) <==> block_ids.contains_key(buffer));
    }
    lemma_orders_list_alike(block_ids, a_order, b_order);
}

/// The blocks of buffers in order depend on those buffers alone.
proof fn lemma_ids_in_order_of_others(
    block_ids: Map<u64, Seq<CustomBlockId>>,
    order: Seq<u64>,
    buffer: u64,
    ids: Seq<CustomBlockId>,
)
    requires
        !order.contains(buffer),
    ensures
        ids_in_order(block_ids.insert(buffer, ids), order) == ids_in_order(block_ids, order),
    decreases order.len(),
{
    if order.len() > 0 {
        let rest = order.drop_last();
        assert(order.contains(order.last()));
        if rest.contains(buffer) {
            let i = rest.index_of(buffer);
            assert(order[i] == buffer);
        }
        lemma_ids_in_order_of_others(block_ids, rest, buffer, ids);
    }
}

/// Setting the blocks of a buffer that had none adds them to the list of all
/// blocks and takes none away.
pub proof fn law_listing_grows_by_a_new_buffer<Task>(
    cache: CodeLensCacheView<Task>,
    buffer_id: BufferId,
    ids: Seq<CustomBlockId>,
    before: Seq<CustomBlockId>,
    after: Seq<CustomBlockId>,
)
    requires
        cache.blocks_of(buffer_id) is None,
        is_listing(before, cache.block_ids),
        is_listing(after, cache.with_block_ids(buffer_id, ids).block_ids),
    ensures
        after.to_multiset() == before.to_multiset().add(ids.to_multiset()),
{
    let new_block_ids = cache.with_block_ids(buffer_id, ids).block_ids;
    let order = choose|order: Seq<u64>|
        #[trigger] is_order_of(order, cache.block_ids) && before == ids_in_order(
            cache.block_ids,
            order,
        );
    let new_order = order.push(buffer_id@);
    assert(!order.contains(buffer_id@));
    assert(new_order.drop_last() == order);
    lemma_ids_in_order_of_others(cache.block_ids, order, buffer_id@, ids);
    assert(is_order_of(new_order, new_block_ids)) by {
        assert forall|i: int, j: int|
            0 <= i < new_order.len() && 0 <= j < new_order.len() && i != j implies new_order[i]
            != new_order[j] by {
            if i < order.len() {
                assert(order.contains(order[i]));
            }
            if j < order.len() {
                assert(order.contains(order[j]));
            }
        }
        assert forall|buffer: u64| #[trigger] new_order.contains(buffer)
            <==> new_block_ids.contains_key(buffer) by {
            if new_order.contains(buffer) {
                let i = new_order.index_of(buffer);
                assert(i < order.len() ==> order.contains(buffer));
            }
            if cache.block_ids.contains_key(buffer) {
                assert(order.contains(buffer));
                let i = order.index_of(buffer);
                assert(new_order[i] == buffer);
            }
            assert(new_order[order.len() as int] == buffer_id@);
        }
    }
    assert(is_listing(before + ids, new_block_ids));
    law_listings_differ_only_in_order(new_block_ids, after, before + ids);
    vstd::seq_lib::lemma_multiset_commutative(before, ids);
}

} // verus!
