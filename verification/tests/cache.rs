use std::rc::Rc;

use code_lens::cache::CodeLensCache;
use code_lens::ids::{BufferId, CustomBlockId};

fn buffer(id: u64) -> BufferId {
    BufferId::new(id).unwrap()
}

#[test]
fn test_cache_toggle() {
    let mut cache: CodeLensCache = CodeLensCache::new(false);
    assert!(!cache.enabled());

    cache.toggle(true);
    assert!(cache.enabled());

    cache.toggle(false);
    assert!(!cache.enabled());
    assert!(cache.all_block_ids().is_empty());
}

#[test]
fn test_cache_toggle_clears_state() {
    let mut cache: CodeLensCache = CodeLensCache::new(true);
    cache.set_lenses_for_buffer(BufferId::new(1).unwrap(), vec![]);
    cache.set_block_ids(
        BufferId::new(1).unwrap(),
        vec![CustomBlockId(1)],
    );

    assert_eq!(cache.all_block_ids(), vec![CustomBlockId(1)]);

    cache.toggle(false);
    assert!(cache.all_block_ids().is_empty());
    assert!(cache.get_block_ids(&BufferId::new(1).unwrap()).is_none());
}

#[test]
fn test_cache_all_block_ids_across_buffers() {
    let mut cache: CodeLensCache = CodeLensCache::new(true);
    cache.set_block_ids(
        BufferId::new(1).unwrap(),
        vec![CustomBlockId(1), CustomBlockId(2)],
    );
    cache.set_block_ids(
        BufferId::new(2).unwrap(),
        vec![CustomBlockId(3)],
    );

    let mut all = cache.all_block_ids();
    all.sort_by_key(|id| id.0);
    assert_eq!(
        all,
        vec![CustomBlockId(1), CustomBlockId(2), CustomBlockId(3)]
    );
}

#[test]
fn buffer_zero_does_not_exist() {
    assert!(BufferId::new(0).is_none());
    assert_eq!(buffer(7).to_u64(), 7);
    assert_eq!(buffer(7), buffer(7));
    assert_ne!(buffer(7), buffer(8));
}

#[test]
fn default_cache_is_off_and_empty() {
    let cache: CodeLensCache = CodeLensCache::default();
    assert!(!cache.enabled());
    assert!(cache.all_block_ids().is_empty());
}

#[test]
fn toggle_says_whether_it_changed_anything() {
    let mut cache: CodeLensCache = CodeLensCache::new(false);
    assert!(!cache.toggle(false));
    assert!(cache.toggle(true));
    assert!(!cache.toggle(true));
    assert!(cache.toggle(false));
}

#[test]
fn toggle_to_the_same_keeps_everything() {
    let mut cache: CodeLensCache = CodeLensCache::new(true);
    cache.set_block_ids(buffer(1), vec![CustomBlockId(4)]);
    assert!(!cache.toggle(true));
    assert_eq!(cache.get_block_ids(&buffer(1)), Some(&vec![CustomBlockId(4)]));

    let mut off: CodeLensCache = CodeLensCache::new(false);
    off.set_block_ids(buffer(1), vec![CustomBlockId(4)]);
    assert!(!off.toggle(false));
    assert_eq!(off.get_block_ids(&buffer(1)), Some(&vec![CustomBlockId(4)]));
}

#[test]
fn off_and_on_leaves_nothing() {
    let mut cache: CodeLensCache = CodeLensCache::new(true);
    cache.set_block_ids(buffer(1), vec![CustomBlockId(4)]);
    cache.toggle(false);
    cache.toggle(true);
    assert!(cache.enabled());
    assert!(cache.all_block_ids().is_empty());
}

#[test]
fn clear_keeps_the_switch() {
    let mut cache: CodeLensCache = CodeLensCache::new(true);
    cache.set_block_ids(buffer(3), vec![CustomBlockId(9)]);
    cache.clear();
    assert!(cache.enabled());
    assert!(cache.get_block_ids(&buffer(3)).is_none());
}

#[test]
fn set_blocks_are_read_back() {
    let mut cache: CodeLensCache = CodeLensCache::new(true);
    cache.set_block_ids(buffer(1), vec![CustomBlockId(1)]);
    cache.set_block_ids(buffer(2), vec![CustomBlockId(2), CustomBlockId(3)]);
    cache.set_block_ids(buffer(1), vec![CustomBlockId(5), CustomBlockId(4)]);
    assert_eq!(
        cache.get_block_ids(&buffer(1)),
        Some(&vec![CustomBlockId(5), CustomBlockId(4)])
    );
    assert_eq!(
        cache.get_block_ids(&buffer(2)),
        Some(&vec![CustomBlockId(2), CustomBlockId(3)])
    );
    assert_eq!(cache.get_block_ids(&buffer(3)), None);
}

#[test]
fn blocks_of_one_buffer_stay_together_and_in_order() {
    let mut cache: CodeLensCache = CodeLensCache::new(true);
    cache.set_block_ids(buffer(1), vec![CustomBlockId(2), CustomBlockId(1)]);
    cache.set_block_ids(buffer(2), vec![CustomBlockId(4), CustomBlockId(3)]);
    let all: Vec<usize> = cache.all_block_ids().iter().map(|id| id.0).collect();
    assert!(all == vec![2, 1, 4, 3] || all == vec![4, 3, 2, 1]);
}

#[test]
fn tasks_are_dropped_when_replaced_removed_or_cleared() {
    let first = Rc::new(());
    let second = Rc::new(());
    let third = Rc::new(());
    let mut cache: CodeLensCache<Rc<()>> = CodeLensCache::new(true);

    cache.set_refresh_task(buffer(1), first.clone());
    assert_eq!(Rc::strong_count(&first), 2);
    cache.set_refresh_task(buffer(1), second.clone());
    assert_eq!(Rc::strong_count(&first), 1);
    assert_eq!(Rc::strong_count(&second), 2);

    cache.remove_refresh_task(&buffer(2));
    assert_eq!(Rc::strong_count(&second), 2);
    cache.remove_refresh_task(&buffer(1));
    assert_eq!(Rc::strong_count(&second), 1);

    cache.set_refresh_task(buffer(1), third.clone());
    cache.toggle(false);
    assert_eq!(Rc::strong_count(&third), 1);
}
