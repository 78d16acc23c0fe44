use tape_machine::memory::DEFAULT_CAPACITY;
use tape_machine::Memory;

#[test]
fn default_memory_is_bounded_and_zeroed() {
    let m = Memory::default();
    assert!(m.is_bounded());
    assert_eq!(DEFAULT_CAPACITY, 30_000);
    assert_eq!(m.forward_len(), 30_000);
    assert_eq!(m.backward_len(), 0);
    assert_eq!(m.distance(), 0);
    assert!(!m.is_back());
    assert!(m.cells().iter().all(|&cell| cell == 0));
}

#[test]
fn bounded_memory_has_the_capacity_asked_for() {
    let m = Memory::bounded(7);
    assert!(m.is_bounded());
    assert_eq!(m.cells(), vec![0u8; 7]);
}

#[test]
fn unbounded_memory_starts_empty() {
    let m = Memory::unbounded();
    assert!(!m.is_bounded());
    assert_eq!(m.forward_len(), 0);
    assert_eq!(m.backward_len(), 0);
    assert_eq!(m.distance(), 0);
    assert_eq!(m.peek(), 0);
    assert_eq!(m.cells(), Vec::<u8>::new());
}

#[test]
fn bounded_backward_from_zero_wraps_to_last_cell() {
    let mut m = Memory::bounded(5);
    m.store(9);
    let before = m.cells();
    m.dec();
    assert_eq!(m.distance(), 4);
    assert!(!m.is_back());
    assert_eq!(m.forward_len(), 5);
    assert_eq!(m.backward_len(), 0);
    assert_eq!(m.cells(), before);
}

#[test]
fn default_backward_from_zero_wraps_to_capacity_less_one() {
    let mut m = Memory::default();
    m.dec();
    assert_eq!(m.distance(), DEFAULT_CAPACITY - 1);
    assert_eq!(m.forward_len(), DEFAULT_CAPACITY);
}

#[test]
fn bounded_forward_from_last_cell_wraps_to_zero() {
    let mut m = Memory::bounded(3);
    m.inc();
    m.inc();
    assert_eq!(m.distance(), 2);
    m.store(4);
    m.inc();
    assert_eq!(m.distance(), 0);
    assert_eq!(m.cells(), vec![0, 0, 4]);
}

#[test]
fn bounded_of_one_cell_stays_on_it() {
    let mut m = Memory::bounded(1);
    m.plus();
    m.inc();
    assert_eq!(m.distance(), 0);
    assert_eq!(m.load(), 1);
    m.dec();
    assert_eq!(m.distance(), 0);
    assert_eq!(m.load(), 1);
}

#[test]
fn moves_forward_and_backward_cancel() {
    let mut ring = Memory::bounded(4);
    ring.dec();
    ring.inc();
    assert_eq!(ring.distance(), 0);
    let mut line = Memory::unbounded();
    line.dec();
    line.inc();
    assert_eq!(line.distance(), 0);
    assert!(!line.is_back());
    line.inc();
    line.dec();
    assert_eq!(line.distance(), 0);
}

#[test]
fn plus_wraps_from_255_to_zero() {
    let mut m = Memory::bounded(2);
    m.store(255);
    m.plus();
    assert_eq!(m.load(), 0);
}

#[test]
fn minus_wraps_from_zero_to_255() {
    let mut m = Memory::unbounded();
    m.minus();
    assert_eq!(m.load(), 255);
    m.plus();
    assert_eq!(m.load(), 0);
}

#[test]
fn plus_256_times_returns_to_the_start() {
    let mut m = Memory::unbounded();
    m.store(17);
    for _ in 0..256 {
        m.plus();
    }
    assert_eq!(m.load(), 17);
}

#[test]
fn store_then_load_gives_the_byte() {
    let mut m = Memory::default();
    m.store(65);
    assert_eq!(m.load(), 65);
    assert_eq!(m.peek(), 65);
}

#[test]
fn unbounded_moves_do_not_allocate() {
    let mut m = Memory::unbounded();
    for _ in 0..10 {
        m.inc();
    }
    assert_eq!(m.distance(), 10);
    assert_eq!(m.forward_len(), 0);
    for _ in 0..25 {
        m.dec();
    }
    assert!(m.is_back());
    assert_eq!(m.distance(), 15);
    assert_eq!(m.backward_len(), 0);
}

#[test]
fn unbounded_access_grows_up_to_the_cursor() {
    let mut m = Memory::unbounded();
    m.inc();
    m.inc();
    m.inc();
    m.fill_to_ptr();
    assert_eq!(m.forward_len(), 4);
    assert_eq!(m.cells(), vec![0, 0, 0, 0]);
    m.fill_to_ptr();
    assert_eq!(m.forward_len(), 4);
}

#[test]
fn unbounded_load_materialises_the_cell() {
    let mut m = Memory::unbounded();
    assert_eq!(m.load(), 0);
    assert_eq!(m.forward_len(), 1);
    m.dec();
    m.dec();
    assert_eq!(m.peek(), 0);
    assert_eq!(m.backward_len(), 0);
    assert_eq!(m.load(), 0);
    assert_eq!(m.backward_len(), 2);
    assert_eq!(m.forward_len(), 1);
}

#[test]
fn unbounded_backward_store_leaves_forward_cell_alone() {
    let mut m = Memory::unbounded();
    m.store(42);
    m.dec();
    assert!(m.is_back());
    assert_eq!(m.distance(), 1);
    assert_eq!(m.backward_len(), 0);
    m.store(7);
    assert_eq!(m.backward_len(), 1);
    assert_eq!(m.forward_len(), 1);
    m.inc();
    assert!(!m.is_back());
    assert_eq!(m.distance(), 0);
    assert_eq!(m.load(), 42);
    assert_eq!(m.cells(), vec![7, 42]);
}

#[test]
fn unbounded_backward_store_on_fresh_tape_reads_zero_at_origin() {
    let mut m = Memory::unbounded();
    m.dec();
    m.store(7);
    assert_eq!(m.backward_len(), 1);
    assert_eq!(m.forward_len(), 0);
    m.inc();
    assert_eq!(m.load(), 0);
    assert_eq!(m.cells(), vec![7, 0]);
}

#[test]
fn unbounded_backward_store_with_cells_behind_adds_none() {
    let mut m = Memory::unbounded();
    m.dec();
    m.dec();
    m.store(1);
    m.inc();
    m.inc();
    assert_eq!(m.backward_len(), 2);
    m.dec();
    m.store(5);
    assert_eq!(m.backward_len(), 2);
    assert_eq!(m.cells(), vec![1, 5]);
}

#[test]
fn cells_run_from_lowest_offset_to_highest() {
    let mut m = Memory::unbounded();
    m.store(10);
    m.inc();
    m.store(11);
    m.dec();
    m.dec();
    m.store(9);
    m.dec();
    m.store(8);
    assert_eq!(m.cells(), vec![8, 9, 10, 11]);
}

#[test]
fn moves_are_always_possible_on_a_bounded_memory() {
    let mut m = Memory::bounded(2);
    for _ in 0..5 {
        assert!(m.can_inc());
        assert!(m.can_dec());
        m.inc();
    }
}

#[test]
fn moves_are_possible_near_the_origin_of_an_unbounded_memory() {
    let mut m = Memory::unbounded();
    assert!(m.can_inc());
    assert!(m.can_dec());
    m.dec();
    assert!(m.can_inc());
    assert!(m.can_dec());
}
