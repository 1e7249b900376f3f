use dhe::algorithm::allocator::Allocator;

#[test]
fn allocates_first_fit_and_frees() {
    let mut allocator = Allocator::new(10);
    assert_eq!(allocator.allocate(1, 1), 0);
    assert_eq!(allocator.allocate(1, 2), 1);
    assert_eq!(allocator.allocate(1, 3), 2);
    assert_eq!(allocator.free(2), 1);
    assert_eq!(allocator.allocate(3, 4), 3);
    assert_eq!(allocator.allocate(1, 1), 1);
    assert_eq!(allocator.allocate(1, 1), 6);
    assert_eq!(allocator.free(1), 3);
    assert_eq!(allocator.allocate(10, 2), -1);
    assert_eq!(allocator.free(7), 0);
}

#[test]
fn allocation_larger_than_memory_fails() {
    let mut allocator = Allocator::new(4);
    assert_eq!(allocator.allocate(5, 1), -1);
    assert_eq!(allocator.allocate(4, 1), 0);
    assert_eq!(allocator.allocate(1, 2), -1);
    assert_eq!(allocator.free(1), 4);
    assert_eq!(allocator.allocate(4, 2), 0);
}

#[test]
fn empty_memory_has_room_for_nothing_but_nothing() {
    let mut allocator = Allocator::new(0);
    assert_eq!(allocator.allocate(1, 1), -1);
    assert_eq!(allocator.allocate(0, 1), 0);
    assert_eq!(allocator.free(1), 0);
}

#[test]
fn free_returns_all_cells_of_the_owner() {
    let mut allocator = Allocator::new(10);
    assert_eq!(allocator.allocate(2, 5), 0);
    assert_eq!(allocator.allocate(3, 6), 2);
    assert_eq!(allocator.allocate(4, 5), 5);
    assert_eq!(allocator.free(5), 6);
    assert_eq!(allocator.free(5), 0);
    assert_eq!(allocator.free(6), 3);
}

#[test]
fn one_pass_joins_only_the_first_two_of_three_free_blocks() {
    let mut allocator = Allocator::new(6);
    assert_eq!(allocator.allocate(2, 1), 0);
    assert_eq!(allocator.allocate(2, 2), 2);
    assert_eq!(allocator.allocate(2, 1), 4);
    assert_eq!(allocator.free(2), 2);
    // blocks are now 1, free, 1; freeing owner 1 leaves three free blocks
    // in a row, of which the pass joins the first two
    assert_eq!(allocator.free(1), 4);
    assert_eq!(allocator.allocate(5, 3), -1);
    assert_eq!(allocator.allocate(4, 3), 0);
    assert_eq!(allocator.allocate(2, 4), 4);
}

#[test]
fn normalize_joins_neighbours_of_one_owner() {
    let mut allocator = Allocator::new(6);
    assert_eq!(allocator.allocate(2, 1), 0);
    assert_eq!(allocator.allocate(2, 1), 2);
    allocator.normalize();
    assert_eq!(allocator.free(1), 4);
    assert_eq!(allocator.allocate(6, 2), 0);
}

/// A plain list of blocks that is changed step by step, to compare with.
struct Blocks {
    data: Vec<(i32, i32)>,
}

impl Blocks {
    fn allocate(&mut self, size: i32, m_id: i32) -> i32 {
        let mut point = 0;
        let mut found = None;
        for (index, (owner, room)) in self.data.iter().enumerate() {
            if *owner == 0 && size <= *room {
                found = Some((index, room - size));
                break;
            }
            point += room;
        }
        match found {
            Some((index, rest)) => {
                self.data.remove(index);
                if rest > 0 {
                    self.data.insert(index, (0, rest));
                }
                self.data.insert(index, (m_id, size));
                self.join();
                point
            }
            None => -1,
        }
    }

    fn free(&mut self, m_id: i32) -> i32 {
        let mut size = 0;
        for block in self.data.iter_mut() {
            if block.0 == m_id {
                block.0 = 0;
                size += block.1;
            }
        }
        self.join();
        size
    }

    fn join(&mut self) {
        let mut i = 1;
        while i < self.data.len() {
            if self.data[i - 1].0 == self.data[i].0 {
                self.data[i].1 += self.data[i - 1].1;
                self.data.remove(i - 1);
            }
            i += 1;
        }
    }
}

#[test]
fn long_runs_agree_with_a_plain_list_of_blocks() {
    let mut seed: u64 = 0x2545f4914f6cdd1d;
    let mut next = move |below: u64| {
        seed ^= seed << 13;
        seed ^= seed >> 7;
        seed ^= seed << 17;
        seed % below
    };
    for _ in 0..200 {
        let n = next(40) as i32;
        let mut allocator = Allocator::new(n);
        let mut blocks = Blocks { data: vec![(0, n)] };
        for _ in 0..60 {
            let m_id = next(6) as i32;
            if next(3) == 0 {
                assert_eq!(allocator.free(m_id), blocks.free(m_id));
            } else {
                let size = next(12) as i32;
                assert_eq!(allocator.allocate(size, m_id), blocks.allocate(size, m_id));
            }
        }
    }
}
