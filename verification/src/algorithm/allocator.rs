use vstd::prelude::*;

verus! {

/// A block of memory: the id of its owner (0 for none) and its size in
/// cells.
pub type Block = (i32, i32);

/// The cells of one block: each holds the owner's id.
pub open spec fn cells(block: Block) -> Seq<i32> {
    Seq::new(block.1 as nat, |c: int| block.0)
}

/// The memory that the blocks lay out, cell by cell.
pub open spec fn memory_of(blocks: Seq<Block>) -> Seq<i32>
    decreases blocks.len(),
{
    if blocks.len() == 0 {
        Seq::empty()
    } else {
        memory_of(blocks.drop_last()) + cells(blocks.last())
    }
}

/// The size of all the blocks together.
pub open spec fn total(blocks: Seq<Block>) -> int
    decreases blocks.len(),
{
    if blocks.len() == 0 {
        0
    } else {
        total(blocks.drop_last()) + blocks.last().1
    }
}

/// The size of all the blocks of one owner together.
pub open spec fn held(blocks: Seq<Block>, m_id: i32) -> int
    decreases blocks.len(),
{
    if blocks.len() == 0 {
        0
    } else if blocks.last().0 == m_id {
        held(blocks.drop_last(), m_id) + blocks.last().1
    } else {
        held(blocks.drop_last(), m_id)
    }
}

/// No block has a negative size, and the sizes add up to a size that can
/// be counted.
pub open spec fn well_formed(blocks: Seq<Block>) -> bool {
    &&& forall|i: int| 0 <= i < blocks.len() ==> (#[trigger] blocks[i]).1 >= 0
    &&& total(blocks) <= i32::MAX
}

/// One pass over the blocks from position `at` on, which joins a block to
/// the one before it where both have the same owner. After a join the pass
/// goes on behind the joined block, so of three blocks in a row with one
/// owner it joins the first two only.
pub open spec fn merged_from(blocks: Seq<Block>, at: int) -> Seq<Block>
    decreases blocks.len() - at + 1,
{
    if at < 1 || at >= blocks.len() {
        blocks
    } else if blocks[at - 1].0 == blocks[at].0 {
        merged_from(
            blocks.update(at, (blocks[at].0, (blocks[at].1 + blocks[at - 1].1) as i32)).remove(
                at - 1,
            ),
            at + 1,
        )
    } else {
        merged_from(blocks, at + 1)
    }
}

/// The blocks after one joining pass.
pub open spec fn normalized(blocks: Seq<Block>) -> Seq<Block> {
    merged_from(blocks, 1)
}

/// The position of the first block without an owner that is large enough,
/// looking from `from` on; the number of blocks if there is none.
pub open spec fn first_fit_from(blocks: Seq<Block>, size: i32, from: int) -> int
    decreases blocks.len() - from,
{
    if from < 0 || from >= blocks.len() {
        blocks.len() as int
    } else if blocks[from].0 == 0 && size <= blocks[from].1 {
        from
    } else {
        first_fit_from(blocks, size, from + 1)
    }
}

/// The blocks after `size` cells at the front of the free block at
/// `index` were given to `m_id`; what is left of the block stays free.
pub open spec fn placed(blocks: Seq<Block>, index: int, size: i32, m_id: i32) -> Seq<Block> {
    let rest = (blocks[index].1 - size) as i32;
    if rest > 0 {
        blocks.take(index) + seq![(m_id, size), (0i32, rest)] + blocks.skip(index + 1)
    } else {
        blocks.take(index) + seq![(m_id, size)] + blocks.skip(index + 1)
    }
}

/// The blocks after the owner `m_id` gave up all of its blocks.
pub open spec fn released(blocks: Seq<Block>, m_id: i32) -> Seq<Block> {
    Seq::new(
        blocks.len(),
        |i: int|
            if blocks[i].0 == m_id {
                (0i32, blocks[i].1)
            } else {
                blocks[i]
            },
    )
}

/// The memory with the cells `start..start + size` given to `id`.
pub open spec fn filled(memory: Seq<i32>, start: int, size: int, id: i32) -> Seq<i32> {
    Seq::new(
        memory.len(),
        |c: int|
            if start <= c < start + size {
                id
            } else {
                memory[c]
            },
    )
}

/// The memory with every cell of `id` set free.
pub open spec fn cleared(memory: Seq<i32>, id: i32) -> Seq<i32> {
    Seq::new(
        memory.len(),
        |c: int|
            if memory[c] == id {
                0i32
            } else {
                memory[c]
            },
    )
}

pub proof fn lemma_total_concat(a: Seq<Block>, b: Seq<Block>)
    ensures
        total(a + b) == total(a) + total(b),
    decreases b.len(),
{
    if b.len() == 0 {
        assert(a + b =~= a);
    } else {
        lemma_total_concat(a, b.drop_last());
        assert((a + b).drop_last() =~= a + b.drop_last());
    }
}

pub proof fn lemma_memory_concat(a: Seq<Block>, b: Seq<Block>)
    ensures
        memory_of(a + b) == memory_of(a) + memory_of(b),
    decreases b.len(),
{
    if b.len() == 0 {
        assert(a + b =~= a);
        assert(memory_of(a) + memory_of(b) =~= memory_of(a));
    } else {
        lemma_memory_concat(a, b.drop_last());
        assert((a + b).drop_last() =~= a + b.drop_last());
        assert(memory_of(a + b) =~= memory_of(a) + memory_of(b));
    }
}

pub proof fn lemma_held_concat(a: Seq<Block>, b: Seq<Block>, m_id: i32)
    ensures
        held(a + b, m_id) == held(a, m_id) + held(b, m_id),
    decreases b.len(),
{
    if b.len() == 0 {
        assert(a + b =~= a);
    } else {
        lemma_held_concat(a, b.drop_last(), m_id);
        assert((a + b).drop_last() =~= a + b.drop_last());
    }
}

/// Sizes that are not negative add up to no less than any part of them.
pub proof fn lemma_total_parts(blocks: Seq<Block>, upto: int)
    requires
        forall|i: int| 0 <= i < blocks.len() ==> (#[trigger] blocks[i]).1 >= 0,
        0 <= upto <= blocks.len(),
    ensures
        0 <= total(blocks.take(upto)) <= total(blocks),
        memory_of(blocks).len() == total(blocks),
        forall|m_id: i32| 0 <= #[trigger] held(blocks, m_id) <= total(blocks),
        upto < blocks.len() ==> total(blocks.take(upto)) + blocks[upto].1 <= total(blocks),
        0 < upto < blocks.len() ==> blocks[upto - 1].1 + blocks[upto].1 <= total(blocks),
    decreases blocks.len(),
{
    if blocks.len() == 0 {
        assert(blocks.take(upto) =~= blocks);
    } else {
        let front = blocks.drop_last();
        if upto == blocks.len() {
            assert(blocks.take(upto) =~= blocks);
            lemma_total_parts(front, upto - 1);
        } else {
            lemma_total_parts(front, upto);
            assert(blocks.take(upto) =~= front.take(upto));
            if upto < front.len() {
                assert(front[upto] == blocks[upto]);
                if 0 < upto {
                    assert(front[upto - 1] == blocks[upto - 1]);
                }
            } else {
                assert(front.take(upto) =~= front);
                if 0 < upto {
                    lemma_total_parts(front, upto - 1);
                    assert(front[upto - 1] == blocks[upto - 1]);
                }
            }
        }
        assert forall|m_id: i32| 0 <= #[trigger] held(blocks, m_id) <= total(blocks) by {
            assert(0 <= held(front, m_id) <= total(front));
        }
    }
}

proof fn lemma_one_block(block: Block, m_id: i32)
    ensures
        total(seq![block]) == block.1,
        memory_of(seq![block]) == cells(block),
        held(seq![block], m_id) == if block.0 == m_id {
            block.1 as int
        } else {
            0
        },
{
    let one = seq![block];
    assert(one.drop_last() =~= Seq::<Block>::empty());
    assert(one.last() == block);
    reveal_with_fuel(total, 2);
    reveal_with_fuel(memory_of, 2);
    reveal_with_fuel(held, 2);
    assert(memory_of(one) =~= cells(block));
}

proof fn lemma_two_blocks(first: Block, second: Block, m_id: i32)
    ensures
        total(seq![first, second]) == first.1 + second.1,
        memory_of(seq![first, second]) == cells(first) + cells(second),
        held(seq![first, second], m_id) == held(seq![first], m_id) + held(seq![second], m_id),
{
    let two = seq![first, second];
    assert(two =~= seq![first] + seq![second]);
    lemma_total_concat(seq![first], seq![second]);
    lemma_memory_concat(seq![first], seq![second]);
    lemma_held_concat(seq![first], seq![second], m_id);
    lemma_one_block(first, m_id);
    lemma_one_block(second, m_id);
}

proof fn lemma_split_at(blocks: Seq<Block>, at: int)
    requires
        0 <= at < blocks.len(),
    ensures
        blocks == blocks.take(at) + seq![blocks[at]] + blocks.skip(at + 1),
        total(blocks) == total(blocks.take(at)) + blocks[at].1 + total(blocks.skip(at + 1)),
        memory_of(blocks) == memory_of(blocks.take(at)) + cells(blocks[at]) + memory_of(
            blocks.skip(at + 1),
        ),
{
    let one = seq![blocks[at]];
    assert(blocks =~= blocks.take(at) + one + blocks.skip(at + 1));
    lemma_total_concat(blocks.take(at) + one, blocks.skip(at + 1));
    lemma_total_concat(blocks.take(at), one);
    lemma_memory_concat(blocks.take(at) + one, blocks.skip(at + 1));
    lemma_memory_concat(blocks.take(at), one);
    lemma_one_block(blocks[at], 0);
}

/// Joining a block to the one before it, of the same owner, changes
/// neither the memory nor the sizes' sum.
proof fn lemma_join_keeps_memory(blocks: Seq<Block>, at: int)
    requires
        well_formed(blocks),
        1 <= at < blocks.len(),
        blocks[at - 1].0 == blocks[at].0,
    ensures
        ({
            let joined = blocks.update(
                at,
                (blocks[at].0, (blocks[at].1 + blocks[at - 1].1) as i32),
            ).remove(at - 1);
            &&& well_formed(joined)
            &&& total(joined) == total(blocks)
            &&& memory_of(joined) == memory_of(blocks)
            &&& forall|m_id: i32| held(joined, m_id) == held(blocks, m_id)
        }),
{
    let sum = (blocks[at].1 + blocks[at - 1].1) as i32;
    let joined = blocks.update(at, (blocks[at].0, sum)).remove(at - 1);
    lemma_total_parts(blocks, at);
    assert(sum == blocks[at].1 + blocks[at - 1].1);
    let pre = blocks.take(at - 1);
    let post = blocks.skip(at + 1);
    let two = seq![blocks[at - 1], blocks[at]];
    let one = seq![(blocks[at].0, sum)];
    assert(blocks =~= pre + two + post);
    assert(joined =~= pre + one + post);
    lemma_total_concat(pre + two, post);
    lemma_total_concat(pre, two);
    lemma_total_concat(pre + one, post);
    lemma_total_concat(pre, one);
    lemma_memory_concat(pre + two, post);
    lemma_memory_concat(pre, two);
    lemma_memory_concat(pre + one, post);
    lemma_memory_concat(pre, one);
    lemma_two_blocks(blocks[at - 1], blocks[at], 0);
    lemma_one_block((blocks[at].0, sum), 0);
    assert(cells(blocks[at - 1]) + cells(blocks[at]) =~= cells((blocks[at].0, sum)));
    assert forall|m_id: i32| held(joined, m_id) == held(blocks, m_id) by {
        lemma_held_concat(pre + two, post, m_id);
        lemma_held_concat(pre, two, m_id);
        lemma_held_concat(pre + one, post, m_id);
        lemma_held_concat(pre, one, m_id);
        lemma_two_blocks(blocks[at - 1], blocks[at], m_id);
        lemma_one_block(blocks[at - 1], m_id);
        lemma_one_block(blocks[at], m_id);
        lemma_one_block((blocks[at].0, sum), m_id);
    }
    assert forall|i: int| 0 <= i < joined.len() implies (#[trigger] joined[i]).1 >= 0 by {
        if i < at - 1 {
            assert(joined[i] == blocks[i]);
        } else if i == at - 1 {
            assert(joined[i] == (blocks[at].0, sum));
        } else {
            assert(joined[i] == blocks[i + 1]);
        }
    }
}

/// A joining pass changes neither the memory nor what any owner holds.
pub proof fn lemma_merge_keeps_memory(blocks: Seq<Block>, at: int)
    requires
        well_formed(blocks),
        1 <= at,
    ensures
        well_formed(merged_from(blocks, at)),
        total(merged_from(blocks, at)) == total(blocks),
        memory_of(merged_from(blocks, at)) == memory_of(blocks),
        forall|m_id: i32| held(merged_from(blocks, at), m_id) == held(blocks, m_id),
        merged_from(blocks, at).len() <= blocks.len(),
    decreases blocks.len() - at + 1,
{
    if at < blocks.len() {
        if blocks[at - 1].0 == blocks[at].0 {
            let joined = blocks.update(
                at,
                (blocks[at].0, (blocks[at].1 + blocks[at - 1].1) as i32),
            ).remove(at - 1);
            lemma_join_keeps_memory(blocks, at);
            assert(joined.len() == blocks.len() - 1);
            lemma_merge_keeps_memory(joined, at + 1);
        } else {
            lemma_merge_keeps_memory(blocks, at + 1);
        }
    }
}

/// A memory of a fixed number of cells, handed out in blocks to owners
/// that are known by an id. The id 0 marks memory that nobody owns.
#[derive(Debug)]
pub struct Allocator {
    /// (mID, size)
    data: Vec<(i32, i32)>,
}

impl View for Allocator {
    type V = Seq<Block>;

    closed spec fn view(&self) -> Seq<Block> {
        self.data@
    }
}

impl Allocator {
    /// The allocator's blocks are well formed.
    #[verifier::type_invariant]
    pub closed spec fn wf(self) -> bool {
        well_formed(self.data@)
    }

    /// The memory, cell by cell: the id of each cell's owner.
    pub open spec fn memory(self) -> Seq<i32> {
        memory_of(self@)
    }

    /// A memory of `n` cells, all free.
    pub fn new(n: i32) -> (allocator: Allocator)
        requires
            n >= 0,
        ensures
            allocator@ == seq![(0i32, n)],
            allocator.memory() == Seq::new(n as nat, |c: int| 0i32),
            well_formed(allocator@),
    {
        let mut data: Vec<(i32, i32)> = Vec::new();
        data.push((0, n));
        proof {
            assert(data@ =~= seq![(0i32, n)]);
            lemma_one_block((0i32, n), 0);
            assert(cells((0i32, n)) =~= Seq::new(n as nat, |c: int| 0i32));
        }
        Allocator { data }
    }

    /// Gives the first `size` cells of the first free block that has as
    /// many to `m_id` and returns the position of the first of them, or
    /// returns -1 and changes nothing if no free block is large enough.
    /// Afterwards one joining pass is made over the blocks.
    pub fn allocate(&mut self, size: i32, m_id: i32) -> (point: i32)
        requires
            size >= 0,
        ensures
            well_formed(final(self)@),
            final(self).memory().len() == old(self).memory().len(),
            ({
                let index = first_fit_from(old(self)@, size, 0);
                if index < old(self)@.len() {
                    &&& point == total(old(self)@.take(index))
                    &&& point >= 0
                    &&& final(self)@ == normalized(placed(old(self)@, index, size, m_id))
                    &&& final(self).memory() == filled(
                        old(self).memory(),
                        point as int,
                        size as int,
                        m_id,
                    )
                    &&& point + size <= old(self).memory().len()
                    &&& forall|c: int| point <= c < point + size ==> old(self).memory()[c] == 0
                } else {
                    &&& point == -1
                    &&& final(self)@ == old(self)@
                }
            }),
    {
        proof {
            use_type_invariant(&*self);
        }
        let ghost blocks = self.data@;
        let mut point: i32 = 0;
        let mut index: usize = 0;
        while index < self.data.len() && !(self.data[index].0 == 0 && size <= self.data[index].1)
            invariant
                index <= self.data@.len(),
                self.data@ == blocks,
                well_formed(blocks),
                point == total(blocks.take(index as int)),
                first_fit_from(blocks, size, 0) == first_fit_from(blocks, size, index as int),
            decreases self.data@.len() - index,
        {
            proof {
                lemma_total_parts(blocks, index as int);
                lemma_total_parts(blocks, index + 1);
                assert(blocks.take(index + 1).drop_last() =~= blocks.take(index as int));
            }
            point = point + self.data[index].1;
            index = index + 1;
        }
        if index < self.data.len() {
            let target_free_size = self.data[index].1 - size;
            proof {
                lemma_total_parts(blocks, index as int);
                lemma_placed_memory(blocks, index as int, size, m_id);
                lemma_merge_keeps_memory(placed(blocks, index as int, size, m_id), 1);
            }
            let mut data: Vec<(i32, i32)> = Vec::new();
            std::mem::swap(&mut data, &mut self.data);
            data.remove(index);
            if target_free_size > 0 {
                data.insert(index, (0, target_free_size));
            }
            data.insert(index, (m_id, size));
            assert(data@ =~= placed(blocks, index as int, size, m_id));
            normalize_blocks(&mut data);
            self.data = data;
            point
        } else {
            -1
        }
    }

    /// Sets free every block of `m_id` and returns how many cells that
    /// were; then one joining pass is made over the blocks.
    pub fn free(&mut self, m_id: i32) -> (size: i32)
        ensures
            well_formed(final(self)@),
            size == held(old(self)@, m_id),
            final(self)@ == normalized(released(old(self)@, m_id)),
            final(self).memory() == cleared(old(self).memory(), m_id),
            final(self).memory().len() == old(self).memory().len(),
    {
        proof {
            use_type_invariant(&*self);
        }
        let ghost blocks = self.data@;
        let mut data: Vec<(i32, i32)> = Vec::new();
        std::mem::swap(&mut data, &mut self.data);
        let mut size: i32 = 0;
        let mut i: usize = 0;
        while i < data.len()
            invariant
                i <= data@.len(),
                data@.len() == blocks.len(),
                well_formed(blocks),
                size == held(blocks.take(i as int), m_id),
                forall|j: int| 0 <= j < i ==> data@[j] == released(blocks, m_id)[j],
                forall|j: int| i <= j < blocks.len() ==> data@[j] == blocks[j],
            decreases data@.len() - i,
        {
            proof {
                assert(blocks.take(i + 1).drop_last() =~= blocks.take(i as int));
                assert(forall|j: int| 0 <= j < i + 1 ==> blocks.take(i + 1)[j] == blocks[j]);
                lemma_total_parts(blocks, i + 1);
                lemma_total_parts(blocks.take(i + 1), 0);
                assert(held(blocks.take(i + 1), m_id) <= total(blocks.take(i + 1)));
            }
            if data[i].0 == m_id {
                size = size + data[i].1;
                data.set(i, (0, data[i].1));
            }
            i = i + 1;
        }
        proof {
            assert(blocks.take(blocks.len() as int) =~= blocks);
            assert(data@ =~= released(blocks, m_id));
            lemma_released_memory(blocks, m_id);
            lemma_merge_keeps_memory(released(blocks, m_id), 1);
        }
        normalize_blocks(&mut data);
        self.data = data;
        size
    }

    /// Makes one joining pass over the blocks: a block is joined to the one
    /// before it where both have the same owner. The memory stays as it is.
    pub fn normalize(&mut self)
        ensures
            final(self)@ == normalized(old(self)@),
            final(self).memory() == old(self).memory(),
            well_formed(final(self)@),
    {
        proof {
            use_type_invariant(&*self);
            lemma_merge_keeps_memory(self.data@, 1);
        }
        let mut data: Vec<(i32, i32)> = Vec::new();
        std::mem::swap(&mut data, &mut self.data);
        normalize_blocks(&mut data);
        self.data = data;
    }
}

fn normalize_blocks(data: &mut Vec<(i32, i32)>)
    requires
        well_formed(old(data)@),
    ensures
        final(data)@ == normalized(old(data)@),
{
    let mut i: usize = 1;
    while i < data.len()
        invariant
            1 <= i,
            well_formed(data@),
            merged_from(data@, i as int) == normalized(old(data)@),
        decreases data@.len() - i + 1,
    {
        if data[i - 1].0 == data[i].0 {
            proof {
                lemma_total_parts(data@, i as int);
                lemma_join_keeps_memory(data@, i as int);
            }
            let joined = (data[i].0, data[i].1 + data[i - 1].1);
            data.set(i, joined);
            data.remove(i - 1);
        }
        i = i + 1;
    }
}

proof fn lemma_placed_memory(blocks: Seq<Block>, index: int, size: i32, m_id: i32)
    requires
        well_formed(blocks),
        0 <= index < blocks.len(),
        blocks[index].0 == 0,
        0 <= size <= blocks[index].1,
    ensures
        well_formed(placed(blocks, index, size, m_id)),
        memory_of(placed(blocks, index, size, m_id)) == filled(
            memory_of(blocks),
            total(blocks.take(index)),
            size as int,
            m_id,
        ),
        total(blocks.take(index)) + size <= memory_of(blocks).len(),
        forall|c: int|
            total(blocks.take(index)) <= c < total(blocks.take(index)) + size ==> memory_of(
                blocks,
            )[c] == 0,
{
    let pre = blocks.take(index);
    let post = blocks.skip(index + 1);
    let rest = (blocks[index].1 - size) as i32;
    let after = placed(blocks, index, size, m_id);
    let middle = if rest > 0 {
        seq![(m_id, size), (0i32, rest)]
    } else {
        seq![(m_id, size)]
    };
    lemma_split_at(blocks, index);
    lemma_total_parts(blocks, index);
    lemma_total_parts(pre, 0);
    assert(forall|i: int| 0 <= i < pre.len() ==> pre[i] == blocks[i]);
    assert(after =~= pre + middle + post);
    lemma_total_concat(pre + middle, post);
    lemma_total_concat(pre, middle);
    lemma_memory_concat(pre + middle, post);
    lemma_memory_concat(pre, middle);
    lemma_one_block((m_id, size), 0);
    lemma_two_blocks((m_id, size), (0i32, rest), 0);
    assert(total(middle) == blocks[index].1);
    assert(memory_of(middle) =~= if rest > 0 {
        cells((m_id, size)) + cells((0i32, rest))
    } else {
        cells((m_id, size))
    });
    assert(memory_of(pre).len() == total(pre));
    assert(memory_of(after) =~= filled(memory_of(blocks), total(pre), size as int, m_id));
    assert forall|i: int| 0 <= i < after.len() implies (#[trigger] after[i]).1 >= 0 by {
        if i < index {
            assert(after[i] == blocks[i]);
        } else if i >= index + middle.len() {
            assert(after[i] == blocks[i - middle.len() + 1]);
        }
    }
}

proof fn lemma_released_memory(blocks: Seq<Block>, m_id: i32)
    requires
        well_formed(blocks),
    ensures
        well_formed(released(blocks, m_id)),
        total(released(blocks, m_id)) == total(blocks),
        memory_of(released(blocks, m_id)) == cleared(memory_of(blocks), m_id),
    decreases blocks.len(),
{
    let after = released(blocks, m_id);
    if blocks.len() == 0 {
        assert(memory_of(after) =~= cleared(memory_of(blocks), m_id));
    } else {
        let front = blocks.drop_last();
        lemma_total_parts(blocks, blocks.len() - 1);
        assert(blocks.take(blocks.len() - 1) =~= front);
        assert(forall|i: int| 0 <= i < front.len() ==> front[i] == blocks[i]);
        lemma_released_memory(front, m_id);
        assert(after.drop_last() =~= released(front, m_id));
        lemma_total_parts(front, 0);
        assert(memory_of(after) =~= cleared(memory_of(blocks), m_id));
    }
}

} // verus!
