//! An `Instance` holds the runtime state of one instantiated module: its
//! tables, linear memories and global storage.
use vstd::prelude::*;
use vstd::slice::slice_subrange;

use crate::memory::{page_bytes, LinearMemory};
use crate::module::{Compilation, DataInitializer, Memory, Module, TableElements, ValueType};

verus! {

/// Pages a declared memory gets: its declared count, but at least one.
pub open spec fn effective_pages(m: Memory) -> nat {
    if m.pages_count > 0 {
        m.pages_count as nat
    } else {
        1
    }
}

/// `s` with `part` written over it from `offset` on.
pub open spec fn splice<T>(s: Seq<T>, offset: int, part: Seq<T>) -> Seq<T> {
    s.take(offset) + part + s.skip(offset + part.len())
}

/// Entry addresses of the functions an initializer lists, in order.
pub open spec fn element_addrs(module: &Module, compilation: &Compilation, init: TableElements) -> Seq<usize> {
    init.elements@.map_values(|f: usize| compilation.functions@[f - module.imported_funcs])
}

/// A table initializer that instantiation can apply.
pub open spec fn table_init_valid(module: &Module, compilation: &Compilation, init: TableElements) -> bool {
    &&& init.base is None
    &&& init.table_index < module.tables@.len()
    &&& init.offset + init.elements@.len() <= module.tables@[init.table_index as int].size
    &&& forall|k: int|
        0 <= k < init.elements@.len() ==> module.imported_funcs <= #[trigger] init.elements@[k]
            && init.elements@[k] - module.imported_funcs < compilation.functions@.len()
}

/// A data initializer that instantiation can apply.
pub open spec fn data_init_valid(module: &Module, init: DataInitializer) -> bool {
    &&& init.base is None
    &&& init.memory_index < module.memories@.len()
    &&& init.offset + init.data@.len() <= page_bytes(
        effective_pages(module.memories@[init.memory_index as int]),
    )
}

/// Every memory's initial size is addressable.
pub open spec fn memories_fit(module: &Module) -> bool {
    forall|m: int|
        0 <= m < module.memories@.len() ==> page_bytes(effective_pages(#[trigger] module.memories@[m]))
            <= usize::MAX
}

/// Every table initializer in `inits` can be applied.
pub open spec fn table_inits_valid(module: &Module, compilation: &Compilation, inits: Seq<TableElements>) -> bool {
    forall|k: int| 0 <= k < inits.len() ==> table_init_valid(module, compilation, #[trigger] inits[k])
}

/// Every data initializer in `inits` can be applied.
pub open spec fn data_inits_valid(module: &Module, inits: Seq<DataInitializer>) -> bool {
    forall|k: int| 0 <= k < inits.len() ==> data_init_valid(module, #[trigger] inits[k])
}

/// The conditions under which a module can be instantiated.
pub open spec fn can_instantiate(
    module: &Module,
    compilation: &Compilation,
    data_initializers: Seq<DataInitializer>,
) -> bool {
    &&& memories_fit(module)
    &&& module.globals@.len() * 8 <= usize::MAX
    &&& table_inits_valid(module, compilation, module.table_elements@)
    &&& data_inits_valid(module, data_initializers)
}

/// Every declared table, all slots zero.
pub open spec fn zero_tables(module: &Module) -> Seq<Seq<usize>> {
    Seq::new(module.tables@.len(), |t: int| Seq::new(module.tables@[t].size as nat, |j: int| 0usize))
}

/// The tables after applying `inits` in order to the zeroed tables.
pub open spec fn apply_table_inits(
    module: &Module,
    compilation: &Compilation,
    inits: Seq<TableElements>,
) -> Seq<Seq<usize>>
    decreases inits.len(),
{
    if inits.len() == 0 {
        zero_tables(module)
    } else {
        let prev = apply_table_inits(module, compilation, inits.drop_last());
        let init = inits.last();
        prev.update(
            init.table_index as int,
            splice(prev[init.table_index as int], init.offset as int, element_addrs(module, compilation, init)),
        )
    }
}

/// Every declared memory at its initial size, all bytes zero.
pub open spec fn zero_memories(module: &Module) -> Seq<Seq<u8>> {
    Seq::new(
        module.memories@.len(),
        |m: int| Seq::new(page_bytes(effective_pages(module.memories@[m])), |j: int| 0u8),
    )
}

/// The memories after applying `inits` in order to the zeroed memories.
pub open spec fn apply_data_inits(module: &Module, inits: Seq<DataInitializer>) -> Seq<Seq<u8>>
    decreases inits.len(),
{
    if inits.len() == 0 {
        zero_memories(module)
    } else {
        let prev = apply_data_inits(module, inits.drop_last());
        let init = inits.last();
        prev.update(init.memory_index as int, splice(prev[init.memory_index as int], init.offset as int, init.data@))
    }
}

/// Applying table initializers keeps the number of tables and every table's size.
pub proof fn lemma_table_shape(module: &Module, compilation: &Compilation, inits: Seq<TableElements>)
    requires
        table_inits_valid(module, compilation, inits),
    ensures
        apply_table_inits(module, compilation, inits).len() == module.tables@.len(),
        forall|t: int|
            0 <= t < module.tables@.len() ==> (#[trigger] apply_table_inits(module, compilation, inits)[t]).len()
                == module.tables@[t].size,
    decreases inits.len(),
{
    if inits.len() > 0 {
        let rest = inits.drop_last();
        assert forall|k: int| 0 <= k < rest.len() implies table_init_valid(module, compilation, #[trigger] rest[k]) by {
            assert(rest[k] == inits[k]);
        }
        lemma_table_shape(module, compilation, rest);
        assert(table_init_valid(module, compilation, inits[inits.len() - 1]));
    }
}

/// A table that no initializer targets holds only zeros.
pub proof fn lemma_untargeted_table_is_zero(
    module: &Module,
    compilation: &Compilation,
    inits: Seq<TableElements>,
    t: int,
)
    requires
        0 <= t < module.tables@.len(),
        table_inits_valid(module, compilation, inits),
        forall|k: int| 0 <= k < inits.len() ==> (#[trigger] inits[k]).table_index != t,
    ensures
        apply_table_inits(module, compilation, inits)[t] == Seq::new(module.tables@[t].size as nat, |j: int| 0usize),
    decreases inits.len(),
{
    if inits.len() > 0 {
        let rest = inits.drop_last();
        assert forall|k: int| 0 <= k < rest.len() implies table_init_valid(module, compilation, #[trigger] rest[k]) by {
            assert(rest[k] == inits[k]);
        }
        assert forall|k: int| 0 <= k < rest.len() implies (#[trigger] rest[k]).table_index != t by {
            assert(rest[k] == inits[k]);
        }
        lemma_untargeted_table_is_zero(module, compilation, rest, t);
        lemma_table_shape(module, compilation, rest);
        assert(inits.last().table_index != t);
    }
}

/// Applying a table initializer after `inits` writes the entry addresses of
/// its functions, in order, from its offset on, and leaves every other slot
/// of every table as it was.
pub proof fn lemma_table_init_writes(
    module: &Module,
    compilation: &Compilation,
    inits: Seq<TableElements>,
    init: TableElements,
)
    requires
        table_inits_valid(module, compilation, inits),
        table_init_valid(module, compilation, init),
    ensures
        ({
            let before = apply_table_inits(module, compilation, inits);
            let after = apply_table_inits(module, compilation, inits.push(init));
            let t = init.table_index as int;
            let o = init.offset as int;
            &&& after.len() == before.len()
            &&& after[t].len() == before[t].len()
            &&& forall|j: int|
                o <= j < o + init.elements@.len() ==> #[trigger] after[t][j]
                    == compilation.functions@[init.elements@[j - o] - module.imported_funcs]
            &&& forall|j: int|
                0 <= j < before[t].len() && !(o <= j < o + init.elements@.len()) ==> #[trigger] after[t][j]
                    == before[t][j]
            &&& forall|u: int| 0 <= u < before.len() && u != t ==> #[trigger] after[u] == before[u]
        }),
{
    lemma_table_shape(module, compilation, inits);
    let all = inits.push(init);
    assert(all.drop_last() =~= inits);
    let before = apply_table_inits(module, compilation, inits);
    let t = init.table_index as int;
    let o = init.offset as int;
    let addrs = element_addrs(module, compilation, init);
    let row = splice(before[t], o, addrs);
    assert forall|j: int| o <= j < o + init.elements@.len() implies #[trigger] row[j]
        == compilation.functions@[init.elements@[j - o] - module.imported_funcs] by {
        assert(row[j] == addrs[j - o]);
    }
}

/// Applying data initializers keeps the number of memories and every
/// memory's size.
pub proof fn lemma_memory_shape(module: &Module, inits: Seq<DataInitializer>)
    requires
        data_inits_valid(module, inits),
    ensures
        apply_data_inits(module, inits).len() == module.memories@.len(),
        forall|m: int|
            0 <= m < module.memories@.len() ==> (#[trigger] apply_data_inits(module, inits)[m]).len()
                == page_bytes(effective_pages(module.memories@[m])),
    decreases inits.len(),
{
    if inits.len() > 0 {
        let rest = inits.drop_last();
        assert forall|k: int| 0 <= k < rest.len() implies data_init_valid(module, #[trigger] rest[k]) by {
            assert(rest[k] == inits[k]);
        }
        lemma_memory_shape(module, rest);
        assert(data_init_valid(module, inits[inits.len() - 1]));
    }
}

/// The bytes of data initializer `i` can be read back from its memory at its
/// offset, unless a later initializer wrote over part of them.
pub proof fn lemma_data_round_trip(module: &Module, inits: Seq<DataInitializer>, i: int)
    requires
        data_inits_valid(module, inits),
        0 <= i < inits.len(),
        forall|k: int|
            i < k < inits.len() ==> (#[trigger] inits[k]).memory_index != inits[i].memory_index
                || inits[k].offset + inits[k].data@.len() <= inits[i].offset
                || inits[i].offset + inits[i].data@.len() <= inits[k].offset,
    ensures
        apply_data_inits(module, inits)[inits[i].memory_index as int].subrange(
            inits[i].offset as int,
            inits[i].offset + inits[i].data@.len(),
        ) == inits[i].data@,
    decreases inits.len(),
{
    let rest = inits.drop_last();
    assert forall|k: int| 0 <= k < rest.len() implies data_init_valid(module, #[trigger] rest[k]) by {
        assert(rest[k] == inits[k]);
    }
    assert(data_init_valid(module, inits[i]));
    assert(data_init_valid(module, inits.last()));
    lemma_memory_shape(module, rest);
    let before = apply_data_inits(module, rest);
    let last = inits.last();
    let m = inits[i].memory_index as int;
    let o = inits[i].offset as int;
    let n = inits[i].data@.len();
    if i == inits.len() - 1 {
        assert(splice(before[m], o, last.data@).subrange(o, o + n) =~= last.data@);
    } else {
        assert forall|k: int|
            i < k < rest.len() implies (#[trigger] rest[k]).memory_index != rest[i].memory_index
                || rest[k].offset + rest[k].data@.len() <= rest[i].offset
                || rest[i].offset + rest[i].data@.len() <= rest[k].offset by {
            assert(rest[k] == inits[k]);
        }
        lemma_data_round_trip(module, rest, i);
        assert(rest[i] == inits[i]);
        let lm = last.memory_index as int;
        if lm == m {
            let lo = last.offset as int;
            let row = splice(before[m], lo, last.data@);
            assert(row.subrange(o, o + n) =~= before[m].subrange(o, o + n));
        }
    }
}

/// An Instance of a WebAssembly module.
pub struct Instance {
    /// WebAssembly table data: one entry address (or zero) per slot.
    pub tables: Vec<Vec<usize>>,
    /// WebAssembly linear memory data.
    pub memories: Vec<LinearMemory>,
    /// WebAssembly global variable data, eight bytes per global.
    pub globals: Vec<u8>,
}

impl Instance {
    /// Contents of every table.
    pub open spec fn table_view(&self) -> Seq<Seq<usize>> {
        Seq::new(self.tables@.len(), |t: int| self.tables@[t]@)
    }

    /// Contents of every memory.
    pub open spec fn memory_view(&self) -> Seq<Seq<u8>> {
        Seq::new(self.memories@.len(), |m: int| self.memories@[m].bytes())
    }

    /// Every memory holds whole pages.
    pub open spec fn wf(&self) -> bool {
        forall|m: int| 0 <= m < self.memories@.len() ==> (#[trigger] self.memories@[m]).wf()
    }

    /// Allocate the module's tables, zero-filled, then apply `table_initializers`
    /// in order.
    fn instantiate_tables(
        &mut self,
        module: &Module,
        compilation: &Compilation,
        table_initializers: &Vec<TableElements>,
    )
        requires
            old(self).tables@.len() == 0,
            table_inits_valid(module, compilation, table_initializers@),
        ensures
            final(self).table_view() == apply_table_inits(module, compilation, table_initializers@),
            final(self).memories == old(self).memories,
            final(self).globals == old(self).globals,
    {
        let mut t: usize = 0;
        while t < module.tables.len()
            invariant
                t <= module.tables@.len(),
                self.memories == old(self).memories,
                self.globals == old(self).globals,
                self.tables@.len() == t,
                self.table_view() == zero_tables(module).take(t as int),
            decreases module.tables@.len() - t,
        {
            let len: usize = module.tables[t].size;
            let mut v: Vec<usize> = Vec::with_capacity(len);
            let mut j: usize = 0;
            while j < len
                invariant
                    j <= len,
                    v@ == Seq::new(j as nat, |i: int| 0usize),
                decreases len - j,
            {
                v.push(0usize);
                j = j + 1;
                assert(v@ =~= Seq::new(j as nat, |i: int| 0usize));
            }
            let ghost before = self.tables@;
            self.tables.push(v);
            assert(self.tables@ == before.push(v));
            assert(forall|u: int| 0 <= u < t ==> #[trigger] self.tables@[u] == before[u]);
            t = t + 1;
            assert(self.table_view() =~= zero_tables(module).take(t as int));
        }
        assert(zero_tables(module).take(t as int) =~= zero_tables(module));
        assert forall|u: int| 0 <= u < module.tables@.len() implies #[trigger] self.tables@[u]@.len()
            == module.tables@[u].size by {
            assert(self.table_view()[u] == self.tables@[u]@);
        }
        assert(table_initializers@.take(0) =~= Seq::<TableElements>::empty());
        let mut k: usize = 0;
        while k < table_initializers.len()
            invariant
                k <= table_initializers@.len(),
                table_inits_valid(module, compilation, table_initializers@),
                self.memories == old(self).memories,
                self.globals == old(self).globals,
                self.table_view() == apply_table_inits(module, compilation, table_initializers@.take(k as int)),
                self.table_view().len() == module.tables@.len(),
                forall|u: int| 0 <= u < module.tables@.len() ==> #[trigger] self.tables@[u]@.len() == module.tables@[u].size,
            decreases table_initializers@.len() - k,
        {
            let init = &table_initializers[k];
            assert(table_init_valid(module, compilation, table_initializers@[k as int]));
            let ghost prev = self.table_view();
            let ti: usize = init.table_index;
            let mut i: usize = 0;
            while i < init.elements.len()
                invariant
                    table_init_valid(module, compilation, *init),
                    ti == init.table_index,
                    i <= init.elements@.len(),
                    prev.len() == module.tables@.len(),
                    self.memories == old(self).memories,
                    self.globals == old(self).globals,
                    self.tables@.len() == prev.len(),
                    forall|u: int| 0 <= u < prev.len() && u != ti ==> #[trigger] self.tables@[u]@ == prev[u],
                    forall|u: int| 0 <= u < module.tables@.len() ==> #[trigger] self.tables@[u]@.len() == module.tables@[u].size,
                    prev[ti as int].len() == module.tables@[ti as int].size,
                    forall|j: int|
                        0 <= j < prev[ti as int].len() ==> #[trigger] self.tables@[ti as int]@[j] == if init.offset <= j < init.offset + i {
                            element_addrs(module, compilation, *init)[j - init.offset]
                        } else {
                            prev[ti as int][j]
                        },
                decreases init.elements@.len() - i,
            {
                let f: usize = init.elements[i];
                let local: usize = f - module.imported_funcs;
                let addr: usize = compilation.functions[local];
                self.tables[ti].set(init.offset + i, addr);
                i = i + 1;
            }
            proof {
                let addrs = element_addrs(module, compilation, *init);
                assert(table_initializers@.take(k + 1).drop_last() =~= table_initializers@.take(k as int));
                assert(table_initializers@.take(k + 1).last() == *init);
                assert(self.tables@[ti as int]@ =~= splice(prev[ti as int], init.offset as int, addrs));
                assert(self.table_view() =~= prev.update(ti as int, splice(prev[ti as int], init.offset as int, addrs)));
            }
            k = k + 1;
        }
        assert(table_initializers@.take(k as int) =~= table_initializers@);
    }

    /// Allocate the module's memories, each at least one page, then copy
    /// `data_initializers` into them in order.
    fn instantiate_memories(&mut self, module: &Module, data_initializers: &Vec<DataInitializer>)
        requires
            old(self).memories@.len() == 0,
            memories_fit(module),
            data_inits_valid(module, data_initializers@),
        ensures
            final(self).wf(),
            final(self).memories@.len() == module.memories@.len(),
            forall|m: int|
                0 <= m < module.memories@.len() ==> (#[trigger] final(self).memories@[m]).current
                    == effective_pages(module.memories@[m]) && final(self).memories@[m].maximum
                    == module.memories@[m].maximum,
            final(self).memory_view() == apply_data_inits(module, data_initializers@),
            final(self).tables == old(self).tables,
            final(self).globals == old(self).globals,
    {
        let mut n: usize = 0;
        while n < module.memories.len()
            invariant
                n <= module.memories@.len(),
                memories_fit(module),
                self.tables == old(self).tables,
                self.globals == old(self).globals,
                self.memories@.len() == n,
                self.wf(),
                forall|m: int|
                    0 <= m < n ==> (#[trigger] self.memories@[m]).current == effective_pages(module.memories@[m])
                        && self.memories@[m].maximum == module.memories@[m].maximum,
                self.memory_view() == zero_memories(module).take(n as int),
            decreases module.memories@.len() - n,
        {
            let memory = module.memories[n];
            // Every memory gets at least one page of backing storage.
            let pages_count: u32 = if memory.pages_count > 0 {
                memory.pages_count
            } else {
                1
            };
            assert(page_bytes(effective_pages(module.memories@[n as int])) <= usize::MAX);
            let v = LinearMemory::new(pages_count, memory.maximum);
            let ghost before = self.memories@;
            self.memories.push(v);
            assert(self.memories@ == before.push(v));
            assert(forall|u: int| 0 <= u < n ==> #[trigger] self.memories@[u] == before[u]);
            n = n + 1;
            assert(self.memory_view() =~= zero_memories(module).take(n as int));
        }
        assert(zero_memories(module).take(n as int) =~= zero_memories(module));
        assert(data_initializers@.take(0) =~= Seq::<DataInitializer>::empty());
        let mut k: usize = 0;
        while k < data_initializers.len()
            invariant
                k <= data_initializers@.len(),
                data_inits_valid(module, data_initializers@),
                self.tables == old(self).tables,
                self.globals == old(self).globals,
                self.memories@.len() == module.memories@.len(),
                self.wf(),
                forall|m: int|
                    0 <= m < module.memories@.len() ==> (#[trigger] self.memories@[m]).current
                        == effective_pages(module.memories@[m]) && self.memories@[m].maximum
                        == module.memories@[m].maximum,
                self.memory_view() == apply_data_inits(module, data_initializers@.take(k as int)),
            decreases data_initializers@.len() - k,
        {
            let init = &data_initializers[k];
            assert(data_init_valid(module, data_initializers@[k as int]));
            let ghost prev = self.memories@;
            let mi: usize = init.memory_index;
            assert(self.memories@[mi as int].wf());
            self.memories[mi].write(init.offset, &init.data);
            proof {
                assert(data_initializers@.take(k + 1).drop_last() =~= data_initializers@.take(k as int));
                assert(data_initializers@.take(k + 1).last() == *init);
                assert(forall|u: int| 0 <= u < prev.len() && u != mi ==> #[trigger] self.memories@[u] == prev[u]);
                assert(self.memory_view()[mi as int] == self.memories@[mi as int].bytes());
                assert(self.memory_view() =~= apply_data_inits(module, data_initializers@.take(k + 1)));
            }
            k = k + 1;
        }
        assert(data_initializers@.take(k as int) =~= data_initializers@);
    }

    /// Allocate eight zero bytes for each of the module's globals.
    fn instantiate_globals(&mut self, module: &Module)
        requires
            old(self).globals@.len() == 0,
            module.globals@.len() * 8 <= usize::MAX,
        ensures
            final(self).globals@ == Seq::new(module.globals@.len() * 8, |i: int| 0u8),
            final(self).tables == old(self).tables,
            final(self).memories == old(self).memories,
    {
        let size: usize = module.globals.len() * 8;
        let mut i: usize = 0;
        while i < size
            invariant
                i <= size,
                size == module.globals@.len() * 8,
                self.tables == old(self).tables,
                self.memories == old(self).memories,
                self.globals@ == Seq::new(i as nat, |j: int| 0u8),
            decreases size - i,
        {
            self.globals.push(0u8);
            i = i + 1;
            assert(self.globals@ =~= Seq::new(i as nat, |j: int| 0u8));
        }
    }

    /// Create a new `Instance`: allocate and initialize the module's tables,
    /// memories and globals.
    pub fn new(module: &Module, compilation: &Compilation, data_initializers: &Vec<DataInitializer>) -> (r: Self)
        requires
            can_instantiate(module, compilation, data_initializers@),
        ensures
            r.wf(),
            r.table_view() == apply_table_inits(module, compilation, module.table_elements@),
            r.memories@.len() == module.memories@.len(),
            forall|m: int|
                0 <= m < module.memories@.len() ==> (#[trigger] r.memories@[m]).current == effective_pages(
                    module.memories@[m],
                ) && r.memories@[m].maximum == module.memories@[m].maximum,
            forall|m: int|
                0 <= m < module.memories@.len() ==> (#[trigger] r.memories@[m]).bytes().len() == page_bytes(
                    effective_pages(module.memories@[m]),
                ),
            r.memory_view() == apply_data_inits(module, data_initializers@),
            r.globals@ == Seq::new(module.globals@.len() * 8, |i: int| 0u8),
    {
        let mut result = Instance { tables: Vec::new(), memories: Vec::new(), globals: Vec::new() };
        result.instantiate_tables(module, compilation, &module.table_elements);
        result.instantiate_memories(module, data_initializers);
        result.instantiate_globals(module);
        result
    }

    /// Returns a mutable reference to the linear memory at `memory_index`.
    pub fn memory_mut(&mut self, memory_index: usize) -> (r: &mut LinearMemory)
        requires
            memory_index < old(self).memories@.len(),
        ensures
            *r == old(self).memories@[memory_index as int],
            final(self).memories@ == old(self).memories@.update(memory_index as int, *final(r)),
            final(self).tables == old(self).tables,
            final(self).globals == old(self).globals,
    {
        &mut self.memories[memory_index]
    }

    /// Returns `len` bytes of memory `memory_index` starting at `address`.
    pub fn inspect_memory(&self, memory_index: usize, address: usize, len: usize) -> (r: &[u8])
        requires
            memory_index < self.memories@.len(),
            address + len <= self.memories@[memory_index as int].bytes().len(),
        ensures
            r@ == self.memories@[memory_index as int].bytes().subrange(address as int, address + len),
    {
        let bytes = self.memories[memory_index].as_slice();
        assert(bytes@.len() == bytes.len());
        slice_subrange(bytes, address, address + len)
    }

    /// Shows the value of a global variable: as many bytes as `ty` is wide,
    /// from the global's eight-byte slot.
    pub fn inspect_global(&self, global_index: usize, ty: ValueType) -> (r: &[u8])
        requires
            global_index * 8 + ty.width() <= self.globals@.len(),
        ensures
            r@ == self.globals@.subrange(global_index * 8, global_index * 8 + ty.width()),
    {
        let bytes = self.globals.as_slice();
        assert(bytes@.len() == bytes.len());
        let offset: usize = global_index * 8;
        let len: usize = ty.byte_width() as usize;
        slice_subrange(bytes, offset, offset + len)
    }
}

} // verus!
