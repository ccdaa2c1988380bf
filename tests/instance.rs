use wasm_instance::instance::Instance;
use wasm_instance::invoke::{classify_returns, InvokeError, NativeCall, ReturnShape};
use wasm_instance::memory::{LinearMemory, PAGE_SIZE};
use wasm_instance::module::{
    Compilation, DataInitializer, Export, ExportEntry, Memory, Module, Signature, Table,
    TableElements, ValueType,
};

fn empty_module() -> Module {
    Module {
        imported_funcs: 0,
        functions: Vec::new(),
        signatures: Vec::new(),
        tables: Vec::new(),
        memories: Vec::new(),
        globals: Vec::new(),
        exports: Vec::new(),
        table_elements: Vec::new(),
    }
}

fn no_code() -> Compilation {
    Compilation { functions: Vec::new() }
}

fn sig(results: Vec<ValueType>) -> Signature {
    Signature { params: Vec::new(), returns: results }
}

#[test]
fn zero_page_memory_gets_one_page_and_data() {
    let mut module = empty_module();
    module.memories.push(Memory { pages_count: 0, maximum: None });
    let data = vec![DataInitializer { memory_index: 0, base: None, offset: 0, data: vec![1, 2, 3, 4] }];
    let instance = Instance::new(&module, &no_code(), &data);
    assert_eq!(instance.inspect_memory(0, 0, 4), &[1u8, 2, 3, 4][..]);
    assert_eq!(instance.memories[0].current, 1);
    assert_eq!(instance.memories[0].current_size(), PAGE_SIZE);
    assert_eq!(PAGE_SIZE, 65536);
}

#[test]
fn memory_size_follows_declared_pages() {
    let mut module = empty_module();
    module.memories.push(Memory { pages_count: 2, maximum: Some(5) });
    module.memories.push(Memory { pages_count: 1, maximum: None });
    let instance = Instance::new(&module, &no_code(), &Vec::new());
    assert_eq!(instance.memories.len(), 2);
    assert_eq!(instance.memories[0].current_size(), 2 * 65536);
    assert_eq!(instance.memories[0].maximum, Some(5));
    assert_eq!(instance.memories[1].current_size(), 65536);
    assert!(instance.inspect_memory(0, 0, 2 * 65536).iter().all(|b| *b == 0));
}

#[test]
fn data_initializer_round_trips_at_offset() {
    let mut module = empty_module();
    module.memories.push(Memory { pages_count: 1, maximum: None });
    module.memories.push(Memory { pages_count: 1, maximum: None });
    let data = vec![
        DataInitializer { memory_index: 1, base: None, offset: 100, data: vec![9, 8, 7] },
        DataInitializer { memory_index: 0, base: None, offset: 65533, data: vec![5, 6, 7] },
    ];
    let instance = Instance::new(&module, &no_code(), &data);
    assert_eq!(instance.inspect_memory(1, 100, 3), &[9u8, 8, 7][..]);
    assert_eq!(instance.inspect_memory(1, 99, 5), &[0u8, 9, 8, 7, 0][..]);
    assert_eq!(instance.inspect_memory(0, 65533, 3), &[5u8, 6, 7][..]);
    assert_eq!(instance.inspect_memory(0, 100, 3), &[0u8, 0, 0][..]);
}

#[test]
fn later_data_initializer_overwrites_earlier() {
    let mut module = empty_module();
    module.memories.push(Memory { pages_count: 1, maximum: None });
    let data = vec![
        DataInitializer { memory_index: 0, base: None, offset: 0, data: vec![1, 1, 1, 1] },
        DataInitializer { memory_index: 0, base: None, offset: 2, data: vec![2, 2] },
    ];
    let instance = Instance::new(&module, &no_code(), &data);
    assert_eq!(instance.inspect_memory(0, 0, 5), &[1u8, 1, 2, 2, 0][..]);
}

#[test]
fn table_initializer_writes_entry_addresses() {
    let mut module = empty_module();
    module.imported_funcs = 1;
    module.tables.push(Table { size: 4 });
    module.table_elements.push(TableElements { table_index: 0, base: None, offset: 1, elements: vec![1, 2] });
    let compilation = Compilation { functions: vec![0x1000, 0x2000] };
    let instance = Instance::new(&module, &compilation, &Vec::new());
    assert_eq!(instance.tables, vec![vec![0usize, 0x1000, 0x2000, 0]]);
}

#[test]
fn untargeted_tables_are_zero() {
    let mut module = empty_module();
    module.tables.push(Table { size: 3 });
    module.tables.push(Table { size: 2 });
    module.tables.push(Table { size: 0 });
    module.table_elements.push(TableElements { table_index: 1, base: None, offset: 0, elements: vec![0] });
    let compilation = Compilation { functions: vec![77] };
    let instance = Instance::new(&module, &compilation, &Vec::new());
    assert_eq!(instance.tables[0], vec![0usize, 0, 0]);
    assert_eq!(instance.tables[1], vec![77usize, 0]);
    assert!(instance.tables[2].is_empty());
}

#[test]
fn globals_are_eight_zero_bytes_each() {
    let mut module = empty_module();
    module.globals = vec![ValueType::I32, ValueType::F64, ValueType::I64];
    let instance = Instance::new(&module, &no_code(), &Vec::new());
    assert_eq!(instance.globals.len(), 24);
    assert!(instance.globals.iter().all(|b| *b == 0));
}

#[test]
fn inspect_global_reads_type_width_from_slot() {
    let mut module = empty_module();
    module.globals = vec![ValueType::I32, ValueType::I64];
    let mut instance = Instance::new(&module, &no_code(), &Vec::new());
    for (i, b) in instance.globals.iter_mut().enumerate() {
        *b = i as u8;
    }
    assert_eq!(instance.inspect_global(1, ValueType::I32), &[8u8, 9, 10, 11][..]);
    assert_eq!(instance.inspect_global(1, ValueType::F64), &[8u8, 9, 10, 11, 12, 13, 14, 15][..]);
    assert_eq!(instance.inspect_global(0, ValueType::F32).len(), 4);
    assert_eq!(instance.inspect_global(0, ValueType::Other { bytes: 1 }), &[0u8][..]);
}

#[test]
fn memory_mut_changes_the_instance() {
    let mut module = empty_module();
    module.memories.push(Memory { pages_count: 1, maximum: None });
    let mut instance = Instance::new(&module, &no_code(), &Vec::new());
    instance.memory_mut(0).write(10, &vec![42, 43]);
    assert_eq!(instance.inspect_memory(0, 9, 4), &[0u8, 42, 43, 0][..]);
}

#[test]
fn linear_memory_new_and_write() {
    let mut memory = LinearMemory::new(1, Some(3));
    assert_eq!(memory.current_size(), 65536);
    assert_eq!(memory.maximum, Some(3));
    memory.write(65534, &vec![1, 2]);
    assert_eq!(&memory.as_slice()[65532..], &[0u8, 0, 1, 2][..]);
}

#[test]
fn value_type_widths() {
    assert_eq!(ValueType::I32.byte_width(), 4);
    assert_eq!(ValueType::I64.byte_width(), 8);
    assert_eq!(ValueType::F32.byte_width(), 4);
    assert_eq!(ValueType::F64.byte_width(), 8);
    assert_eq!(ValueType::Other { bytes: 16 }.byte_width(), 16);
}

#[test]
fn defined_func_index_skips_imports() {
    let mut module = empty_module();
    module.imported_funcs = 2;
    assert_eq!(module.defined_func_index(0), None);
    assert_eq!(module.defined_func_index(1), None);
    assert_eq!(module.defined_func_index(2), Some(0));
    assert_eq!(module.defined_func_index(5), Some(3));
}

fn callable_module() -> (Module, Compilation) {
    let mut module = empty_module();
    module.imported_funcs = 1;
    module.signatures = vec![
        sig(vec![ValueType::I32]),
        sig(vec![]),
        sig(vec![ValueType::I32, ValueType::I64]),
        sig(vec![ValueType::Other { bytes: 16 }]),
        sig(vec![ValueType::F64]),
    ];
    module.functions = vec![0, 0, 1, 2, 3, 4];
    let names = ["main", "nothing", "pair", "vector", "real"];
    for (i, name) in names.iter().enumerate() {
        module.exports.push(ExportEntry { name: name.to_string(), export: Export::Function(i + 1) });
    }
    module.exports.push(ExportEntry { name: "memory".to_string(), export: Export::Memory(0) });
    let compilation = Compilation { functions: vec![0x100, 0x200, 0x300, 0x400, 0x500] };
    (module, compilation)
}

#[test]
fn main_with_i32_result_is_called_as_i32() {
    let (module, compilation) = callable_module();
    assert_eq!(
        module.plan_call(&compilation, "main"),
        Ok(NativeCall { entry: 0x100, shape: ReturnShape::I32 })
    );
    assert_eq!(
        module.plan_call(&compilation, "real"),
        Ok(NativeCall { entry: 0x500, shape: ReturnShape::F64 })
    );
}

#[test]
fn no_result_is_void() {
    let (module, compilation) = callable_module();
    assert_eq!(
        module.plan_call(&compilation, "nothing"),
        Ok(NativeCall { entry: 0x200, shape: ReturnShape::Void })
    );
}

#[test]
fn two_results_are_an_error() {
    let (module, compilation) = callable_module();
    let r = module.plan_call(&compilation, "pair");
    assert_eq!(r, Err(InvokeError::MultipleReturns { count: 2 }));
    assert!(!r.unwrap_err().message().is_empty());
}

#[test]
fn non_numeric_result_is_an_error() {
    let (module, compilation) = callable_module();
    assert_eq!(
        module.plan_call(&compilation, "vector"),
        Err(InvokeError::UnsupportedReturnType { ty: ValueType::Other { bytes: 16 } })
    );
}

#[test]
fn find_export_by_name() {
    let (module, _) = callable_module();
    assert_eq!(module.find_export("main"), Some(Export::Function(1)));
    assert_eq!(module.find_export("memory"), Some(Export::Memory(0)));
    assert_eq!(module.find_export("mai"), None);
    assert_eq!(module.find_export("main2"), None);
    assert_eq!(module.find_export(""), None);
}

#[test]
fn classify_each_result_kind() {
    assert_eq!(classify_returns(&sig(vec![])), Ok(ReturnShape::Void));
    assert_eq!(classify_returns(&sig(vec![ValueType::I32])), Ok(ReturnShape::I32));
    assert_eq!(classify_returns(&sig(vec![ValueType::I64])), Ok(ReturnShape::I64));
    assert_eq!(classify_returns(&sig(vec![ValueType::F32])), Ok(ReturnShape::F32));
    assert_eq!(classify_returns(&sig(vec![ValueType::F64])), Ok(ReturnShape::F64));
    assert_eq!(
        classify_returns(&sig(vec![ValueType::I32, ValueType::I32, ValueType::I32])),
        Err(InvokeError::MultipleReturns { count: 3 })
    );
}
