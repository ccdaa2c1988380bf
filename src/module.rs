//! Description of a translated module, as read by instantiation and
//! invocation.
use vstd::prelude::*;

verus! {

/// A value type of the translated code.
#[derive(Clone, Copy, Debug, PartialEq, Eq, Structural)]
pub enum ValueType {
    I32,
    I64,
    F32,
    F64,
    /// Any other type (booleans, vectors, references), with its width in bytes.
    Other { bytes: u32 },
}

impl ValueType {
    /// Width in bytes of a value of this type.
    pub open spec fn width(self) -> nat {
        match self {
            ValueType::I32 => 4,
            ValueType::I64 => 8,
            ValueType::F32 => 4,
            ValueType::F64 => 8,
            ValueType::Other { bytes } => bytes as nat,
        }
    }

    /// Width in bytes of a value of this type.
    pub fn byte_width(&self) -> (r: u32)
        ensures
            r == self.width(),
    {
        match self {
            ValueType::I32 => 4,
            ValueType::I64 => 8,
            ValueType::F32 => 4,
            ValueType::F64 => 8,
            ValueType::Other { bytes } => *bytes,
        }
    }
}

/// Parameter and return types of a function.
pub struct Signature {
    pub params: Vec<ValueType>,
    pub returns: Vec<ValueType>,
}

/// A declared table: its number of slots.
#[derive(Clone, Copy, Debug, PartialEq, Eq, Structural)]
pub struct Table {
    pub size: usize,
}

/// A declared linear memory: initial and optional maximum page counts.
#[derive(Clone, Copy, Debug, PartialEq, Eq, Structural)]
pub struct Memory {
    pub pages_count: u32,
    pub maximum: Option<u32>,
}

/// What an export names, with its index in the module's index space.
#[derive(Clone, Copy, Debug, PartialEq, Eq, Structural)]
pub enum Export {
    Function(usize),
    Table(usize),
    Memory(usize),
    Global(usize),
}

/// One entry of the export table.
pub struct ExportEntry {
    pub name: String,
    pub export: Export,
}

/// Function indices written into a table at instantiation.
pub struct TableElements {
    pub table_index: usize,
    /// A global whose value the offset is relative to; not supported.
    pub base: Option<usize>,
    pub offset: usize,
    pub elements: Vec<usize>,
}

/// Bytes copied into a linear memory at instantiation.
pub struct DataInitializer {
    pub memory_index: usize,
    /// A global whose value the offset is relative to; not supported.
    pub base: Option<usize>,
    pub offset: usize,
    pub data: Vec<u8>,
}

/// The native entry address of each locally defined function, in order.
pub struct Compilation {
    pub functions: Vec<usize>,
}

/// A translated module.
pub struct Module {
    /// Number of imported functions; they take the lowest function indices.
    pub imported_funcs: usize,
    /// Signature index of every function, imported ones first.
    pub functions: Vec<usize>,
    pub signatures: Vec<Signature>,
    pub tables: Vec<Table>,
    pub memories: Vec<Memory>,
    pub globals: Vec<ValueType>,
    pub exports: Vec<ExportEntry>,
    pub table_elements: Vec<TableElements>,
}

impl Module {
    /// The local index of function `index`, or none for an imported one.
    pub open spec fn spec_defined_func_index(&self, index: usize) -> Option<usize> {
        if index < self.imported_funcs {
            None
        } else {
            Some((index - self.imported_funcs) as usize)
        }
    }

    /// The local index of function `index`, or `None` when it is imported.
    pub fn defined_func_index(&self, index: usize) -> (r: Option<usize>)
        ensures
            r == self.spec_defined_func_index(index),
    {
        if index < self.imported_funcs {
            None
        } else {
            Some(index - self.imported_funcs)
        }
    }

    /// The export named `name`: the first entry of the export table with it.
    pub open spec fn export_of(&self, name: Seq<char>) -> Option<Export> {
        if exists|i: int| 0 <= i < self.exports@.len() && #[trigger] self.exports@[i].name@ == name {
            let i = choose|i: int|
                0 <= i < self.exports@.len() && #[trigger] self.exports@[i].name@ == name
                    && forall|k: int| 0 <= k < i ==> #[trigger] self.exports@[k].name@ != name;
            Some(self.exports@[i].export)
        } else {
            None
        }
    }
}

} // verus!
