//! Invocation of an exported function: resolving the export, and choosing
//! the native calling shape from the function's signature.
use vstd::prelude::*;
use vstd::string::*;

use crate::module::{Compilation, Export, Module, Signature, ValueType};

verus! {

/// How the native code of a function is called: it takes the execution
/// context and returns nothing or one value of the given kind.
#[derive(Clone, Copy, Debug, PartialEq, Eq, Structural)]
pub enum ReturnShape {
    Void,
    I32,
    I64,
    F32,
    F64,
}

/// Why a function cannot be invoked.
#[derive(Clone, Copy, Debug, PartialEq, Eq, Structural)]
pub enum InvokeError {
    /// The function returns more than one value.
    MultipleReturns { count: usize },
    /// The function returns one value of a non-numeric type.
    UnsupportedReturnType { ty: ValueType },
}

impl InvokeError {
    /// A description of the error.
    pub fn message(&self) -> String {
        match self {
            InvokeError::MultipleReturns { .. } => String::from_str("only functions with at most one return value are supported"),
            InvokeError::UnsupportedReturnType { .. } => String::from_str("the return type of the function is not supported"),
        }
    }
}

/// A resolved native call: the entry address and the shape to call it with.
#[derive(Clone, Copy, Debug, PartialEq, Eq, Structural)]
pub struct NativeCall {
    pub entry: usize,
    pub shape: ReturnShape,
}

/// The calling shape for a function returning `results`, or why there is none.
pub open spec fn return_shape(results: Seq<ValueType>) -> Result<ReturnShape, InvokeError> {
    if results.len() == 0 {
        Ok(ReturnShape::Void)
    } else if results.len() == 1 {
        match results[0] {
            ValueType::I32 => Ok(ReturnShape::I32),
            ValueType::I64 => Ok(ReturnShape::I64),
            ValueType::F32 => Ok(ReturnShape::F32),
            ValueType::F64 => Ok(ReturnShape::F64),
            ValueType::Other { bytes } => Err(InvokeError::UnsupportedReturnType { ty: results[0] }),
        }
    } else {
        Err(InvokeError::MultipleReturns { count: results.len() as usize })
    }
}

/// A function without results is called with no value expected back.
pub proof fn lemma_no_results_is_void(results: Seq<ValueType>)
    requires
        results.len() == 0,
    ensures
        return_shape(results) == Ok::<ReturnShape, InvokeError>(ReturnShape::Void),
{
}

/// A function with two or more results, or with one result of a non-numeric
/// type, has no calling shape: invoking it reports an error instead of
/// making a native call.
pub proof fn lemma_unsupported_results_fail(results: Seq<ValueType>)
    requires
        results.len() >= 2 || (results.len() == 1 && results[0] is Other),
    ensures
        return_shape(results) is Err,
{
}

/// Choose the calling shape for a function with signature `sig`.
pub fn classify_returns(sig: &Signature) -> (r: Result<ReturnShape, InvokeError>)
    ensures
        r == return_shape(sig.returns@),
{
    let n: usize = sig.returns.len();
    if n == 0 {
        Ok(ReturnShape::Void)
    } else if n == 1 {
        let ty = sig.returns[0];
        match ty {
            ValueType::I32 => Ok(ReturnShape::I32),
            ValueType::I64 => Ok(ReturnShape::I64),
            ValueType::F32 => Ok(ReturnShape::F32),
            ValueType::F64 => Ok(ReturnShape::F64),
            ValueType::Other { .. } => Err(InvokeError::UnsupportedReturnType { ty }),
        }
    } else {
        Err(InvokeError::MultipleReturns { count: n })
    }
}

/// Whether two strings hold the same characters.
fn same_text(a: &str, b: &str) -> (r: bool)
    ensures
        r == (a@ == b@),
{
    let n: usize = a.unicode_len();
    if n != b.unicode_len() {
        return false;
    }
    let mut i: usize = 0;
    while i < n
        invariant
            n == a@.len(),
            n == b@.len(),
            i <= n,
            forall|j: int| 0 <= j < i ==> a@[j] == b@[j],
        decreases n - i,
    {
        if a.get_char(i) != b.get_char(i) {
            return false;
        }
        i = i + 1;
    }
    assert(a@ =~= b@);
    true
}

impl Module {
    /// Look up the export named `name`.
    pub fn find_export(&self, name: &str) -> (r: Option<Export>)
        ensures
            r == self.export_of(name@),
    {
        let mut i: usize = 0;
        while i < self.exports.len()
            invariant
                i <= self.exports@.len(),
                forall|k: int| 0 <= k < i ==> #[trigger] self.exports@[k].name@ != name@,
            decreases self.exports@.len() - i,
        {
            if same_text(self.exports[i].name.as_str(), name) {
                proof {
                    let c = choose|c: int|
                        0 <= c < self.exports@.len() && #[trigger] self.exports@[c].name@ == name@
                            && forall|k: int| 0 <= k < c ==> #[trigger] self.exports@[k].name@ != name@;
                    assert(0 <= i < self.exports@.len() && self.exports@[i as int].name@ == name@
                        && forall|k: int| 0 <= k < i ==> #[trigger] self.exports@[k].name@ != name@);
                    if c < i {
                        assert(self.exports@[c].name@ != name@);
                    }
                    if i < c {
                        assert(self.exports@[i as int].name@ != name@);
                    }
                }
                return Some(self.exports[i].export);
            }
            i = i + 1;
        }
        None
    }

    /// The function index that `name` exports, if it exports a function.
    pub open spec fn exported_function(&self, name: Seq<char>) -> Option<usize> {
        match self.export_of(name) {
            Some(Export::Function(index)) => Some(index),
            _ => None,
        }
    }

    /// `name` exports a locally defined function whose code and signature exist.
    pub open spec fn invocable(&self, compilation: &Compilation, name: Seq<char>) -> bool {
        match self.exported_function(name) {
            Some(index) => {
                &&& self.imported_funcs <= index
                &&& index - self.imported_funcs < compilation.functions@.len()
                &&& index < self.functions@.len()
                &&& self.functions@[index as int] < self.signatures@.len()
            },
            None => false,
        }
    }

    /// The call that invoking the function exported as `name` makes.
    pub open spec fn spec_plan_call(&self, compilation: &Compilation, name: Seq<char>) -> Result<NativeCall, InvokeError> {
        let index = self.exported_function(name).unwrap();
        let sig = self.signatures@[self.functions@[index as int] as int];
        match return_shape(sig.returns@) {
            Ok(shape) => Ok(NativeCall { entry: compilation.functions@[index - self.imported_funcs], shape }),
            Err(e) => Err(e),
        }
    }

    /// Resolve the function exported as `func_name` to its entry address and
    /// calling shape, or report that its signature cannot be called.
    pub fn plan_call(&self, compilation: &Compilation, func_name: &str) -> (r: Result<NativeCall, InvokeError>)
        requires
            self.invocable(compilation, func_name@),
        ensures
            r == self.spec_plan_call(compilation, func_name@),
    {
        let index: usize = match self.find_export(func_name) {
            Some(Export::Function(index)) => index,
            _ => 0,
        };
        let local: usize = match self.defined_func_index(index) {
            Some(local) => local,
            None => 0,
        };
        let sig = &self.signatures[self.functions[index]];
        match classify_returns(sig) {
            Ok(shape) => Ok(NativeCall { entry: compilation.functions[local], shape }),
            Err(e) => Err(e),
        }
    }
}

} // verus!
