use vstd::prelude::*;

verus! {

/// The kind of data or code a symbol holds.
#[derive(Clone, Copy, PartialEq, Eq, Structural, PartialOrd, Ord, Hash, Debug)]
pub enum SymbolType {
    Function,
    BranchLabel,
    Jumptable,
    JumptableLabel,
    GccExceptTable,
    GccExceptTableLabel,
    Byte,
    Short,
    Word,
    DWord,
    Float32,
    Float64,
    CString,
    UserCustom,
}

} // verus!
