use vstd::prelude::*;

use crate::metadata::SymbolType;
use crate::text::str_equals;

verus! {

/// Compilers whose output needs special handling to be reassembled matchingly.
#[derive(Clone, Copy, PartialEq, Eq, Structural, PartialOrd, Ord, Hash, Debug)]
pub enum Compiler {
    IDO,
    KMC,
    SN64,
    EGCS,
    PSYQ,
    MWCCPS2,
    EEGCC,
}

/// The name of each compiler.
pub open spec fn spec_compiler_name(c: Compiler) -> Seq<char> {
    match c {
        Compiler::IDO => "IDO"@,
        Compiler::KMC => "KMC"@,
        Compiler::SN64 => "SN64"@,
        Compiler::EGCS => "EGCS"@,
        Compiler::PSYQ => "PSYQ"@,
        Compiler::MWCCPS2 => "MWCCPS2"@,
        Compiler::EEGCC => "EEGCC"@,
    }
}

/// The compiler whose name is `name`, if any.
pub open spec fn spec_compiler_from_name(name: Seq<char>) -> Option<Compiler> {
    if name == "IDO"@ {
        Some(Compiler::IDO)
    } else if name == "KMC"@ {
        Some(Compiler::KMC)
    } else if name == "SN64"@ {
        Some(Compiler::SN64)
    } else if name == "EGCS"@ {
        Some(Compiler::EGCS)
    } else if name == "PSYQ"@ {
        Some(Compiler::PSYQ)
    } else if name == "MWCCPS2"@ {
        Some(Compiler::MWCCPS2)
    } else if name == "EEGCC"@ {
        Some(Compiler::EEGCC)
    } else {
        None
    }
}

/// Alignment shift that the compiler applies before a symbol of the given type, if any.
pub open spec fn spec_prev_align_for_type(c: Compiler, sym_type: SymbolType) -> Option<u8> {
    match sym_type {
        SymbolType::Function => if c == Compiler::EEGCC { Some(3u8) } else { None },
        SymbolType::Jumptable => match c {
            Compiler::KMC | Compiler::SN64 | Compiler::EGCS | Compiler::PSYQ | Compiler::EEGCC => Some(3u8),
            Compiler::MWCCPS2 => Some(4u8),
            Compiler::IDO => None,
        },
        SymbolType::Float64 => if c == Compiler::SN64 || c == Compiler::PSYQ { Some(3u8) } else { None },
        SymbolType::CString => if c == Compiler::EEGCC { Some(3u8) } else { Some(2u8) },
        _ => None,
    }
}

impl Compiler {
    /// Looks a compiler up by its name.
    pub fn from_name(name: &str) -> (r: Option<Self>)
        ensures
            r == spec_compiler_from_name(name@),
    {
        if str_equals(name, "IDO") {
            Some(Compiler::IDO)
        } else if str_equals(name, "KMC") {
            Some(Compiler::KMC)
        } else if str_equals(name, "SN64") {
            Some(Compiler::SN64)
        } else if str_equals(name, "EGCS") {
            Some(Compiler::EGCS)
        } else if str_equals(name, "PSYQ") {
            Some(Compiler::PSYQ)
        } else if str_equals(name, "MWCCPS2") {
            Some(Compiler::MWCCPS2)
        } else if str_equals(name, "EEGCC") {
            Some(Compiler::EEGCC)
        } else {
            None
        }
    }

    pub fn name(&self) -> (r: &'static str)
        ensures
            r@ == spec_compiler_name(*self),
    {
        match self {
            Compiler::IDO => "IDO",
            Compiler::KMC => "KMC",
            Compiler::SN64 => "SN64",
            Compiler::EGCS => "EGCS",
            Compiler::PSYQ => "PSYQ",
            Compiler::MWCCPS2 => "MWCCPS2",
            Compiler::EEGCC => "EEGCC",
        }
    }

    pub fn has_late_rodata(&self) -> (r: bool)
        ensures
            r == (*self == Compiler::IDO),
    {
        matches!(self, Compiler::IDO)
    }

    pub fn pair_multiple_hi_to_same_low(&self) -> (r: bool)
        ensures
            r == (*self != Compiler::IDO),
    {
        !matches!(self, Compiler::IDO)
    }

    pub fn allow_rdata_migration(&self) -> (r: bool)
        ensures
            r == (*self == Compiler::SN64 || *self == Compiler::PSYQ),
    {
        matches!(self, Compiler::SN64 | Compiler::PSYQ)
    }

    /// Whether `%lo` addends must be truncated for the old assemblers used on migrated functions.
    pub fn big_addend_workaround_for_migrated_functions(&self) -> (r: bool)
        ensures
            r == (*self != Compiler::IDO),
    {
        !matches!(self, Compiler::IDO)
    }

    /// The alignment shift of `.text` sections, when a single one exists per object.
    pub fn section_align_text(&self) -> (r: Option<u8>)
        ensures
            r == (if *self == Compiler::IDO || *self == Compiler::KMC || *self == Compiler::SN64
                || *self == Compiler::EGCS {
                Some(4u8)
            } else {
                None
            }),
    {
        match self {
            Compiler::IDO => Some(4),
            Compiler::KMC => Some(4),
            Compiler::SN64 => Some(4),
            Compiler::EGCS => Some(4),
            _ => None,
        }
    }

    /// The alignment shift of `.rodata` sections.
    pub fn section_align_rodata(&self) -> (r: Option<u8>)
        ensures
            r == (if *self == Compiler::IDO || *self == Compiler::KMC || *self == Compiler::SN64
                || *self == Compiler::EGCS {
                Some(4u8)
            } else {
                None
            }),
    {
        match self {
            Compiler::IDO => Some(4),
            Compiler::KMC => Some(4),
            Compiler::SN64 => Some(4),
            Compiler::EGCS => Some(4),
            _ => None,
        }
    }

    /// Whether aligning a symbol forces the assembler to align its whole section.
    pub fn symbol_alignment_requires_aligned_section(&self) -> (r: bool)
        ensures
            r == (*self == Compiler::MWCCPS2 || *self == Compiler::EEGCC),
    {
        matches!(self, Compiler::MWCCPS2 | Compiler::EEGCC)
    }

    fn prev_align_function(&self) -> (r: Option<u8>)
        ensures
            r == spec_prev_align_for_type(*self, SymbolType::Function),
    {
        match self {
            Compiler::EEGCC => Some(3),
            _ => None,
        }
    }

    fn prev_align_jumptable(&self) -> (r: Option<u8>)
        ensures
            r == spec_prev_align_for_type(*self, SymbolType::Jumptable),
    {
        match self {
            Compiler::KMC => Some(3),
            Compiler::SN64 => Some(3),
            Compiler::EGCS => Some(3),
            Compiler::PSYQ => Some(3),
            Compiler::MWCCPS2 => Some(4),
            Compiler::EEGCC => Some(3),
            _ => None,
        }
    }

    fn prev_align_float64(&self) -> (r: Option<u8>)
        ensures
            r == spec_prev_align_for_type(*self, SymbolType::Float64),
    {
        match self {
            Compiler::SN64 => Some(3),
            Compiler::PSYQ => Some(3),
            _ => None,
        }
    }

    fn prev_align_c_string(&self) -> (r: Option<u8>)
        ensures
            r == spec_prev_align_for_type(*self, SymbolType::CString),
    {
        match self {
            Compiler::EEGCC => Some(3),
            _ => Some(2),
        }
    }

    /// The alignment shift to emit before a symbol of the given type.
    pub fn prev_align_for_type(&self, sym_type: SymbolType) -> (r: Option<u8>)
        ensures
            r == spec_prev_align_for_type(*self, sym_type),
    {
        match sym_type {
            SymbolType::Function => self.prev_align_function(),
            SymbolType::Jumptable => self.prev_align_jumptable(),
            SymbolType::GccExceptTable => None,
            SymbolType::BranchLabel | SymbolType::JumptableLabel
            | SymbolType::GccExceptTableLabel => None,
            SymbolType::Byte | SymbolType::Short | SymbolType::Word => None,
            SymbolType::DWord => None,
            SymbolType::Float32 => None,
            SymbolType::Float64 => self.prev_align_float64(),
            SymbolType::CString => self.prev_align_c_string(),
            SymbolType::UserCustom => None,
        }
    }

    fn post_align_c_string(&self) -> (r: Option<u8>)
        ensures
            r == Some(2u8),
    {
        Some(2)
    }

    /// The alignment shift to emit after a symbol of the given type.
    pub fn post_align_for_type(&self, sym_type: SymbolType) -> (r: Option<u8>)
        ensures
            r == (if sym_type == SymbolType::CString { Some(2u8) } else { None }),
    {
        match sym_type {
            SymbolType::CString => self.post_align_c_string(),
            _ => None,
        }
    }
}

/// Law: looking up a compiler by its own name finds that compiler.
pub proof fn lemma_compiler_name_roundtrip(c: Compiler)
    ensures
        spec_compiler_from_name(spec_compiler_name(c)) == Some(c),
{
    reveal_strlit("IDO");
    reveal_strlit("KMC");
    reveal_strlit("SN64");
    reveal_strlit("EGCS");
    reveal_strlit("PSYQ");
    reveal_strlit("MWCCPS2");
    reveal_strlit("EEGCC");
    assert("IDO"@.len() == 3 && "IDO"@[0] == 'I');
    assert("KMC"@.len() == 3 && "KMC"@[0] == 'K');
    assert("SN64"@.len() == 4 && "SN64"@[0] == 'S');
    assert("EGCS"@.len() == 4 && "EGCS"@[0] == 'E');
    assert("PSYQ"@.len() == 4 && "PSYQ"@[0] == 'P');
    assert("MWCCPS2"@.len() == 7 && "MWCCPS2"@[0] == 'M');
    assert("EEGCC"@.len() == 5 && "EEGCC"@[0] == 'E');
}

} // verus!
