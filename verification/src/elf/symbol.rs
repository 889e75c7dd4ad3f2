use vstd::prelude::*;

use crate::addresses::Size;

verus! {

/// Corresponds to `STT_*`.
#[derive(Debug, Clone, Copy, Hash, PartialEq, Eq, Structural, PartialOrd, Ord)]
pub enum ElfSymType {
    /// 0. Symbol type is unspecified.
    NoType,
    /// 1. Symbol is a data object.
    Object,
    /// 2. Symbol is a code object.
    Function,
    /// 3. Symbol is associated with a section.
    Section,
    /// 4. Symbol's name is a file name.
    File,
    /// 5. Symbol is a common data object.
    Common,
    /// 6. Symbol is a thread-local storage object.
    Tls,
    Unknown(u8),
}

pub open spec fn spec_sym_type(val: u8) -> ElfSymType {
    if val == 0 {
        ElfSymType::NoType
    } else if val == 1 {
        ElfSymType::Object
    } else if val == 2 {
        ElfSymType::Function
    } else if val == 3 {
        ElfSymType::Section
    } else if val == 4 {
        ElfSymType::File
    } else if val == 5 {
        ElfSymType::Common
    } else if val == 6 {
        ElfSymType::Tls
    } else {
        ElfSymType::Unknown(val)
    }
}

impl From<u8> for ElfSymType {
    fn from(val: u8) -> (r: Self) {
        match val {
            0 => ElfSymType::NoType,
            1 => ElfSymType::Object,
            2 => ElfSymType::Function,
            3 => ElfSymType::Section,
            4 => ElfSymType::File,
            5 => ElfSymType::Common,
            6 => ElfSymType::Tls,
            x => ElfSymType::Unknown(x),
        }
    }
}

impl vstd::std_specs::convert::FromSpecImpl<u8> for ElfSymType {
    open spec fn obeys_from_spec() -> bool {
        true
    }

    open spec fn from_spec(val: u8) -> Self {
        spec_sym_type(val)
    }
}

/// Corresponds to `STB_*`.
#[derive(Debug, Clone, Copy, Hash, PartialEq, Eq, Structural)]
pub enum ElfSymBind {
    /// 0. Local symbol.
    Local,
    /// 1. Global symbol.
    Global,
    /// 2. Weak symbol.
    Weak,
    Unknown(u8),
}

pub open spec fn spec_sym_bind(val: u8) -> ElfSymBind {
    if val == 0 {
        ElfSymBind::Local
    } else if val == 1 {
        ElfSymBind::Global
    } else if val == 2 {
        ElfSymBind::Weak
    } else {
        ElfSymBind::Unknown(val)
    }
}

impl From<u8> for ElfSymBind {
    fn from(val: u8) -> (r: Self) {
        match val {
            0 => ElfSymBind::Local,
            1 => ElfSymBind::Global,
            2 => ElfSymBind::Weak,
            x => ElfSymBind::Unknown(x),
        }
    }
}

impl vstd::std_specs::convert::FromSpecImpl<u8> for ElfSymBind {
    open spec fn obeys_from_spec() -> bool {
        true
    }

    open spec fn from_spec(val: u8) -> Self {
        spec_sym_bind(val)
    }
}

/// Where a binding goes in the order of symbols: global first, then weak, local, and unknown
/// bindings last.
pub open spec fn spec_bind_rank(b: ElfSymBind) -> u8 {
    match b {
        ElfSymBind::Global => 0,
        ElfSymBind::Weak => 1,
        ElfSymBind::Local => 2,
        ElfSymBind::Unknown(_) => 3,
    }
}

impl ElfSymBind {
    /// The binding as an assembler directive, except for global, the default.
    pub fn as_str(&self) -> (r: Option<&'static str>)
        ensures
            *self == ElfSymBind::Local ==> (r matches Some(s) && s@ == "local"@),
            *self == ElfSymBind::Weak ==> (r matches Some(s) && s@ == "weak"@),
            (*self is Global || *self is Unknown) ==> r is None,
    {
        match self {
            ElfSymBind::Local => Some("local"),
            ElfSymBind::Weak => Some("weak"),
            ElfSymBind::Global | ElfSymBind::Unknown(_) => None,
        }
    }

    /// Where this binding goes in the order of symbols (see [`spec_bind_rank`]).
    pub fn rank(&self) -> (r: u8)
        ensures
            r == spec_bind_rank(*self),
    {
        match self {
            ElfSymBind::Global => 0,
            ElfSymBind::Weak => 1,
            ElfSymBind::Local => 2,
            ElfSymBind::Unknown(_) => 3,
        }
    }
}

/// Corresponds to `STV_*`.
#[derive(Debug, Clone, Copy, Hash, PartialEq, Eq, Structural, PartialOrd, Ord)]
pub enum ElfSymVisibility {
    /// 0. Default symbol visibility rules.
    Default,
    /// 1. Processor specific hidden class.
    Internal,
    /// 2. Symbol is not visible to other components.
    Hidden,
    /// 3. Symbol is visible to other components, but is not preemptible.
    Protected,
}

impl ElfSymVisibility {
    /// The visibility with the given `STV_*` number; there are only four.
    pub fn new(val: u8) -> (r: Self)
        requires
            val <= 3,
        ensures
            val == 0 ==> r == ElfSymVisibility::Default,
            val == 1 ==> r == ElfSymVisibility::Internal,
            val == 2 ==> r == ElfSymVisibility::Hidden,
            val == 3 ==> r == ElfSymVisibility::Protected,
    {
        match val {
            0 => ElfSymVisibility::Default,
            1 => ElfSymVisibility::Internal,
            2 => ElfSymVisibility::Hidden,
            _ => ElfSymVisibility::Protected,
        }
    }
}

/// Corresponds to `SHN_*`.
#[derive(Debug, Clone, Copy, Hash, PartialEq, Eq, Structural, PartialOrd, Ord)]
pub enum ElfSymSectionIndex {
    /// 0. Undefined section.
    Undef,
    /// 0xFF00. Allocated common symbols.
    MipsACommon,
    /// 0xFF01. Allocated text symbols.
    MipsText,
    /// 0xFF02. Allocated data symbols.
    MipsData,
    /// 0xFF03. Small common symbols.
    MipsSCommon,
    /// 0xFF04. Small undefined symbols.
    MipsSUndefined,
    /// 0xFFF1. Associated symbol is absolute.
    Abs,
    /// 0xFFF2. Associated symbol is common.
    Common,
    ActualSectionIndex(u16),
}

pub open spec fn spec_sym_section_index(val: u16) -> ElfSymSectionIndex {
    if val == 0 {
        ElfSymSectionIndex::Undef
    } else if val == 0xFF00 {
        ElfSymSectionIndex::MipsACommon
    } else if val == 0xFF01 {
        ElfSymSectionIndex::MipsText
    } else if val == 0xFF02 {
        ElfSymSectionIndex::MipsData
    } else if val == 0xFF03 {
        ElfSymSectionIndex::MipsSCommon
    } else if val == 0xFF04 {
        ElfSymSectionIndex::MipsSUndefined
    } else if val == 0xFFF1 {
        ElfSymSectionIndex::Abs
    } else if val == 0xFFF2 {
        ElfSymSectionIndex::Common
    } else {
        ElfSymSectionIndex::ActualSectionIndex(val)
    }
}

impl From<u16> for ElfSymSectionIndex {
    fn from(val: u16) -> (r: Self) {
        match val {
            0 => ElfSymSectionIndex::Undef,
            0xFF00 => ElfSymSectionIndex::MipsACommon,
            0xFF01 => ElfSymSectionIndex::MipsText,
            0xFF02 => ElfSymSectionIndex::MipsData,
            0xFF03 => ElfSymSectionIndex::MipsSCommon,
            0xFF04 => ElfSymSectionIndex::MipsSUndefined,
            0xFFF1 => ElfSymSectionIndex::Abs,
            0xFFF2 => ElfSymSectionIndex::Common,
            x => ElfSymSectionIndex::ActualSectionIndex(x),
        }
    }
}

impl vstd::std_specs::convert::FromSpecImpl<u16> for ElfSymSectionIndex {
    open spec fn obeys_from_spec() -> bool {
        true
    }

    open spec fn from_spec(val: u16) -> Self {
        spec_sym_section_index(val)
    }
}

/// A symbol of an ELF symbol table.
#[derive(Debug)]
pub struct ElfSymbol {
    pub value: u32,
    pub size: Option<Size>,
    pub typ: ElfSymType,
    pub bind: ElfSymBind,
    pub visibility: ElfSymVisibility,
    pub section_index: ElfSymSectionIndex,
    pub name: String,
    pub is_got_global: bool,
}

impl Clone for ElfSymbol {
    fn clone(&self) -> (r: Self)
        ensures
            r == *self,
    {
        ElfSymbol {
            value: self.value,
            size: self.size,
            typ: self.typ,
            bind: self.bind,
            visibility: self.visibility,
            section_index: self.section_index,
            name: self.name.clone(),
            is_got_global: self.is_got_global,
        }
    }
}

impl ElfSymbol {
    /// The symbol with the given `st_*` fields (`st_info` split into type and binding,
    /// `st_other` reduced to the visibility) and name. A size of 0 means no size.
    pub fn new(
        st_value: u32,
        st_size: u32,
        st_type: u8,
        st_bind: u8,
        st_visibility: u8,
        st_shndx: u16,
        name: String,
    ) -> (r: Self)
        requires
            st_visibility <= 3,
        ensures
            r.value == st_value,
            r.size == if st_size == 0 { None } else { Some(Size { inner: st_size }) },
            r.typ == spec_sym_type(st_type),
            r.bind == spec_sym_bind(st_bind),
            r.visibility == match st_visibility {
                0 => ElfSymVisibility::Default,
                1 => ElfSymVisibility::Internal,
                2 => ElfSymVisibility::Hidden,
                _ => ElfSymVisibility::Protected,
            },
            r.section_index == spec_sym_section_index(st_shndx),
            r.name@ == name@,
            !r.is_got_global,
    {
        let size = if st_size == 0 {
            None
        } else {
            Some(Size::new(st_size))
        };
        ElfSymbol {
            value: st_value,
            size,
            typ: ElfSymType::from(st_type),
            bind: ElfSymBind::from(st_bind),
            visibility: ElfSymVisibility::new(st_visibility),
            section_index: ElfSymSectionIndex::from(st_shndx),
            name,
            is_got_global: false,
        }
    }

    pub fn value(&self) -> (r: u32)
        ensures
            r == self.value,
    {
        self.value
    }

    pub fn size(&self) -> (r: Option<Size>)
        ensures
            r == self.size,
    {
        self.size
    }

    pub fn typ(&self) -> (r: ElfSymType)
        ensures
            r == self.typ,
    {
        self.typ
    }

    pub fn bind(&self) -> (r: ElfSymBind)
        ensures
            r == self.bind,
    {
        self.bind
    }

    pub fn visibility(&self) -> (r: ElfSymVisibility)
        ensures
            r == self.visibility,
    {
        self.visibility
    }

    pub fn section_index(&self) -> (r: ElfSymSectionIndex)
        ensures
            r == self.section_index,
    {
        self.section_index
    }

    pub fn name(&self) -> (r: &str)
        ensures
            r@ == self.name@,
    {
        self.name.as_str()
    }

    pub fn is_got_global(&self) -> (r: bool)
        ensures
            r == self.is_got_global,
    {
        self.is_got_global
    }

    /// Marks the symbol as having an entry in the global part of the global offset table.
    pub fn set_is_got_global(&mut self)
        ensures
            *final(self) == (ElfSymbol { is_got_global: true, ..*old(self) }),
    {
        self.is_got_global = true;
    }
}

} // verus!
