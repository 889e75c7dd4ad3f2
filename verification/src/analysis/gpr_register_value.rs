use vstd::prelude::*;

use crate::addresses::{GlobalOffsetTable, GotEntryKind, GotRequestedAddress, GpValue, Rom, Vram, VramOffset};
use crate::addresses::vram::{wrap_u32};
use crate::config::{Endian, GpConfig};
use crate::isa::{AccessType, Abi, Gpr};

verus! {

/// What the register tracker knows about the value held by a general purpose register.
#[allow(inconsistent_fields)]
#[derive(Clone, Copy, PartialEq, Eq, PartialOrd, Ord, Hash, Debug)]
pub enum GprRegisterValue {
    Garbage,
    HardwiredZero,
    SoftZero,
    GlobalPointer { gp: GpValue, hi_rom: Option<Rom> },
    StackPointer { offset: i32 },
    GivenAddress { vram: Vram },
    Hi { value: u32, rom: Rom },
    HiGp { value: u32, rom: Rom, hi_rom: Rom },
    ConstantInfo { setter_rom: Rom, info: GprRegConstantInfo },
    /// `setter_rom` is where the address was paired (`%lo`, `%gp_rel`, `%got`, `%got_lo`, ...).
    RawAddress { vram: Vram, setter_rom: Rom, info: GprRegRawAddress },
    /// `deref_rom` is where `original_address` was dereferenced.
    DereferencedAddress {
        original_address: Vram,
        deref_rom: Rom,
        access_info: (AccessType, bool),
        info: GprRegDereferencedAddress,
    },
    DereferencedAddressBranchChecked {
        original_address: Vram,
        deref_rom: Rom,
        access_info: (AccessType, bool),
        info: GprRegDereferencedAddress,
    },
    DereferencedAddressAddedWithGp {
        original_address: Vram,
        deref_rom: Rom,
        access_info: (AccessType, bool),
        info: GprRegDereferencedAddress,
    },
}

/// How a constant value was built.
#[allow(inconsistent_fields)]
#[derive(Clone, Copy, PartialEq, Eq, Structural, PartialOrd, Ord, Hash, Debug)]
pub enum GprRegConstantInfo {
    /// `lui $reg, 0xXXXX` then `ori $reg2, $reg, 0xYYYY`.
    Constant { value: u32, hi_rom: Rom },
    /// `ori $reg, $zero, 0xXXXX`.
    SmallConstant { value: u16 },
    /// `lui $reg, 0xXXXX` then `or $reg2, $reg, $reg3`.
    OredHi { value: u32, hi_rom: Rom },
}

/// How an address held in a register was built.
#[allow(inconsistent_fields)]
#[derive(Clone, Copy, PartialEq, Eq, Structural, PartialOrd, Ord, Hash, Debug)]
pub enum GprRegRawAddress {
    /// `lui $reg, %hi(X)` then `addiu $reg2, $reg, %lo(X)`.
    HiLo { hi_rom: Rom },
    /// `addiu $reg, $gp, %gp_rel(X)`.
    GpRel {},
    /// `lw $reg, %got(X)($gp)` on a global entry.
    GpGotGlobal {},
    /// `lw $reg, %got(X)($gp)` on the lazy resolver entry.
    GpGotLazyResolver {},
    /// `lw $reg, %got(X)($gp)` on a local entry.
    GpGotLocal {},
    /// `lw $reg, %got(X)($gp)` then `addiu $reg2, $reg, %lo(X)`.
    PairedGpGotLo { upper_rom: Rom },
    /// `lui $reg, %got_hi(X)`, `addu $reg2, $reg, $gp`, `lw $reg3, %got_lo(X)($reg2)`.
    HiLoGp { hi_rom: Rom },
}

/// How the address that was dereferenced into a register was built.
#[allow(inconsistent_fields)]
#[derive(Clone, Copy, PartialEq, Eq, Structural, PartialOrd, Ord, Hash, Debug)]
pub enum GprRegDereferencedAddress {
    /// `lui $reg, %hi(X)` then `lw $reg2, %lo(X)($reg)`.
    Hi { hi_rom: Rom },
    /// `lui`, `addiu ... %lo(X)` then `lw $reg3, 0xXXXX($reg2)`.
    HiLo { lo_rom: Rom, addend: i16 },
    /// `lw $reg, %gp_rel(X)($gp)`.
    GpRel {},
    /// `addiu $reg, $gp, %gp_rel(X)` then `lw $reg2, 0xXXXX($reg)`.
    RawGpRel { lo_rom: Rom, addend: i16 },
    /// `lw $reg, %got(X)($gp)` then `lw $reg2, 0xXXXX($reg)`.
    GpGotGlobal { upper_rom: Rom, addend: i16 },
    /// `lw $reg, %got(X)($gp)` then `lw $reg2, %lo(X)($reg)`.
    GpGotLocal { upper_rom: Rom },
    /// `lw %got`, `addiu %lo` then `lw $reg3, 0xXXXX($reg2)`.
    PairedGpGotLo { lo_rom: Rom, addend: i16 },
    /// `lui %got_hi`, `addu $gp`, `lw %got_lo` then `lw $reg4, 0xXXXX($reg3)`.
    HiLoGp { lo_rom: Rom, addend: i16 },
    /// An unaligned access (`lwl`, `lwr`, `ldl`, `ldr`) paired to a `%hi`.
    HiUnaligned { hi_rom: Rom, unaddended_address: Vram },
    /// An unaligned access relative to `$gp`.
    GpRelUnaligned { unaddended_address: Vram },
}

/// `u32::wrapping_add_signed`.
pub open spec fn u32_add_signed(x: u32, y: i32) -> u32 {
    wrap_u32(x + y)
}

/// The offset from an unaligned access's address back to the start of the accessed value, for
/// the access types whose immediate points to the value's last byte in this byte order.
pub open spec fn spec_unaligned_adjust(access: AccessType, endian: Endian) -> Option<i32> {
    match (access, endian) {
        (AccessType::UNALIGNED_WORD_LEFT, Endian::Little) => Some(-3i32),
        (AccessType::UNALIGNED_WORD_RIGHT, Endian::Big) => Some(-3i32),
        (AccessType::UNALIGNED_DOUBLEWORD_LEFT, Endian::Little) => Some(-7i32),
        (AccessType::UNALIGNED_DOUBLEWORD_RIGHT, Endian::Big) => Some(-7i32),
        _ => None,
    }
}

/// The address `x - d`, wrapping around the 32-bit address space.
pub open spec fn spec_back_by(x: u32, d: int) -> int {
    if x >= d {
        x - d
    } else {
        x + 0x1_0000_0000 - d
    }
}

/// Dereferencing a `%hi` (`lui`) with a load or store at `%lo(X)`: the address reached is the
/// `%hi` value plus the immediate (wrapping), and the `%hi` is paired by rom. For the unaligned
/// accesses whose immediate points at the last byte of the value (`lwr`/`ldr` in big endian,
/// `lwl`/`ldl` in little endian) the symbol starts 3 (a word) or 7 (a doubleword) bytes
/// before that address; every other access pairs the address itself.
pub proof fn lemma_hi_dereference_unaddended_address(
    value: u32,
    hi_rom: Rom,
    imm: i16,
    current_rom: Rom,
    access_info: (AccessType, bool),
    got: Option<&GlobalOffsetTable>,
    endian: Endian,
)
    ensures
        ({
            let r = spec_dereference(GprRegisterValue::Hi { value, rom: hi_rom }, imm, current_rom, access_info, got, endian);
            let a = access_info.0;
            let word_back = (a == AccessType::UNALIGNED_WORD_RIGHT && endian == Endian::Big) || (a
                == AccessType::UNALIGNED_WORD_LEFT && endian == Endian::Little);
            let dword_back = (a == AccessType::UNALIGNED_DOUBLEWORD_RIGHT && endian == Endian::Big) || (a
                == AccessType::UNALIGNED_DOUBLEWORD_LEFT && endian == Endian::Little);
            &&& r matches GprRegisterValue::DereferencedAddress { original_address, deref_rom, access_info: ai, info }
            &&& original_address.inner == (value + imm) % 0x1_0000_0000
            &&& deref_rom == current_rom
            &&& ai == access_info
            &&& word_back ==> (info matches GprRegDereferencedAddress::HiUnaligned { hi_rom: h, unaddended_address: u }
                && h == hi_rom && u.inner == spec_back_by(original_address.inner, 3))
            &&& dword_back ==> (info matches GprRegDereferencedAddress::HiUnaligned { hi_rom: h, unaddended_address: u }
                && h == hi_rom && u.inner == spec_back_by(original_address.inner, 7))
            &&& !word_back && !dword_back ==> info == GprRegDereferencedAddress::Hi { hi_rom }
        }),
{
}

/// Dereferencing `$gp` with a `%gp_rel(X)` access when no GOT answers the address: the
/// address reached is `$gp` plus the immediate (wrapping). For the unaligned accesses whose
/// immediate points at the last byte of the value the symbol starts 3 (word) or 7
/// (doubleword) bytes before; every other access pairs the address itself.
pub proof fn lemma_gp_rel_dereference_unaddended_address(
    gp: GpValue,
    hi_rom: Option<Rom>,
    imm: i16,
    current_rom: Rom,
    access_info: (AccessType, bool),
    endian: Endian,
)
    ensures
        ({
            let r = spec_dereference(GprRegisterValue::GlobalPointer { gp, hi_rom }, imm, current_rom, access_info, None, endian);
            let a = access_info.0;
            let word_back = (a == AccessType::UNALIGNED_WORD_RIGHT && endian == Endian::Big) || (a
                == AccessType::UNALIGNED_WORD_LEFT && endian == Endian::Little);
            let dword_back = (a == AccessType::UNALIGNED_DOUBLEWORD_RIGHT && endian == Endian::Big) || (a
                == AccessType::UNALIGNED_DOUBLEWORD_LEFT && endian == Endian::Little);
            &&& r matches GprRegisterValue::DereferencedAddress { original_address, deref_rom, info, .. }
            &&& original_address.inner == (gp.inner + imm) % 0x1_0000_0000
            &&& deref_rom == current_rom
            &&& word_back ==> (info matches GprRegDereferencedAddress::GpRelUnaligned { unaddended_address: u }
                && u.inner == spec_back_by(original_address.inner, 3))
            &&& dword_back ==> (info matches GprRegDereferencedAddress::GpRelUnaligned { unaddended_address: u }
                && u.inner == spec_back_by(original_address.inner, 7))
            &&& !word_back && !dword_back ==> info == GprRegDereferencedAddress::GpRel {}
        }),
{
}

/// Whether `value` equals the configured `$gp` value.
pub open spec fn spec_is_gp_value(gp_config: Option<&GpConfig>, value: u32) -> bool {
    match gp_config {
        Some(c) => c.gp_value.inner == value,
        None => false,
    }
}

pub open spec fn spec_is_zero_like(v: GprRegisterValue) -> bool {
    v is HardwiredZero || v is SoftZero
}

pub open spec fn spec_is_deref(v: GprRegisterValue) -> bool {
    v is DereferencedAddress || v is DereferencedAddressBranchChecked || v is DereferencedAddressAddedWithGp
}

/// The value every register starts with at the beginning of a function.
pub open spec fn spec_new(reg: Gpr, function_address: Option<Vram>, gp_config: Option<GpConfig>) -> GprRegisterValue {
    if reg == Gpr::zero {
        GprRegisterValue::HardwiredZero
    } else if reg == Gpr::gp {
        match gp_config {
            Some(c) => GprRegisterValue::GlobalPointer { gp: c.gp_value, hi_rom: None },
            None => GprRegisterValue::Garbage,
        }
    } else if reg == Gpr::sp {
        GprRegisterValue::StackPointer { offset: 0 }
    } else if reg == Gpr::t9 {
        match (function_address, gp_config) {
            (Some(f), Some(c)) => if c.pic {
                GprRegisterValue::GivenAddress { vram: f }
            } else {
                GprRegisterValue::Garbage
            },
            _ => GprRegisterValue::Garbage,
        }
    } else {
        GprRegisterValue::Garbage
    }
}

/// A dereferenced value remembers that a branch checked it; other values are unchanged.
pub open spec fn spec_apply_branch(v: GprRegisterValue) -> GprRegisterValue {
    match v {
        GprRegisterValue::DereferencedAddress { original_address, deref_rom, access_info, info }
        | GprRegisterValue::DereferencedAddressBranchChecked { original_address, deref_rom, access_info, info } =>
            GprRegisterValue::DereferencedAddressBranchChecked { original_address, deref_rom, access_info, info },
        _ => v,
    }
}

/// The value of `reg + imm` (an `addiu`-like instruction writing `dst_reg`).
pub open spec fn spec_add_imm16(
    v: GprRegisterValue,
    imm: i16,
    current_rom: Rom,
    gp_config: Option<&GpConfig>,
    dst_reg: Gpr,
) -> GprRegisterValue {
    match v {
        GprRegisterValue::HardwiredZero | GprRegisterValue::SoftZero =>
            if imm == 0 { GprRegisterValue::SoftZero } else { GprRegisterValue::Garbage },
        GprRegisterValue::GlobalPointer { gp, .. } => GprRegisterValue::RawAddress {
            vram: Vram { inner: u32_add_signed(gp.inner, imm as i32) },
            setter_rom: current_rom,
            info: GprRegRawAddress::GpRel {},
        },
        GprRegisterValue::StackPointer { offset } => GprRegisterValue::StackPointer {
            offset: vstd::wrapping::i32_specs::wrapping_add(offset, imm as i32),
        },
        GprRegisterValue::Hi { value, rom } => {
            let new_value = u32_add_signed(value, imm as i32);
            if imm < 0 && -(imm as int) > value {
                GprRegisterValue::Garbage
            } else if spec_is_gp_value(gp_config, new_value) && dst_reg == Gpr::gp {
                GprRegisterValue::GlobalPointer { gp: GpValue { inner: new_value }, hi_rom: Some(rom) }
            } else {
                GprRegisterValue::RawAddress {
                    vram: Vram { inner: new_value },
                    setter_rom: current_rom,
                    info: GprRegRawAddress::HiLo { hi_rom: rom },
                }
            }
        },
        GprRegisterValue::RawAddress { vram, setter_rom, info: GprRegRawAddress::GpGotLocal {} } =>
            GprRegisterValue::RawAddress {
                vram: Vram { inner: u32_add_signed(vram.inner, imm as i32) },
                setter_rom: current_rom,
                info: GprRegRawAddress::PairedGpGotLo { upper_rom: setter_rom },
            },
        _ => GprRegisterValue::Garbage,
    }
}

/// The value read from memory at `reg + imm` (a load or store through `reg`).
pub open spec fn spec_dereference(
    v: GprRegisterValue,
    imm: i16,
    current_rom: Rom,
    access_info: (AccessType, bool),
    got: Option<&GlobalOffsetTable>,
    endian: Endian,
) -> GprRegisterValue {
    match v {
        GprRegisterValue::GlobalPointer { gp, .. } => {
            let vram = Vram { inner: u32_add_signed(gp.inner, imm as i32) };
            let request = match got {
                Some(g) => g.spec_request(vram),
                None => None,
            };
            match request {
                Some((kind, address)) => GprRegisterValue::RawAddress {
                    vram: Vram { inner: address },
                    setter_rom: current_rom,
                    info: match kind {
                        GotEntryKind::LazyResolver => GprRegRawAddress::GpGotLazyResolver {},
                        GotEntryKind::Local => GprRegRawAddress::GpGotLocal {},
                        GotEntryKind::Global => GprRegRawAddress::GpGotGlobal {},
                    },
                },
                None => GprRegisterValue::DereferencedAddress {
                    original_address: vram,
                    deref_rom: current_rom,
                    access_info,
                    info: match spec_unaligned_adjust(access_info.0, endian) {
                        Some(adj) => GprRegDereferencedAddress::GpRelUnaligned {
                            unaddended_address: Vram { inner: u32_add_signed(vram.inner, adj) },
                        },
                        None => GprRegDereferencedAddress::GpRel {},
                    },
                },
            }
        },
        GprRegisterValue::Hi { value, rom } => {
            let original_address = Vram { inner: u32_add_signed(value, imm as i32) };
            GprRegisterValue::DereferencedAddress {
                original_address,
                deref_rom: current_rom,
                access_info,
                info: match spec_unaligned_adjust(access_info.0, endian) {
                    Some(adj) => GprRegDereferencedAddress::HiUnaligned {
                        hi_rom: rom,
                        unaddended_address: Vram { inner: u32_add_signed(original_address.inner, adj) },
                    },
                    None => GprRegDereferencedAddress::Hi { hi_rom: rom },
                },
            }
        },
        GprRegisterValue::HiGp { value, hi_rom, .. } => {
            let vram = Vram { inner: u32_add_signed(value, imm as i32) };
            let request = match got {
                Some(g) => g.spec_request(vram),
                None => None,
            };
            match request {
                Some((_, address)) => GprRegisterValue::RawAddress {
                    vram: Vram { inner: address },
                    setter_rom: current_rom,
                    info: GprRegRawAddress::HiLoGp { hi_rom },
                },
                None => GprRegisterValue::Garbage,
            }
        },
        GprRegisterValue::RawAddress { vram, setter_rom, info } => match info {
            GprRegRawAddress::HiLo { .. } => GprRegisterValue::DereferencedAddress {
                original_address: vram,
                deref_rom: current_rom,
                access_info,
                info: GprRegDereferencedAddress::HiLo { lo_rom: setter_rom, addend: imm },
            },
            GprRegRawAddress::GpRel { .. } => GprRegisterValue::DereferencedAddress {
                original_address: vram,
                deref_rom: current_rom,
                access_info,
                info: GprRegDereferencedAddress::RawGpRel { lo_rom: setter_rom, addend: imm },
            },
            GprRegRawAddress::GpGotGlobal { .. } => GprRegisterValue::DereferencedAddress {
                original_address: vram,
                deref_rom: current_rom,
                access_info,
                info: GprRegDereferencedAddress::GpGotGlobal { upper_rom: setter_rom, addend: imm },
            },
            GprRegRawAddress::GpGotLazyResolver { .. } => GprRegisterValue::Garbage,
            GprRegRawAddress::GpGotLocal {} => GprRegisterValue::DereferencedAddress {
                original_address: Vram { inner: u32_add_signed(vram.inner, imm as i32) },
                deref_rom: current_rom,
                access_info,
                info: GprRegDereferencedAddress::GpGotLocal { upper_rom: setter_rom },
            },
            GprRegRawAddress::PairedGpGotLo { .. } => GprRegisterValue::DereferencedAddress {
                original_address: vram,
                deref_rom: current_rom,
                access_info,
                info: GprRegDereferencedAddress::PairedGpGotLo { lo_rom: setter_rom, addend: imm },
            },
            GprRegRawAddress::HiLoGp { .. } => GprRegisterValue::DereferencedAddress {
                original_address: vram,
                deref_rom: current_rom,
                access_info,
                info: GprRegDereferencedAddress::HiLoGp { lo_rom: setter_rom, addend: imm },
            },
        },
        _ => GprRegisterValue::Garbage,
    }
}

/// The value of `reg | imm` (an `ori`).
pub open spec fn spec_or_imm16(v: GprRegisterValue, imm: u16, current_rom: Rom) -> GprRegisterValue {
    match v {
        GprRegisterValue::HardwiredZero | GprRegisterValue::SoftZero => if imm == 0 {
            GprRegisterValue::SoftZero
        } else {
            GprRegisterValue::ConstantInfo {
                setter_rom: current_rom,
                info: GprRegConstantInfo::SmallConstant { value: imm },
            }
        },
        GprRegisterValue::Hi { value, rom: hi_rom }
        | GprRegisterValue::ConstantInfo { info: GprRegConstantInfo::OredHi { value, hi_rom }, .. } =>
            GprRegisterValue::ConstantInfo {
                setter_rom: current_rom,
                info: GprRegConstantInfo::Constant { value: value | (imm as u32), hi_rom },
            },
        _ => GprRegisterValue::Garbage,
    }
}

/// `$gp` plus a `%hi`/`%lo` address computed from a given address (the `.cpload` pattern).
pub open spec fn spec_given_plus_raw(
    given: Vram,
    vram: Vram,
    info: GprRegRawAddress,
    gp_config: Option<&GpConfig>,
) -> GprRegisterValue {
    match info {
        GprRegRawAddress::HiLo { hi_rom } => {
            let result = wrap_u32(given.inner + vram.inner);
            if spec_is_gp_value(gp_config, result) {
                GprRegisterValue::GlobalPointer { gp: GpValue { inner: result }, hi_rom: Some(hi_rom) }
            } else {
                GprRegisterValue::Garbage
            }
        },
        _ => GprRegisterValue::Garbage,
    }
}

/// The stack pointer moved by a `%hi`/`%lo` address.
pub open spec fn spec_stack_plus_raw(offset: i32, vram: Vram, info: GprRegRawAddress) -> GprRegisterValue {
    match info {
        GprRegRawAddress::HiLo { .. } => GprRegisterValue::StackPointer {
            offset: vstd::wrapping::i32_specs::wrapping_add_unsigned(offset, vram.inner),
        },
        _ => GprRegisterValue::Garbage,
    }
}

/// The `$gp` register added to a dereferenced value.
pub open spec fn spec_deref_added_with_gp(d: GprRegisterValue) -> GprRegisterValue {
    match d {
        GprRegisterValue::DereferencedAddress { original_address, deref_rom, access_info, info }
        | GprRegisterValue::DereferencedAddressBranchChecked { original_address, deref_rom, access_info, info } =>
            GprRegisterValue::DereferencedAddressAddedWithGp { original_address, deref_rom, access_info, info },
        _ => GprRegisterValue::Garbage,
    }
}

/// The value of `a + b` for two registers, neither of them zero nor garbage.
pub open spec fn spec_add_nontrivial(
    a: GprRegisterValue,
    b: GprRegisterValue,
    current_rom: Rom,
    gp_config: Option<&GpConfig>,
) -> GprRegisterValue {
    match (a, b) {
        (GprRegisterValue::GlobalPointer { gp, .. }, GprRegisterValue::Hi { value, rom })
        | (GprRegisterValue::Hi { value, rom }, GprRegisterValue::GlobalPointer { gp, .. }) =>
            GprRegisterValue::HiGp { value: wrap_u32(gp.inner + value), rom: current_rom, hi_rom: rom },
        (GprRegisterValue::GlobalPointer { .. }, d) => spec_deref_added_with_gp(d),
        (d, GprRegisterValue::GlobalPointer { .. }) => spec_deref_added_with_gp(d),
        (GprRegisterValue::StackPointer { offset }, GprRegisterValue::Hi { value, .. })
        | (GprRegisterValue::Hi { value, .. }, GprRegisterValue::StackPointer { offset }) =>
            GprRegisterValue::StackPointer {
                offset: vstd::wrapping::i32_specs::wrapping_add_unsigned(offset, value),
            },
        (GprRegisterValue::StackPointer { offset }, GprRegisterValue::RawAddress { vram, info, .. })
        | (GprRegisterValue::RawAddress { vram, info, .. }, GprRegisterValue::StackPointer { offset }) =>
            spec_stack_plus_raw(offset, vram, info),
        (GprRegisterValue::GivenAddress { vram: given }, GprRegisterValue::RawAddress { vram, info, .. })
        | (GprRegisterValue::RawAddress { vram, info, .. }, GprRegisterValue::GivenAddress { vram: given }) =>
            spec_given_plus_raw(given, vram, info, gp_config),
        (GprRegisterValue::Hi { .. }, d) | (GprRegisterValue::HiGp { .. }, d)
        | (GprRegisterValue::RawAddress { .. }, d) => if spec_is_deref(d) { a } else { GprRegisterValue::Garbage },
        (d, GprRegisterValue::Hi { .. }) | (d, GprRegisterValue::HiGp { .. })
        | (d, GprRegisterValue::RawAddress { .. }) => if spec_is_deref(d) { b } else { GprRegisterValue::Garbage },
        _ => GprRegisterValue::Garbage,
    }
}

/// The value of `a + b` for two registers (`addu` and friends).
pub open spec fn spec_add_register(
    a: GprRegisterValue,
    b: GprRegisterValue,
    current_rom: Rom,
    gp_config: Option<&GpConfig>,
) -> GprRegisterValue {
    if spec_is_zero_like(a) && spec_is_zero_like(b) {
        GprRegisterValue::SoftZero
    } else if spec_is_zero_like(b) {
        a
    } else if spec_is_zero_like(a) {
        b
    } else if b is Garbage {
        a
    } else if a is Garbage {
        b
    } else {
        spec_add_nontrivial(a, b, current_rom, gp_config)
    }
}

/// The value of `a - b` for two registers.
pub open spec fn spec_sub_register(a: GprRegisterValue, b: GprRegisterValue) -> GprRegisterValue {
    if a is HardwiredZero && spec_is_zero_like(b) {
        GprRegisterValue::SoftZero
    } else if spec_is_zero_like(b) {
        a
    } else {
        match (a, b) {
            (GprRegisterValue::StackPointer { offset }, GprRegisterValue::ConstantInfo { info: GprRegConstantInfo::Constant { value, .. }, .. }) =>
                GprRegisterValue::StackPointer { offset: vstd::wrapping::i32_specs::wrapping_sub(offset, value as i32) },
            (GprRegisterValue::StackPointer { offset }, GprRegisterValue::ConstantInfo { info: GprRegConstantInfo::SmallConstant { value }, .. }) =>
                GprRegisterValue::StackPointer { offset: vstd::wrapping::i32_specs::wrapping_sub(offset, value as i32) },
            _ => GprRegisterValue::Garbage,
        }
    }
}

/// Whether `v` can be or'ed with a `%hi` value to build a constant.
pub open spec fn spec_orable_with_hi(v: GprRegisterValue) -> bool {
    v is Garbage || v is DereferencedAddress || v matches GprRegisterValue::ConstantInfo {
        info: GprRegConstantInfo::SmallConstant { .. },
        ..
    }
}

/// The value of `a | b` for two registers.
pub open spec fn spec_or_register(a: GprRegisterValue, b: GprRegisterValue, current_rom: Rom) -> GprRegisterValue {
    if spec_is_zero_like(a) && spec_is_zero_like(b) {
        GprRegisterValue::SoftZero
    } else if spec_is_zero_like(b) {
        a
    } else if spec_is_zero_like(a) {
        b
    } else {
        match (a, b) {
            (GprRegisterValue::Hi { value, rom }, o) | (o, GprRegisterValue::Hi { value, rom }) =>
                if spec_orable_with_hi(o) {
                    GprRegisterValue::ConstantInfo {
                        setter_rom: current_rom,
                        info: GprRegConstantInfo::OredHi { value, hi_rom: rom },
                    }
                } else {
                    GprRegisterValue::Garbage
                },
            _ => GprRegisterValue::Garbage,
        }
    }
}

fn is_gp_value(gp_config: Option<&GpConfig>, value: u32) -> (r: bool)
    ensures
        r == spec_is_gp_value(gp_config, value),
{
    match gp_config {
        Some(c) => c.gp_value.inner == value,
        None => false,
    }
}

fn unaligned_adjust(access: AccessType, endian: Endian) -> (r: Option<i32>)
    ensures
        r == spec_unaligned_adjust(access, endian),
{
    match (access, endian) {
        (AccessType::UNALIGNED_WORD_LEFT, Endian::Little) => Some(-3),
        (AccessType::UNALIGNED_WORD_RIGHT, Endian::Big) => Some(-3),
        (AccessType::UNALIGNED_DOUBLEWORD_LEFT, Endian::Little) => Some(-7),
        (AccessType::UNALIGNED_DOUBLEWORD_RIGHT, Endian::Big) => Some(-7),
        _ => None,
    }
}

fn add_signed(x: u32, y: i32) -> (r: u32)
    ensures
        r == u32_add_signed(x, y),
{
    Vram::new(x).add_offset(&VramOffset::new(y)).inner
}

impl GprRegisterValue {
    /// The value `reg` holds when a function starts.
    pub fn new(reg: Gpr, abi: Abi, function_address: Option<Vram>, gp_config: Option<GpConfig>) -> (r: Self)
        ensures
            r == spec_new(reg, function_address, gp_config),
    {
        if reg.is_zero(abi) {
            Self::HardwiredZero
        } else if reg.is_global_pointer(abi) {
            if let Some(gp_config) = gp_config {
                Self::GlobalPointer { gp: gp_config.gp_value(), hi_rom: None }
            } else {
                Self::Garbage
            }
        } else if reg.is_stack_pointer(abi) {
            Self::StackPointer { offset: 0 }
        } else if reg == Gpr::t9 {
            match (function_address, gp_config) {
                (Some(function_address), Some(c)) => if c.pic() {
                    Self::GivenAddress { vram: function_address }
                } else {
                    Self::Garbage
                },
                _ => Self::Garbage,
            }
        } else {
            Self::Garbage
        }
    }

    /// Marks a dereferenced value as checked by a branch.
    pub fn apply_branch(&mut self)
        ensures
            *final(self) == spec_apply_branch(*old(self)),
    {
        match *self {
            Self::DereferencedAddress { original_address, deref_rom, access_info, info }
            | Self::DereferencedAddressBranchChecked { original_address, deref_rom, access_info, info } => {
                *self = Self::DereferencedAddressBranchChecked { original_address, deref_rom, access_info, info };
            },
            _ => {},
        }
    }

    /// The value of this register plus a 16-bit immediate, written to `dst_reg`.
    pub fn add_imm16(&self, imm: i16, current_rom: Rom, gp_config: Option<&GpConfig>, dst_reg: Gpr) -> (r: Self)
        ensures
            r == spec_add_imm16(*self, imm, current_rom, gp_config, dst_reg),
    {
        match *self {
            Self::HardwiredZero | Self::SoftZero => {
                if imm == 0 {
                    Self::SoftZero
                } else {
                    Self::Garbage
                }
            },
            Self::GlobalPointer { gp, .. } => Self::RawAddress {
                vram: Vram::new(add_signed(gp.inner(), imm as i32)),
                setter_rom: current_rom,
                info: GprRegRawAddress::GpRel {},
            },
            Self::StackPointer { offset } => Self::StackPointer { offset: offset.wrapping_add(imm as i32) },
            Self::Hi { value, rom } => {
                let new_value = add_signed(value, imm as i32);
                if imm < 0 && ((-(imm as i32)) as u32) > value {
                    Self::Garbage
                } else if is_gp_value(gp_config, new_value) && dst_reg == Gpr::gp {
                    Self::GlobalPointer { gp: GpValue::new(new_value), hi_rom: Some(rom) }
                } else {
                    Self::RawAddress {
                        vram: Vram::new(new_value),
                        setter_rom: current_rom,
                        info: GprRegRawAddress::HiLo { hi_rom: rom },
                    }
                }
            },
            Self::RawAddress { vram, setter_rom, info } => match info {
                GprRegRawAddress::GpGotLocal {} => Self::RawAddress {
                    vram: Vram::new(add_signed(vram.inner(), imm as i32)),
                    setter_rom: current_rom,
                    info: GprRegRawAddress::PairedGpGotLo { upper_rom: setter_rom },
                },
                _ => Self::Garbage,
            },
            _ => Self::Garbage,
        }
    }

    /// The value loaded from (or stored to) `imm` bytes past the address this register holds.
    pub fn dereference(
        &self,
        imm: i16,
        current_rom: Rom,
        access_info: (AccessType, bool),
        global_offset_table: Option<&GlobalOffsetTable>,
        endian: Endian,
    ) -> (r: Self)
        ensures
            r == spec_dereference(*self, imm, current_rom, access_info, global_offset_table, endian),
    {
        match *self {
            Self::GlobalPointer { gp, .. } => {
                let vram = Vram::new(add_signed(gp.inner(), imm as i32));
                let requested = match global_offset_table {
                    Some(g) => g.request_address(vram),
                    None => None,
                };
                if let Some(requested_address) = requested {
                    let new_address = Vram::new(requested_address.address());
                    match requested_address {
                        GotRequestedAddress::LazyResolver(_) => Self::RawAddress {
                            vram: new_address,
                            setter_rom: current_rom,
                            info: GprRegRawAddress::GpGotLazyResolver {},
                        },
                        GotRequestedAddress::Local(_) => Self::RawAddress {
                            vram: new_address,
                            setter_rom: current_rom,
                            info: GprRegRawAddress::GpGotLocal {},
                        },
                        GotRequestedAddress::Global(_) => Self::RawAddress {
                            vram: new_address,
                            setter_rom: current_rom,
                            info: GprRegRawAddress::GpGotGlobal {},
                        },
                    }
                } else {
                    let info = match unaligned_adjust(access_info.0, endian) {
                        Some(adj) => GprRegDereferencedAddress::GpRelUnaligned {
                            unaddended_address: vram.add_offset(&VramOffset::new(adj)),
                        },
                        None => GprRegDereferencedAddress::GpRel {},
                    };
                    Self::DereferencedAddress { original_address: vram, deref_rom: current_rom, access_info, info }
                }
            },
            Self::StackPointer { .. } => {
                // Stack operations are not tracked.
                Self::Garbage
            },
            Self::Hi { value, rom } => {
                let original_address = Vram::new(add_signed(value, imm as i32));
                let info = match unaligned_adjust(access_info.0, endian) {
                    Some(adj) => GprRegDereferencedAddress::HiUnaligned {
                        hi_rom: rom,
                        unaddended_address: original_address.add_offset(&VramOffset::new(adj)),
                    },
                    None => GprRegDereferencedAddress::Hi { hi_rom: rom },
                };
                Self::DereferencedAddress { original_address, deref_rom: current_rom, access_info, info }
            },
            Self::HiGp { value, hi_rom, .. } => {
                let vram = Vram::new(add_signed(value, imm as i32));
                let requested = match global_offset_table {
                    Some(g) => g.request_address(vram),
                    None => None,
                };
                if let Some(requested_address) = requested {
                    Self::RawAddress {
                        vram: Vram::new(requested_address.address()),
                        setter_rom: current_rom,
                        info: GprRegRawAddress::HiLoGp { hi_rom },
                    }
                } else {
                    Self::Garbage
                }
            },
            Self::RawAddress { vram, setter_rom, info } => match info {
                GprRegRawAddress::HiLo { .. } => Self::DereferencedAddress {
                    original_address: vram,
                    deref_rom: current_rom,
                    access_info,
                    info: GprRegDereferencedAddress::HiLo { lo_rom: setter_rom, addend: imm },
                },
                GprRegRawAddress::GpRel { .. } => Self::DereferencedAddress {
                    original_address: vram,
                    deref_rom: current_rom,
                    access_info,
                    info: GprRegDereferencedAddress::RawGpRel { lo_rom: setter_rom, addend: imm },
                },
                GprRegRawAddress::GpGotGlobal { .. } => Self::DereferencedAddress {
                    original_address: vram,
                    deref_rom: current_rom,
                    access_info,
                    info: GprRegDereferencedAddress::GpGotGlobal { upper_rom: setter_rom, addend: imm },
                },
                GprRegRawAddress::GpGotLazyResolver { .. } => Self::Garbage,
                GprRegRawAddress::GpGotLocal {} => Self::DereferencedAddress {
                    original_address: Vram::new(add_signed(vram.inner(), imm as i32)),
                    deref_rom: current_rom,
                    access_info,
                    info: GprRegDereferencedAddress::GpGotLocal { upper_rom: setter_rom },
                },
                GprRegRawAddress::PairedGpGotLo { .. } => Self::DereferencedAddress {
                    original_address: vram,
                    deref_rom: current_rom,
                    access_info,
                    info: GprRegDereferencedAddress::PairedGpGotLo { lo_rom: setter_rom, addend: imm },
                },
                GprRegRawAddress::HiLoGp { .. } => Self::DereferencedAddress {
                    original_address: vram,
                    deref_rom: current_rom,
                    access_info,
                    info: GprRegDereferencedAddress::HiLoGp { lo_rom: setter_rom, addend: imm },
                },
            },
            _ => Self::Garbage,
        }
    }

    /// The value of this register or'ed with a 16-bit immediate.
    pub fn or_imm16(&self, imm: u16, current_rom: Rom) -> (r: Self)
        ensures
            r == spec_or_imm16(*self, imm, current_rom),
    {
        match *self {
            Self::HardwiredZero | Self::SoftZero => {
                if imm == 0 {
                    Self::SoftZero
                } else {
                    Self::ConstantInfo {
                        setter_rom: current_rom,
                        info: GprRegConstantInfo::SmallConstant { value: imm },
                    }
                }
            },
            Self::Hi { value, rom: hi_rom }
            | Self::ConstantInfo { info: GprRegConstantInfo::OredHi { value, hi_rom }, .. } => Self::ConstantInfo {
                setter_rom: current_rom,
                info: GprRegConstantInfo::Constant { value: value | imm as u32, hi_rom },
            },
            _ => Self::Garbage,
        }
    }

    /// The value of the sum of two registers.
    pub fn add_register(&self, other: &Self, current_rom: Rom, gp_config: Option<&GpConfig>) -> (r: Self)
        ensures
            r == spec_add_register(*self, *other, current_rom, gp_config),
    {
        match (*self, *other) {
            (Self::HardwiredZero | Self::SoftZero, Self::HardwiredZero | Self::SoftZero) => Self::SoftZero,
            // Adding zero to something gives something.
            (x, Self::HardwiredZero | Self::SoftZero) => x,
            (Self::HardwiredZero | Self::SoftZero, y) => y,
            // Adding garbage keeps the other value: indexing into arrays or structs adds an
            // unknown offset to a pointer.
            (x, Self::Garbage) => x,
            (Self::Garbage, y) => y,
            // The pointer-ness wins over a dereferenced value.
            (
                Self::Hi { .. } | Self::HiGp { .. } | Self::RawAddress { .. },
                Self::DereferencedAddress { .. } | Self::DereferencedAddressBranchChecked { .. }
                | Self::DereferencedAddressAddedWithGp { .. },
            ) => *self,
            (
                Self::DereferencedAddress { .. } | Self::DereferencedAddressBranchChecked { .. }
                | Self::DereferencedAddressAddedWithGp { .. },
                Self::Hi { .. } | Self::HiGp { .. } | Self::RawAddress { .. },
            ) => *other,
            // $gp
            (Self::GlobalPointer { .. }, Self::GlobalPointer { .. }) => Self::Garbage,
            (Self::GlobalPointer { gp, .. }, Self::Hi { value, rom })
            | (Self::Hi { value, rom }, Self::GlobalPointer { gp, .. }) => Self::HiGp {
                value: gp.inner().wrapping_add(value),
                rom: current_rom,
                hi_rom: rom,
            },
            (
                Self::GlobalPointer { .. },
                Self::DereferencedAddress { original_address, deref_rom, access_info, info }
                | Self::DereferencedAddressBranchChecked { original_address, deref_rom, access_info, info },
            )
            | (
                Self::DereferencedAddress { original_address, deref_rom, access_info, info }
                | Self::DereferencedAddressBranchChecked { original_address, deref_rom, access_info, info },
                Self::GlobalPointer { .. },
            ) => Self::DereferencedAddressAddedWithGp { original_address, deref_rom, access_info, info },
            (Self::GlobalPointer { .. }, _) | (_, Self::GlobalPointer { .. }) => Self::Garbage,
            // Stack pointer
            (Self::StackPointer { .. }, Self::StackPointer { .. }) => Self::Garbage,
            (Self::StackPointer { offset }, Self::Hi { value, .. })
            | (Self::Hi { value, .. }, Self::StackPointer { offset }) => Self::StackPointer {
                offset: offset.wrapping_add_unsigned(value),
            },
            (Self::StackPointer { offset }, Self::RawAddress { vram, info, .. })
            | (Self::RawAddress { vram, info, .. }, Self::StackPointer { offset }) => match info {
                GprRegRawAddress::HiLo { .. } => Self::StackPointer {
                    offset: offset.wrapping_add_unsigned(vram.inner()),
                },
                _ => Self::Garbage,
            },
            (Self::StackPointer { .. }, _) | (_, Self::StackPointer { .. }) => Self::Garbage,
            // A given address only combines with a %hi/%lo pair, to set $gp.
            (Self::GivenAddress { vram: given_address }, Self::RawAddress { vram, info, .. })
            | (Self::RawAddress { vram, info, .. }, Self::GivenAddress { vram: given_address }) => match info {
                GprRegRawAddress::HiLo { hi_rom } => {
                    let result = given_address.inner().wrapping_add(vram.inner());
                    if is_gp_value(gp_config, result) {
                        Self::GlobalPointer { gp: GpValue::new(result), hi_rom: Some(hi_rom) }
                    } else {
                        Self::Garbage
                    }
                },
                _ => Self::Garbage,
            },
            // Everything else gives garbage.
            _ => Self::Garbage,
        }
    }

    /// The value of the difference of two registers.
    pub fn sub_register(&self, other: &Self, current_rom: Rom) -> (r: Self)
        ensures
            r == spec_sub_register(*self, *other),
    {
        match (*self, *other) {
            (Self::HardwiredZero, Self::HardwiredZero | Self::SoftZero) => Self::SoftZero,
            (_, Self::HardwiredZero | Self::SoftZero) => *self,
            (Self::StackPointer { offset }, Self::ConstantInfo { info, .. }) => match info {
                GprRegConstantInfo::Constant { value, .. } => Self::StackPointer {
                    offset: offset.wrapping_sub(value as i32),
                },
                GprRegConstantInfo::SmallConstant { value } => Self::StackPointer {
                    offset: offset.wrapping_sub(value as i32),
                },
                GprRegConstantInfo::OredHi { .. } => Self::Garbage,
            },
            _ => Self::Garbage,
        }
    }

    /// The value of the bitwise or of two registers.
    pub fn or_register(&self, other: &Self, current_rom: Rom) -> (r: Self)
        ensures
            r == spec_or_register(*self, *other, current_rom),
    {
        match (*self, *other) {
            (Self::HardwiredZero | Self::SoftZero, Self::HardwiredZero | Self::SoftZero) => Self::SoftZero,
            (x, Self::HardwiredZero | Self::SoftZero) => x,
            (Self::HardwiredZero | Self::SoftZero, y) => y,
            (
                Self::Hi { value, rom },
                Self::Garbage | Self::DereferencedAddress { .. }
                | Self::ConstantInfo { info: GprRegConstantInfo::SmallConstant { .. }, .. },
            )
            | (
                Self::Garbage | Self::DereferencedAddress { .. }
                | Self::ConstantInfo { info: GprRegConstantInfo::SmallConstant { .. }, .. },
                Self::Hi { value, rom },
            ) => Self::ConstantInfo {
                setter_rom: current_rom,
                info: GprRegConstantInfo::OredHi { value, hi_rom: rom },
            },
            _ => Self::Garbage,
        }
    }
}

/// Law: adding two registers gives the same value in either order.
pub proof fn lemma_add_register_symmetric(
    a: GprRegisterValue,
    b: GprRegisterValue,
    current_rom: Rom,
    gp_config: Option<&GpConfig>,
)
    ensures
        spec_add_register(a, b, current_rom, gp_config) == spec_add_register(b, a, current_rom, gp_config),
{
    assert(wrap_u32(a->GivenAddress_vram.inner + b->RawAddress_vram.inner) == wrap_u32(b->RawAddress_vram.inner + a->GivenAddress_vram.inner));
}

/// Law: or'ing two registers gives the same value in either order.
pub proof fn lemma_or_register_symmetric(a: GprRegisterValue, b: GprRegisterValue, current_rom: Rom)
    ensures
        spec_or_register(a, b, current_rom) == spec_or_register(b, a, current_rom),
{
}

/// Law: adding a zero register gives back the other register's value.
pub proof fn lemma_add_zero_identity(a: GprRegisterValue, z: GprRegisterValue, current_rom: Rom, gp_config: Option<&GpConfig>)
    requires
        spec_is_zero_like(z),
        !spec_is_zero_like(a),
    ensures
        spec_add_register(a, z, current_rom, gp_config) == a,
        spec_add_register(z, a, current_rom, gp_config) == a,
{
}

/// Law: applying a branch check twice is the same as applying it once.
pub proof fn lemma_apply_branch_idempotent(v: GprRegisterValue)
    ensures
        spec_apply_branch(spec_apply_branch(v)) == spec_apply_branch(v),
{
}

} // verus!
