use vstd::prelude::*;

use crate::addresses::{Size, Vram};
use crate::config::compiler::spec_prev_align_for_type;
use crate::config::Compiler;
use crate::isa::registers::spec_access_is_unaligned;
use crate::isa::AccessType;
use crate::metadata::SymbolType;

verus! {

/// Flags that tune the C string guesser.
///
/// A C string must start at a 0x4-aligned region (some compilers impose a stricter
/// alignment), be '\0'-terminated and padded with '\0's up to the next 0x4 boundary. The
/// flags are additive: each one allows more wiggle room on top of `basic`, the most
/// conservative setting, which:
/// - does not guess if the user gave a type for the symbol;
/// - does not guess if the user gave only a size, and that size does not fit a string
///   with its terminator;
/// - does not guess if type information for the symbol can be inferred by other means;
/// - wants a string to be referenced only once;
/// - wants strings not to be empty.
///
/// `no` disables guessing; `full` enables every setting, so that guessing only stops when
/// the user gave a type or a size.
#[derive(Debug, Clone, Copy, Hash, PartialEq, Eq, Structural, PartialOrd, Ord)]
pub struct StringGuesserFlags {
    pub bits: u32,
}

/// The most conservative setting.
pub const STRING_GUESSER_BASIC: u32 = 0x1;

/// A string may be referenced more than once (deduplicated or plain `data` strings).
pub const STRING_GUESSER_MULTIPLE_REFERENCES: u32 = 0x2;

/// Empty strings are allowed; likely to yield false positives.
pub const STRING_GUESSER_EMPTY_STRINGS: u32 = 0x4;

/// Symbols with detected (but no user given) type information may still be strings.
pub const STRING_GUESSER_IGNORE_DETECTED_TYPE: u32 = 0x8;

/// Completely unreferenced data may be a string.
pub const STRING_GUESSER_UNREFERENCED_STRINGS: u32 = 0x10;

/// Unreferenced data right after a sized symbol may be a string.
pub const STRING_GUESSER_UNREFERENCED_BUT_SYMBOLIZED: u32 = 0x20;

/// A symbol dereferenced by different aligned access types may be a string.
pub const STRING_GUESSER_ALLOW_MIXED_ALIGNED_DEREFERENCES: u32 = 0x40;

/// A symbol dereferenced unaligned may be a string.
pub const STRING_GUESSER_ALLOW_UNALIGNED_DEREFERENCES: u32 = 0x80;

/// Strings may be guessed past the start of the "late rodata" (for compilers that have
/// one).
pub const STRING_GUESSER_ALLOW_LATE_RODATA: u32 = 0x100;

/// Every flag.
pub const STRING_GUESSER_ALL: u32 = 0x1FF;

/// Why some data is not a C string.
#[derive(Debug, Clone, Copy, Hash, PartialEq, Eq, Structural, PartialOrd, Ord)]
pub enum StringGuessError {
    UserTypeMissingTerminatorAndNoGivenSize,
    UserSizeButTerminatorMismatch,
    UserSizeMissingTerminator,
    GivenUserTypeIsNotCString,
    ReachedLateRodata,
    NotProperAlignment,
    GuesserDisabled,
    ReferencedMoreThanOnce,
    EmptyString,
    HasDetectedType,
    HasBeenDereferencedMixedAligned,
    HasBeenDereferencedUnaligned,
    InvalidString,
    UnreferencedString,
}

/// The name of each error: its variant's name.
pub open spec fn spec_error_name(e: StringGuessError) -> Seq<char> {
    match e {
        StringGuessError::UserTypeMissingTerminatorAndNoGivenSize => "UserTypeMissingTerminatorAndNoGivenSize"@,
        StringGuessError::UserSizeButTerminatorMismatch => "UserSizeButTerminatorMismatch"@,
        StringGuessError::UserSizeMissingTerminator => "UserSizeMissingTerminator"@,
        StringGuessError::GivenUserTypeIsNotCString => "GivenUserTypeIsNotCString"@,
        StringGuessError::ReachedLateRodata => "ReachedLateRodata"@,
        StringGuessError::NotProperAlignment => "NotProperAlignment"@,
        StringGuessError::GuesserDisabled => "GuesserDisabled"@,
        StringGuessError::ReferencedMoreThanOnce => "ReferencedMoreThanOnce"@,
        StringGuessError::EmptyString => "EmptyString"@,
        StringGuessError::HasDetectedType => "HasDetectedType"@,
        StringGuessError::HasBeenDereferencedMixedAligned => "HasBeenDereferencedMixedAligned"@,
        StringGuessError::HasBeenDereferencedUnaligned => "HasBeenDereferencedUnaligned"@,
        StringGuessError::InvalidString => "InvalidString"@,
        StringGuessError::UnreferencedString => "UnreferencedString"@,
    }
}

impl StringGuessError {
    /// The name of the error.
    pub fn as_str(&self) -> (r: &'static str)
        ensures
            r@ == spec_error_name(*self),
    {
        match self {
            StringGuessError::UserTypeMissingTerminatorAndNoGivenSize => "UserTypeMissingTerminatorAndNoGivenSize",
            StringGuessError::UserSizeButTerminatorMismatch => "UserSizeButTerminatorMismatch",
            StringGuessError::UserSizeMissingTerminator => "UserSizeMissingTerminator",
            StringGuessError::GivenUserTypeIsNotCString => "GivenUserTypeIsNotCString",
            StringGuessError::ReachedLateRodata => "ReachedLateRodata",
            StringGuessError::NotProperAlignment => "NotProperAlignment",
            StringGuessError::GuesserDisabled => "GuesserDisabled",
            StringGuessError::ReferencedMoreThanOnce => "ReferencedMoreThanOnce",
            StringGuessError::EmptyString => "EmptyString",
            StringGuessError::HasDetectedType => "HasDetectedType",
            StringGuessError::HasBeenDereferencedMixedAligned => "HasBeenDereferencedMixedAligned",
            StringGuessError::HasBeenDereferencedUnaligned => "HasBeenDereferencedUnaligned",
            StringGuessError::InvalidString => "InvalidString",
            StringGuessError::UnreferencedString => "UnreferencedString",
        }
    }
}

/// What the guesser reads of the symbol, or of the reference, found at the address it looks
/// at: its type (user given or detected), the type and size the user gave, how often it is
/// referenced, and the distinct ways it is dereferenced.
#[derive(Debug, Clone)]
pub struct GuessReference {
    pub sym_type: Option<SymbolType>,
    pub user_declared_type: Option<SymbolType>,
    pub user_declared_size: Option<Size>,
    pub reference_counter: usize,
    pub access_types: Vec<AccessType>,
}

/// `flags` holds every bit of `flag`.
pub open spec fn spec_has(flags: StringGuesserFlags, flag: u32) -> bool {
    flags.bits & flag == flag
}

/// The position of the first zero byte, if any.
pub open spec fn spec_first_zero(bytes: Seq<u8>) -> Option<int>
    decreases bytes.len(),
{
    if bytes.len() == 0 {
        None
    } else if bytes[0] == 0 {
        Some(0)
    } else {
        match spec_first_zero(bytes.skip(1)) {
            Some(i) => Some(i + 1),
            None => None,
        }
    }
}

/// `x` rounded up to a multiple of 4.
pub open spec fn spec_round_up_4(x: int) -> int {
    (x + 3) / 4 * 4
}

/// Whether the ways the symbol is dereferenced let it be a string.
pub open spec fn spec_access_check(flags: StringGuesserFlags, access_types: Seq<AccessType>) -> Result<
    (),
    StringGuessError,
> {
    if spec_has(flags, STRING_GUESSER_IGNORE_DETECTED_TYPE) {
        Ok(())
    } else if exists|i: int| 0 <= i < access_types.len() && spec_access_is_unaligned(#[trigger] access_types[i]) {
        if spec_has(flags, STRING_GUESSER_ALLOW_UNALIGNED_DEREFERENCES) {
            Ok(())
        } else {
            Err(StringGuessError::HasBeenDereferencedUnaligned)
        }
    } else if access_types.len() == 0 {
        Ok(())
    } else if access_types.len() == 1 {
        Err(StringGuessError::HasDetectedType)
    } else if spec_has(flags, STRING_GUESSER_ALLOW_MIXED_ALIGNED_DEREFERENCES) {
        Ok(())
    } else {
        Err(StringGuessError::HasBeenDereferencedMixedAligned)
    }
}

/// Whether a size the user gave (without a type) fits the string in `bytes`: it must hold
/// the terminator, and may be the exact size or the size rounded up to a word.
pub open spec fn spec_user_size_check(user_size: Option<Size>, bytes: Seq<u8>) -> Result<(), StringGuessError> {
    match user_size {
        None => Ok(()),
        Some(size) => match spec_first_zero(bytes) {
            None => Err(StringGuessError::UserSizeMissingTerminator),
            Some(end) => if size.inner < end + 1 {
                Err(StringGuessError::UserSizeButTerminatorMismatch)
            } else if spec_round_up_4(size.inner as int) == spec_round_up_4(end + 1) {
                Ok(())
            } else {
                Err(StringGuessError::UserSizeButTerminatorMismatch)
            },
        },
    }
}

/// The alignment a C string must start at, for the given compiler.
pub open spec fn spec_string_alignment(compiler: Option<Compiler>) -> u32 {
    match compiler {
        Some(c) => match spec_prev_align_for_type(c, SymbolType::CString) {
            Some(shift) => if shift == 3 {
                8u32
            } else {
                4u32
            },
            None => 4u32,
        },
        None => 4u32,
    }
}

/// Whether the checks before the last ones (emptiness and validity) let the data be a
/// string: `None` when they do, the error otherwise; a user type of C string decides at
/// once (see [`spec_guess`]).
pub open spec fn spec_guess_prechecks(
    flags: StringGuesserFlags,
    reference: Option<GuessReference>,
    vram: Vram,
    bytes: Seq<u8>,
    compiler: Option<Compiler>,
    reached_late_rodata: bool,
    prev_sym_ended_here: bool,
) -> Option<Result<usize, StringGuessError>> {
    if !spec_has(flags, STRING_GUESSER_ALLOW_LATE_RODATA) && reached_late_rodata {
        Some(Err(StringGuessError::ReachedLateRodata))
    } else if flags.bits == 0 {
        Some(Err(StringGuessError::GuesserDisabled))
    } else if vram.inner % spec_string_alignment(compiler) != 0 {
        Some(Err(StringGuessError::NotProperAlignment))
    } else {
        match reference {
            Some(r) => if r.sym_type == Some(SymbolType::CString) {
                match r.user_declared_size {
                    Some(size) => Some(Ok(size.inner as usize)),
                    None => match spec_first_zero(bytes) {
                        Some(end) => Some(Ok((end + 1) as usize)),
                        None => Some(Err(StringGuessError::UserTypeMissingTerminatorAndNoGivenSize)),
                    },
                }
            } else if r.user_declared_type is Some {
                Some(Err(StringGuessError::GivenUserTypeIsNotCString))
            } else {
                match spec_user_size_check(r.user_declared_size, bytes) {
                    Err(e) => Some(Err(e)),
                    Ok(_) => if !spec_has(flags, STRING_GUESSER_MULTIPLE_REFERENCES) && r.reference_counter > 1 {
                        Some(Err(StringGuessError::ReferencedMoreThanOnce))
                    } else {
                        match spec_access_check(flags, r.access_types@) {
                            Err(e) => Some(Err(e)),
                            Ok(_) => None,
                        }
                    },
                }
            },
            None => if !spec_has(flags, STRING_GUESSER_UNREFERENCED_STRINGS) && !(spec_has(
                flags,
                STRING_GUESSER_UNREFERENCED_BUT_SYMBOLIZED,
            ) && prev_sym_ended_here) {
                Some(Err(StringGuessError::UnreferencedString))
            } else {
                None
            },
        }
    }
}

/// What the guesser decides for the data `bytes` at `vram` (see [`StringGuesserFlags::guess`]).
pub open spec fn spec_guess(
    flags: StringGuesserFlags,
    reference: Option<GuessReference>,
    vram: Vram,
    bytes: Seq<u8>,
    valid_size: Option<usize>,
    compiler: Option<Compiler>,
    reached_late_rodata: bool,
    prev_sym_ended_here: bool,
) -> Result<usize, StringGuessError> {
    match spec_guess_prechecks(flags, reference, vram, bytes, compiler, reached_late_rodata, prev_sym_ended_here) {
        Some(decided) => decided,
        None => if !spec_has(flags, STRING_GUESSER_EMPTY_STRINGS) && bytes[0] == 0 {
            Err(StringGuessError::EmptyString)
        } else {
            match valid_size {
                Some(size) => Ok(size),
                None => Err(StringGuessError::InvalidString),
            }
        },
    }
}

/// The position of the first zero byte of `bytes`, if any.
fn first_zero(bytes: &[u8]) -> (r: Option<usize>)
    ensures
        match spec_first_zero(bytes@) {
            Some(i) => r == Some(i as usize) && 0 <= i < bytes@.len(),
            None => r is None,
        },
{
    let mut i: usize = 0;
    assert(bytes@.skip(0) =~= bytes@);
    while i < bytes.len()
        invariant
            i <= bytes@.len(),
            forall|k: int| 0 <= k < i ==> bytes@[k] != 0,
            spec_first_zero(bytes@) == match spec_first_zero(bytes@.skip(i as int)) {
                Some(j) => Some(j + i),
                None => None,
            },
        decreases bytes@.len() - i,
    {
        assert(bytes@.skip(i as int)[0] == bytes@[i as int]);
        assert(bytes@.skip(i as int).skip(1) =~= bytes@.skip(i + 1));
        if bytes[i] == 0 {
            return Some(i);
        }
        i = i + 1;
    }
    assert(bytes@.skip(i as int).len() == 0);
    None
}

impl StringGuesserFlags {
    /// The flags made of the given bits.
    pub fn from_bits(bits: u32) -> (r: Self)
        ensures
            r.bits == bits,
    {
        StringGuesserFlags { bits }
    }

    /// The flags used unless told otherwise: basic, multiple references, unreferenced but
    /// symbolized, and unaligned dereferences.
    pub fn default() -> (r: Self)
        ensures
            r.bits == STRING_GUESSER_BASIC | STRING_GUESSER_MULTIPLE_REFERENCES | STRING_GUESSER_UNREFERENCED_BUT_SYMBOLIZED
                | STRING_GUESSER_ALLOW_UNALIGNED_DEREFERENCES,
    {
        StringGuesserFlags {
            bits: STRING_GUESSER_BASIC | STRING_GUESSER_MULTIPLE_REFERENCES | STRING_GUESSER_UNREFERENCED_BUT_SYMBOLIZED
                | STRING_GUESSER_ALLOW_UNALIGNED_DEREFERENCES,
        }
    }

    /// Every setting enabled.
    pub fn full() -> (r: Self)
        ensures
            r.bits == STRING_GUESSER_ALL,
    {
        StringGuesserFlags { bits: STRING_GUESSER_ALL }
    }

    /// Guessing disabled.
    pub fn no() -> (r: Self)
        ensures
            r.bits == 0,
    {
        StringGuesserFlags { bits: 0 }
    }

    /// Both sets of flags.
    pub fn union(self, other: Self) -> (r: Self)
        ensures
            r.bits == self.bits | other.bits,
    {
        StringGuesserFlags { bits: self.bits | other.bits }
    }

    /// Whether every flag of `other` is set.
    pub fn contains(&self, other: Self) -> (r: bool)
        ensures
            r == spec_has(*self, other.bits),
    {
        self.bits & other.bits == other.bits
    }

    /// Whether no flag is set.
    pub fn is_empty(&self) -> (r: bool)
        ensures
            r == (self.bits == 0),
    {
        self.bits == 0
    }

    fn has(&self, flag: u32) -> (r: bool)
        ensures
            r == spec_has(*self, flag),
    {
        self.bits & flag == flag
    }

    /// Whether the ways the symbol is dereferenced let it be a string.
    fn handle_access_types(&self, access_types: &Vec<AccessType>) -> (r: Result<(), StringGuessError>)
        ensures
            r == spec_access_check(*self, access_types@),
    {
        if self.has(STRING_GUESSER_IGNORE_DETECTED_TYPE) {
            return Ok(());
        }
        let mut i: usize = 0;
        let mut unaligned = false;
        while i < access_types.len()
            invariant
                i <= access_types@.len(),
                unaligned == exists|k: int| 0 <= k < i && spec_access_is_unaligned(#[trigger] access_types@[k]),
            decreases access_types@.len() - i,
        {
            if access_types[i].is_unaligned() {
                unaligned = true;
            }
            i = i + 1;
        }
        if unaligned {
            return if self.has(STRING_GUESSER_ALLOW_UNALIGNED_DEREFERENCES) {
                Ok(())
            } else {
                Err(StringGuessError::HasBeenDereferencedUnaligned)
            };
        }
        if access_types.len() == 0 {
            Ok(())
        } else if access_types.len() == 1 {
            Err(StringGuessError::HasDetectedType)
        } else if self.has(STRING_GUESSER_ALLOW_MIXED_ALIGNED_DEREFERENCES) {
            Ok(())
        } else {
            Err(StringGuessError::HasBeenDereferencedMixedAligned)
        }
    }

    /// Decides whether the data `bytes` at `vram` is a C string and, if so, how long it is.
    /// `reference` is what is known of the symbol or reference at `vram`, if anything;
    /// `valid_size` is the size the string's encoding check gives for `bytes` (`None` when
    /// they are not a valid string in it). A user type of C string is believed, with the
    /// size the user gave or up to the terminator.
    pub fn guess(
        &self,
        reference: Option<&GuessReference>,
        vram: Vram,
        bytes: &[u8],
        valid_size: Option<usize>,
        compiler: Option<Compiler>,
        reached_late_rodata: bool,
        prev_sym_ended_here: bool,
    ) -> (r: Result<usize, StringGuessError>)
        requires
            spec_guess_prechecks(
                *self,
                match reference {
                    Some(x) => Some(*x),
                    None => None,
                },
                vram,
                bytes@,
                compiler,
                reached_late_rodata,
                prev_sym_ended_here,
            ) is None && !spec_has(*self, STRING_GUESSER_EMPTY_STRINGS) ==> bytes@.len() > 0,
        ensures
            r == spec_guess(
                *self,
                match reference {
                    Some(x) => Some(*x),
                    None => None,
                },
                vram,
                bytes@,
                valid_size,
                compiler,
                reached_late_rodata,
                prev_sym_ended_here,
            ),
    {
        if !self.has(STRING_GUESSER_ALLOW_LATE_RODATA) && reached_late_rodata {
            return Err(StringGuessError::ReachedLateRodata);
        }
        if self.is_empty() {
            return Err(StringGuessError::GuesserDisabled);
        }
        let shift = match compiler {
            Some(c) => match c.prev_align_for_type(SymbolType::CString) {
                Some(s) => s,
                None => 2,
            },
            None => 2,
        };
        let expected_alignment: u32 = if shift == 3 {
            8
        } else {
            4
        };
        if vram.inner % expected_alignment != 0 {
            return Err(StringGuessError::NotProperAlignment);
        }
        // The position of a terminator is below the length, which fits in a `usize`.
        let _length = bytes.len();
        match reference {
            Some(r) => {
                if matches!(r.sym_type, Some(SymbolType::CString)) {
                    return match r.user_declared_size {
                        Some(size) => Ok(size.inner as usize),
                        None => match first_zero(bytes) {
                            Some(end) => Ok(end + 1),
                            None => Err(StringGuessError::UserTypeMissingTerminatorAndNoGivenSize),
                        },
                    };
                } else if matches!(r.user_declared_type, Some(_)) {
                    return Err(StringGuessError::GivenUserTypeIsNotCString);
                } else if let Some(user_size) = r.user_declared_size {
                    match first_zero(bytes) {
                        Some(end) => {
                            let needed = end as u64 + 1;
                            let given = user_size.inner as u64;
                            if given < needed {
                                return Err(StringGuessError::UserSizeButTerminatorMismatch);
                            } else if (given + 3) / 4 * 4 != (needed + 3) / 4 * 4 {
                                return Err(StringGuessError::UserSizeButTerminatorMismatch);
                            }
                        },
                        None => {
                            return Err(StringGuessError::UserSizeMissingTerminator);
                        },
                    }
                }
                if !self.has(STRING_GUESSER_MULTIPLE_REFERENCES) && r.reference_counter > 1 {
                    return Err(StringGuessError::ReferencedMoreThanOnce);
                }
                if let Err(e) = self.handle_access_types(&r.access_types) {
                    return Err(e);
                }
            },
            None => {
                if !self.has(STRING_GUESSER_UNREFERENCED_STRINGS) && !(self.has(
                    STRING_GUESSER_UNREFERENCED_BUT_SYMBOLIZED,
                ) && prev_sym_ended_here) {
                    return Err(StringGuessError::UnreferencedString);
                }
            },
        }
        if !self.has(STRING_GUESSER_EMPTY_STRINGS) && bytes[0] == 0 {
            return Err(StringGuessError::EmptyString);
        }
        match valid_size {
            Some(size) => Ok(size),
            None => Err(StringGuessError::InvalidString),
        }
    }
}

} // verus!
