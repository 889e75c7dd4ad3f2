use spimdisasm::addresses::{Size, Vram};
use spimdisasm::analysis::string_guesser::{
    GuessReference, StringGuessError, StringGuesserFlags, STRING_GUESSER_ALLOW_LATE_RODATA,
    STRING_GUESSER_EMPTY_STRINGS, STRING_GUESSER_IGNORE_DETECTED_TYPE, STRING_GUESSER_UNREFERENCED_STRINGS,
};
use spimdisasm::config::Compiler;
use spimdisasm::isa::AccessType;
use spimdisasm::metadata::SymbolType;

const TEXT: &[u8] = b"NAN\0";

fn reference(sym_type: Option<SymbolType>, user_type: Option<SymbolType>, user_size: Option<u32>, refs: usize) -> GuessReference {
    GuessReference {
        sym_type,
        user_declared_type: user_type,
        user_declared_size: user_size.map(Size::new),
        reference_counter: refs,
        access_types: vec![],
    }
}

#[test]
fn default_flags() {
    let flags = StringGuesserFlags::default();
    assert_eq!(flags.bits, 0xA3);
    assert!(flags.contains(StringGuesserFlags::from_bits(0x2)));
    assert!(!flags.contains(StringGuesserFlags::from_bits(STRING_GUESSER_EMPTY_STRINGS)));
    assert!(StringGuesserFlags::no().is_empty());
    assert_eq!(StringGuesserFlags::full().bits, 0x1FF);
    assert_eq!(StringGuesserFlags::no().union(StringGuesserFlags::default()), flags);
}

#[test]
fn guesser_gates() {
    let flags = StringGuesserFlags::default();
    let vram = Vram::new(0x80000000);
    assert_eq!(StringGuesserFlags::no().guess(None, vram, TEXT, Some(4), None, false, true), Err(StringGuessError::GuesserDisabled));
    assert_eq!(flags.guess(None, vram, TEXT, Some(4), None, true, true), Err(StringGuessError::ReachedLateRodata));
    let late = flags.union(StringGuesserFlags::from_bits(STRING_GUESSER_ALLOW_LATE_RODATA));
    assert_eq!(late.guess(None, vram, TEXT, Some(4), None, true, true), Ok(4));
    assert_eq!(flags.guess(None, Vram::new(0x80000002), TEXT, Some(4), None, false, true), Err(StringGuessError::NotProperAlignment));
    assert_eq!(
        flags.guess(None, Vram::new(0x80000004), TEXT, Some(4), Some(Compiler::EEGCC), false, true),
        Err(StringGuessError::NotProperAlignment)
    );
    assert_eq!(flags.guess(None, Vram::new(0x80000004), TEXT, Some(4), Some(Compiler::IDO), false, true), Ok(4));
}

#[test]
fn guesser_unreferenced_data() {
    let flags = StringGuesserFlags::default();
    let vram = Vram::new(0x80000000);
    assert_eq!(flags.guess(None, vram, TEXT, Some(4), None, false, false), Err(StringGuessError::UnreferencedString));
    let any = flags.union(StringGuesserFlags::from_bits(STRING_GUESSER_UNREFERENCED_STRINGS));
    assert_eq!(any.guess(None, vram, TEXT, Some(4), None, false, false), Ok(4));
    assert_eq!(flags.guess(None, vram, b"\0\0\0\0", Some(1), None, false, true), Err(StringGuessError::EmptyString));
    let empty = flags.union(StringGuesserFlags::from_bits(STRING_GUESSER_EMPTY_STRINGS));
    assert_eq!(empty.guess(None, vram, b"\0\0\0\0", Some(1), None, false, true), Ok(1));
    assert_eq!(flags.guess(None, vram, TEXT, None, None, false, true), Err(StringGuessError::InvalidString));
}

#[test]
fn guesser_believes_the_user() {
    let flags = StringGuesserFlags::default();
    let vram = Vram::new(0x80000000);
    let declared = reference(Some(SymbolType::CString), Some(SymbolType::CString), Some(12), 1);
    assert_eq!(flags.guess(Some(&declared), vram, TEXT, None, None, false, false), Ok(12));
    let typed = reference(Some(SymbolType::CString), None, None, 3);
    assert_eq!(flags.guess(Some(&typed), vram, b"ab\0cd\0", None, None, false, false), Ok(3));
    assert_eq!(
        flags.guess(Some(&typed), vram, b"abcd", None, None, false, false),
        Err(StringGuessError::UserTypeMissingTerminatorAndNoGivenSize)
    );
    let word = reference(Some(SymbolType::Word), Some(SymbolType::Word), None, 1);
    assert_eq!(flags.guess(Some(&word), vram, TEXT, Some(4), None, false, false), Err(StringGuessError::GivenUserTypeIsNotCString));
}

#[test]
fn guesser_checks_user_sizes() {
    let flags = StringGuesserFlags::default();
    let vram = Vram::new(0x80000000);
    let bytes = b"hello\0\0\0";
    // The exact size or the word-aligned one are both fine.
    assert_eq!(flags.guess(Some(&reference(None, None, Some(6), 1)), vram, bytes, Some(8), None, false, false), Ok(8));
    assert_eq!(flags.guess(Some(&reference(None, None, Some(8), 1)), vram, bytes, Some(8), None, false, false), Ok(8));
    assert_eq!(
        flags.guess(Some(&reference(None, None, Some(5), 1)), vram, bytes, Some(8), None, false, false),
        Err(StringGuessError::UserSizeButTerminatorMismatch)
    );
    assert_eq!(
        flags.guess(Some(&reference(None, None, Some(12), 1)), vram, bytes, Some(8), None, false, false),
        Err(StringGuessError::UserSizeButTerminatorMismatch)
    );
    assert_eq!(
        flags.guess(Some(&reference(None, None, Some(4), 1)), vram, b"abcd", Some(4), None, false, false),
        Err(StringGuessError::UserSizeMissingTerminator)
    );
}

#[test]
fn guesser_checks_references() {
    let basic = StringGuesserFlags::from_bits(0x1);
    let vram = Vram::new(0x80000000);
    let twice = reference(None, None, None, 2);
    assert_eq!(basic.guess(Some(&twice), vram, TEXT, Some(4), None, false, false), Err(StringGuessError::ReferencedMoreThanOnce));
    assert_eq!(StringGuesserFlags::default().guess(Some(&twice), vram, TEXT, Some(4), None, false, false), Ok(4));

    let mut loaded = reference(None, None, None, 1);
    loaded.access_types = vec![AccessType::WORD];
    assert_eq!(basic.guess(Some(&loaded), vram, TEXT, Some(4), None, false, false), Err(StringGuessError::HasDetectedType));
    let ignore = basic.union(StringGuesserFlags::from_bits(STRING_GUESSER_IGNORE_DETECTED_TYPE));
    assert_eq!(ignore.guess(Some(&loaded), vram, TEXT, Some(4), None, false, false), Ok(4));
    loaded.access_types = vec![AccessType::WORD, AccessType::BYTE];
    assert_eq!(basic.guess(Some(&loaded), vram, TEXT, Some(4), None, false, false), Err(StringGuessError::HasBeenDereferencedMixedAligned));
    loaded.access_types = vec![AccessType::UNALIGNED_WORD_LEFT];
    assert_eq!(basic.guess(Some(&loaded), vram, TEXT, Some(4), None, false, false), Err(StringGuessError::HasBeenDereferencedUnaligned));
    assert_eq!(StringGuesserFlags::default().guess(Some(&loaded), vram, TEXT, Some(4), None, false, false), Ok(4));
    assert_eq!(StringGuessError::EmptyString.as_str(), "EmptyString");
}

#[test]
fn guess_string_ending_in_word_of_zeroes() {
    static BYTES: [u8; 56] = [
        0x54, 0x68, 0x69, 0x73, 0x20, 0x67, 0x61, 0x6D, 0x65, 0x20, 0x69, 0x73, 0x20, 0x6E,
        0x6F, 0x74, 0x20, 0x64, 0x65, 0x73, 0x69, 0x67, 0x6E, 0x65, 0x64, 0x7E, 0x6E, 0x66,
        0x6F, 0x72, 0x20, 0x75, 0x73, 0x65, 0x20, 0x6F, 0x6E, 0x20, 0x74, 0x68, 0x69, 0x73,
        0x20, 0x73, 0x79, 0x73, 0x74, 0x65, 0x6D, 0x2E, 0x7E, 0x7A, 0x00, 0x00, 0x00, 0x00,
    ];
    let vram = Vram::new(0x80000000);
    let guesser = StringGuesserFlags::default();
    // The Shift-JIS check accepts the 52 characters and their terminator: 53 bytes.
    let maybe_size = guesser.guess(None, vram, &BYTES, Some(53), None, false, true);
    assert_eq!(maybe_size, Ok(53));
}

#[test]
fn guess_string_ending_tight() {
    static BYTES: [u8; 4] = [0x4E, 0x41, 0x4E, 0x00];
    let vram = Vram::new(0x80000000);
    let guesser = StringGuesserFlags::default();
    let maybe_size = guesser.guess(None, vram, &BYTES, Some(4), None, false, true);
    assert_eq!(maybe_size, Ok(4));
}
