use quickfall::commons::err::{PositionedError, PositionlessError};
use quickfall::commons::utils::num::{
    can_num_fit_inbits_signed, can_num_fit_inbits_unsigned, get_signed_highbound,
    get_signed_lowbound, get_unsigned_highbound,
};
use quickfall::commons::Position;
use quickfall::errors::errs::{BaseError, CompilerError, ErrorKind, ErrorStorage};
use quickfall::errors::pos::ErrorPosition;
use quickfall::utils::hash::WithHash;

/// The hash that the library gives to a name.
fn utils_get_hash(name: &str) -> u64 {
    WithHash::new(name.to_string()).hash
}

#[test]
fn bounds_of_eight_bits() {
    assert_eq!(get_signed_highbound(8), 127);
    assert_eq!(get_signed_lowbound(8), -128);
    assert_eq!(get_unsigned_highbound(8), 255);
}

#[test]
fn bounds_of_the_widest_widths() {
    assert_eq!(get_signed_highbound(127), (1i128 << 126) - 1);
    assert_eq!(get_signed_lowbound(127), -(1i128 << 126));
    assert_eq!(get_unsigned_highbound(126), (1i128 << 126) - 1);
    assert_eq!(get_signed_highbound(128), i128::MAX);
    assert_eq!(get_signed_lowbound(128), i128::MIN);
    assert_eq!(get_unsigned_highbound(127), i128::MAX);
    assert_eq!(get_signed_lowbound(1), -1);
    assert_eq!(get_signed_highbound(1), 0);
    assert_eq!(get_unsigned_highbound(0), 0);
}

#[test]
fn fitting_follows_the_bounds() {
    assert!(can_num_fit_inbits_signed(8, 127));
    assert!(!can_num_fit_inbits_signed(8, 128));
    assert!(can_num_fit_inbits_signed(8, -128));
    assert!(!can_num_fit_inbits_signed(8, -129));
    assert!(can_num_fit_inbits_signed(128, i128::MIN));
    assert!(can_num_fit_inbits_unsigned(127, i128::MAX));
    assert!(can_num_fit_inbits_unsigned(16, 65535));
    assert!(!can_num_fit_inbits_unsigned(16, 65536));
    assert!(!can_num_fit_inbits_unsigned(16, -1));
}

#[test]
fn position_moves_along_its_line() {
    let pos = Position::new("a.qf".to_string(), 3, 7);
    let next = pos.increment_by(4);
    assert_eq!(next.line, 3);
    assert_eq!(next.col, 11);
    assert_eq!(next.file_path, "a.qf");
    assert_eq!(pos.duplicate(), pos);
}

#[test]
fn errors_keep_their_reason() {
    let plain = PositionlessError::new("no type".to_string());
    assert_eq!(plain.reason, "no type");
    assert_eq!(PositionlessError::with_message("x").reason, "x");
    let start = Position::new("a.qf".to_string(), 1, 2);
    let end = Position::new("a.qf".to_string(), 1, 5);
    let placed = PositionedError::new(start, end, "bad token".to_string());
    assert_eq!(placed.reason, "bad token");
    assert_eq!(placed.start.col, 2);
    assert_eq!(placed.end.col, 5);
}

#[test]
fn error_position_cuts_its_span_out_of_the_line() {
    let pos = ErrorPosition::new("a.qf".to_string(), 1, 5, 8);
    assert_eq!(pos.size, 3);
    assert_eq!(pos.get_line_slice("var i32 x"), Some("i32".to_string()));
    assert_eq!(pos.get_line_slice("var"), None);
    let at_end = ErrorPosition::new("a.qf".to_string(), 1, 4, 4);
    assert_eq!(at_end.get_line_slice("var"), Some(String::new()));
    let zero = ErrorPosition { line: 1, col: 0, size: 1, file_path: String::new() };
    assert_eq!(zero.get_line_slice("var"), None);
}

#[test]
fn severities_of_base_errors() {
    assert_eq!(BaseError::err("e".to_string()).kind, ErrorKind::Error);
    assert_eq!(BaseError::warn("w".to_string()).kind, ErrorKind::Warn);
    let mut sink = ErrorStorage::new();
    let critical = BaseError::critical("c".to_string(), &mut sink);
    assert_eq!(critical.kind, ErrorKind::Critical);
    assert_eq!(critical.str, "c");
    assert_eq!(sink.errs.len(), 1);
    assert_eq!(sink.errs[0].kind, ErrorKind::Critical);
    assert_eq!(sink.errs[0].str, "c");
    assert!(sink.errs[0].pos.is_none());
}

#[test]
fn only_critical_records_reach_the_sink() {
    let mut sink = ErrorStorage::new();
    let pos = ErrorPosition::new("a.qf".to_string(), 2, 1, 4);
    let plain = CompilerError::from_base(BaseError::err("e".to_string()), pos, &mut sink);
    assert_eq!(plain.kind, ErrorKind::Error);
    assert_eq!(plain.pos.as_ref().map(|p| (p.line, p.col, p.size)), Some((2, 1, 3)));
    assert!(sink.errs.is_empty());
    let _ = CompilerError::from_base_posless(BaseError::warn("w".to_string()), &mut sink);
    assert!(sink.errs.is_empty());
    let bad = BaseError { kind: ErrorKind::Critical, str: "boom".to_string() };
    let pos = ErrorPosition::new("a.qf".to_string(), 9, 2, 3);
    let recorded = CompilerError::from_base(bad, pos, &mut sink);
    assert_eq!(recorded.str, "boom");
    assert_eq!(sink.errs.len(), 1);
    assert_eq!(sink.errs[0].str, "boom");
    assert_eq!(sink.errs[0].pos.as_ref().map(|p| p.line), Some(9));
    let _ = CompilerError::from_base_posless(BaseError::err("later".to_string()), &mut sink);
    assert_eq!(sink.errs.len(), 1);
    assert_eq!(sink.errs[0].str, "boom");
}

#[test]
fn hash_of_a_name_is_that_of_the_default_hasher() {
    assert_eq!(utils_get_hash("func"), 17439195341824537259);
    assert_eq!(utils_get_hash("ret"), 9222097151127739705);
    assert_ne!(utils_get_hash("x"), utils_get_hash("y"));
}

#[test]
fn with_hash_keeps_its_hash_in_step() {
    let mut name = WithHash::new("abcdef".to_string());
    assert_eq!(name.hash, utils_get_hash("abcdef"));
    assert!(name.compare("abcdef".to_string()));
    assert!(!name.compare("abcdeg".to_string()));
    assert!(name.compare_hash(utils_get_hash("abcdef")));
    name.change("other".to_string());
    assert_eq!(name.val, "other");
    assert!(name.compare("other".to_string()));
    assert!(!name.compare_hash(utils_get_hash("abcdef")));
    let copy = name.duplicate();
    assert_eq!(copy, name);
}
