use riscos::env::arg::{Named, String as StringArg, Switch};
use riscos::env::{new_syntax_string, prepare_args, ArgValue, Args, SyntaxError};

const LONG_NAME: [u8; 300] = [b'a'; 300];

#[test]
fn switch_syntax_and_result() {
    let request = prepare_args(Switch(b"verbose")).ok().unwrap();
    assert_eq!(request.syntax_string().as_slice(), b",verbose/S\0");
    assert_eq!(request.arg_count(), 2);
    assert_eq!(request.text_slots(), vec![false, false]);
    let values = vec![ArgValue::Word(0), ArgValue::Word(7)];
    assert_eq!(request.finish(true, &values), Some(true));
    let values = vec![ArgValue::Word(0), ArgValue::Word(0)];
    assert_eq!(request.finish(true, &values), Some(false));
}

#[test]
fn failed_read_gives_none() {
    let request = prepare_args(Switch(b"quiet")).ok().unwrap();
    assert_eq!(request.finish(false, &[]), None);
}

#[test]
fn named_strings_in_pair() {
    let request =
        prepare_args((Named(b"input", StringArg), Named(b"output", StringArg))).ok().unwrap();
    assert_eq!(request.syntax_string().as_slice(), b",input,output\0");
    assert_eq!(request.arg_count(), 3);
    assert_eq!(request.text_slots(), vec![false, true, true]);
    let values = vec![
        ArgValue::Word(0),
        ArgValue::Text(b"in.txt".to_vec()),
        ArgValue::Text(vec![0xe9, b'x']),
    ];
    let (input, output) = request.finish(true, &values).unwrap();
    assert_eq!(input, "in.txt");
    assert_eq!(output, "\u{e9}x");
}

#[test]
fn plain_string_adds_no_syntax() {
    let request = prepare_args(StringArg).ok().unwrap();
    assert_eq!(request.syntax_string().as_slice(), b",\0");
    assert_eq!(request.arg_count(), 2);
    let values = vec![ArgValue::Word(0), ArgValue::Text(b"host".to_vec())];
    assert_eq!(request.finish(true, &values).unwrap(), "host");
}

#[test]
fn nested_pairs_count_every_argument() {
    let request = prepare_args(((Switch(b"a"), Switch(b"b")), Named(b"c", StringArg)))
        .ok()
        .unwrap();
    assert_eq!(request.syntax_string().as_slice(), b",a/S,b/S,c\0");
    assert_eq!(request.arg_count(), 4);
    assert_eq!(request.text_slots(), vec![false, false, false, true]);
    let values = vec![
        ArgValue::Word(0),
        ArgValue::Word(1),
        ArgValue::Word(0),
        ArgValue::Text(b"z".to_vec()),
    ];
    let ((a, b), c) = request.finish(true, &values).unwrap();
    assert!(a);
    assert!(!b);
    assert_eq!(c, "z");
}

#[test]
fn invalid_identifier_is_refused() {
    assert!(matches!(prepare_args(Switch(b"no-dash")), Err(SyntaxError::InvalidIdentifier)));
    assert!(matches!(
        prepare_args(Named(b"x1", StringArg)),
        Err(SyntaxError::InvalidIdentifier)
    ));
}

#[test]
fn overlong_syntax_overflows() {
    assert!(matches!(prepare_args(Switch(&LONG_NAME)), Err(SyntaxError::Overflow)));
    // 252 name bytes + "/S" + the leading comma and the zero: 256 bytes, which fits.
    let request = prepare_args(Switch(&LONG_NAME[..252])).ok().unwrap();
    assert_eq!(request.syntax_string().as_slice().len(), 256);
    // One more byte does not.
    assert!(matches!(prepare_args(Switch(&LONG_NAME[..253])), Err(SyntaxError::Overflow)));
}

#[test]
fn add_to_syntax_appends_and_counts() {
    let mut syntax = new_syntax_string();
    let n = Args::add_to_syntax(&(Switch(b"s"), StringArg), &mut syntax).unwrap();
    assert_eq!(n, 2);
    assert_eq!(syntax.as_slice(), b"s/S,");
}

#[test]
fn add_to_syntax_fails_when_full() {
    let mut syntax = riscos::env::SyntaxString::new();
    syntax.extend_from_slice(&[b'x'; 255]).unwrap();
    assert!(Args::add_to_syntax(&Switch(b"ab"), &mut syntax).is_err());
    assert_eq!(syntax.len(), 255);
}

#[test]
fn read_result_returns_rest() {
    let values = vec![ArgValue::Word(1), ArgValue::Word(2), ArgValue::Word(3)];
    let (r, rest) = Args::read_result(&(Switch(b"a"), Switch(b"b")), &values);
    assert_eq!(r, (true, true));
    assert_eq!(rest.len(), 1);
}

#[test]
fn grouping_does_not_change_syntax() {
    let left = prepare_args(((Switch(b"a"), Named(b"b", StringArg)), Switch(b"c"))).ok().unwrap();
    let right = prepare_args((Switch(b"a"), (Named(b"b", StringArg), Switch(b"c")))).ok().unwrap();
    assert_eq!(left.syntax_string().as_slice(), right.syntax_string().as_slice());
    assert_eq!(left.arg_count(), right.arg_count());
    assert_eq!(left.text_slots(), right.text_slots());
}

#[test]
fn first_failure_in_building_order_decides() {
    // The long name is reached first and overflows before the bad name is checked.
    assert!(matches!(
        prepare_args((Switch(&LONG_NAME), Switch(b"bad-name"))),
        Err(SyntaxError::Overflow)
    ));
    // The bad name is reached before anything overflows.
    assert!(matches!(
        prepare_args((Switch(b"bad-name"), Switch(&LONG_NAME))),
        Err(SyntaxError::InvalidIdentifier)
    ));
    // A bad name inside a named argument is checked after the outer name fits.
    assert!(matches!(
        prepare_args(Named(&LONG_NAME[..100], Named(b"x.y", StringArg))),
        Err(SyntaxError::InvalidIdentifier)
    ));
    assert!(matches!(
        prepare_args(Named(&LONG_NAME, Named(b"x.y", StringArg))),
        Err(SyntaxError::Overflow)
    ));
}
