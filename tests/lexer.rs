use rrdl::rrdl::{parse, LexerToken};

#[test]
fn lexer_reads_segments() {
    assert_eq!(
        parse("a:B:"),
        Ok(vec![LexerToken::Segment, LexerToken::Segment])
    );
}

#[test]
fn lexer_accepts_empty_input() {
    assert_eq!(parse(""), Ok(vec![]));
}

#[test]
fn lexer_refuses_other_text() {
    assert_eq!(parse("a"), Err(()));
    assert_eq!(parse("1:"), Err(()));
    assert_eq!(parse("a: b:"), Err(()));
    assert_eq!(parse("ab"), Err(()));
}
