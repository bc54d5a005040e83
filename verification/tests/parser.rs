use light_ini::{IniError, IniHandler, IniParser};

#[derive(Debug)]
enum TestError {
    InvalidSection,
    InvalidOption,
}

/// Generic handler for tests.
///
/// Converts an ini file into a string where:
/// - section "[name]" is written <name>
/// - option "name = value" is written (name=value)
/// - comments are written /*comment*/
struct Handler {
    log: String,
}

impl Handler {
    fn new() -> Self {
        Handler { log: String::new() }
    }
}

impl IniHandler for Handler {
    type Error = TestError;

    fn section(&mut self, name: &str) -> Result<(), TestError> {
        if name == "invalid" {
            Err(TestError::InvalidSection)
        } else {
            self.log.push_str(&format!("<{}>", name));
            Ok(())
        }
    }

    fn option(&mut self, key: &str, value: &str) -> Result<(), TestError> {
        if key == "invalid" {
            Err(TestError::InvalidOption)
        } else {
            self.log.push_str(&format!("({}={})", key, value));
            Ok(())
        }
    }

    fn comment(&mut self, comment: &str) -> Result<(), TestError> {
        self.log.push_str(&format!("/*{}*/", comment));
        Ok(())
    }
}

fn to_lines(content: &str) -> Vec<String> {
    content.lines().map(|l| l.to_string()).collect()
}

fn read_ini(content: &str, start_comment: Option<char>) -> Result<String, IniError<TestError>> {
    let lines = to_lines(content);
    let mut parser = match start_comment {
        Some(ch) => IniParser::with_start_comment(Handler::new(), ch),
        None => IniParser::new(Handler::new()),
    };
    parser.parse_buffered(&lines)?;
    Ok(parser.into_handler().log)
}

const VALID_INI: &str = "name = test suite

; logging section
[logging]
level = error
";

#[test]
fn parse_valid_ini() {
    let result = read_ini(VALID_INI, None).unwrap();
    assert_eq!(
        "(name=test suite)/*logging section*/<logging>(level=error)",
        result
    );
}

const VALID_INI_ALT_COMMENT: &str = "# logging section
[logging]
level = error
";

#[test]
fn parse_valid_ini_alt_comment() {
    let result = read_ini(VALID_INI_ALT_COMMENT, Some('#')).unwrap();
    assert_eq!("/*logging section*/<logging>(level=error)", result);
}

const VALID_INI_UNICODE: &str = "[ŝipo]
ĵurnalo = ĉirkaŭ";

#[test]
fn parse_unicode_ini() {
    let result = read_ini(VALID_INI_UNICODE, None).unwrap();
    assert_eq!("<ŝipo>(ĵurnalo=ĉirkaŭ)", result);
}

const INVALID_SECTION: &str = "name = ok

[logging";

#[test]
fn parse_invalid_section() {
    let res = read_ini(INVALID_SECTION, None);
    assert!(matches!(res, Err(IniError::InvalidLine(3))));
}

const INVALID_OPTION: &str = "[logging]
level error";

#[test]
fn parse_invalid_option() {
    let res = read_ini(INVALID_OPTION, None);
    assert!(matches!(res, Err(IniError::InvalidLine(2))));
}

const UNEXPECTED_SECTION: &str = "name = test suite

[invalid]
level = error
";

/// Parse an ini file with a section considered as invalid by the handler.
#[test]
fn parse_unexpected_section() {
    let res = read_ini(UNEXPECTED_SECTION, None);
    assert!(matches!(
        res,
        Err(IniError::Handler(TestError::InvalidSection))
    ));
}

const UNEXPECTED_OPTION: &str = "[logging]
invalid = error
";

/// Parse an ini file with an option considered as invalid by the handler.
#[test]
fn parse_unexpected_option() {
    let res = read_ini(UNEXPECTED_OPTION, None);
    assert!(matches!(
        res,
        Err(IniError::Handler(TestError::InvalidOption))
    ));
}

/// A handler rejection aborts the parse, but the calls dispatched for the
/// lines before the rejected one remain applied.
#[test]
fn handler_rejection_keeps_prior_calls() {
    let lines = to_lines(UNEXPECTED_SECTION);
    let mut parser = IniParser::new(Handler::new());
    let res = parser.parse_buffered(&lines);
    assert!(matches!(
        res,
        Err(IniError::Handler(TestError::InvalidSection))
    ));
    assert_eq!("(name=test suite)", parser.handler().log);
}

/// Re-parsing the same input with a fresh handler yields the identical
/// call sequence.
#[test]
fn reparse_identical_calls() {
    let first = read_ini(VALID_INI, None).unwrap();
    let second = read_ini(VALID_INI, None).unwrap();
    assert_eq!(first, second);
}

/// Blank lines produce no handler call and no error.
#[test]
fn blank_lines_no_calls() {
    let lines = vec![String::new(), String::from("  \t  ")];
    let mut parser = IniParser::new(Handler::new());
    assert!(parser.parse_buffered(&lines).is_ok());
    assert_eq!("", parser.handler().log);
}

struct Counter {
    calls: usize,
}

impl IniHandler for Counter {
    type Error = TestError;

    fn section(&mut self, _name: &str) -> Result<(), TestError> {
        self.calls += 1;
        Ok(())
    }

    fn option(&mut self, _key: &str, _value: &str) -> Result<(), TestError> {
        self.calls += 1;
        Ok(())
    }

    fn comment(&mut self, _comment: &str) -> Result<(), TestError> {
        self.calls += 1;
        Ok(())
    }
}

/// The number of handler calls equals the number of well-formed,
/// non-blank lines.
#[test]
fn one_call_per_meaningful_line() {
    let lines = to_lines(VALID_INI);
    let mut parser = IniParser::new(Counter { calls: 0 });
    assert!(parser.parse_buffered(&lines).is_ok());
    assert_eq!(4, parser.handler().calls);
}

/// A handler that does not override `comment` ignores comment lines.
struct Quiet {
    log: String,
}

impl IniHandler for Quiet {
    type Error = TestError;

    fn section(&mut self, name: &str) -> Result<(), TestError> {
        self.log.push_str(&format!("<{}>", name));
        Ok(())
    }

    fn option(&mut self, key: &str, value: &str) -> Result<(), TestError> {
        self.log.push_str(&format!("({}={})", key, value));
        Ok(())
    }
}

#[test]
fn default_comment_is_no_op() {
    let lines = to_lines(VALID_INI);
    let mut parser = IniParser::new(Quiet { log: String::new() });
    assert!(parser.parse_buffered(&lines).is_ok());
    assert_eq!("(name=test suite)<logging>(level=error)", parser.handler().log);
}

/// An option line may carry an empty value.
#[test]
fn empty_value_allowed() {
    let result = read_ini("key =", None).unwrap();
    assert_eq!("(key=)", result);
}

/// A comment-prefix character of more than one byte never matches the
/// one-byte prefix inspection, so such a line falls through to option
/// handling.
#[test]
fn multibyte_comment_prefix_never_matches() {
    let lines = to_lines("ĉ note");
    let mut parser = IniParser::with_start_comment(Handler::new(), 'ĉ');
    let res = parser.parse_buffered(&lines);
    assert!(matches!(res, Err(IniError::InvalidLine(1))));
    assert_eq!("", parser.handler().log);
}

/// A handler that needs no detailed errors can use the provided
/// `IniHandlerError`.
struct Strict {
    sections: usize,
}

impl IniHandler for Strict {
    type Error = light_ini::IniHandlerError;

    fn section(&mut self, _name: &str) -> Result<(), Self::Error> {
        if self.sections == 0 {
            self.sections += 1;
            Ok(())
        } else {
            Err(light_ini::IniHandlerError {})
        }
    }

    fn option(&mut self, _key: &str, _value: &str) -> Result<(), Self::Error> {
        Ok(())
    }
}

#[test]
fn handler_error_type_usable() {
    let lines = to_lines("[a]\n[b]");
    let mut parser = IniParser::new(Strict { sections: 0 });
    let res = parser.parse_buffered(&lines);
    assert!(matches!(res, Err(IniError::Handler(_))));
    assert_eq!(1, parser.handler().sections);
}
