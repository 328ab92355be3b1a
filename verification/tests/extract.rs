use icedb::extract::{
    frames, group_text, version_of, Extractor, Section, BACKTRACE_PATTERN, FLAGS_PATTERN,
    ICE_MESSAGE_PATTERN, PANIC_MESSAGE_PATTERN, QUERY_STACK_PATTERN, VERSION_PATTERN,
};
use icedb::model::{Ice, RustcVersion};

fn owned(parts: &[&str]) -> Vec<String> {
    parts.iter().map(|p| p.to_string()).collect()
}

fn empty() -> Ice {
    Ice {
        backtrace: None,
        flags: None,
        ice_message: None,
        panic_message: None,
        query_stack: None,
        version: None,
    }
}

fn groups(parts: &[Option<&str>]) -> Option<Vec<Option<String>>> {
    Some(parts.iter().map(|p| p.map(|s| s.to_string())).collect())
}

const REPORT: &str = "### Code

```Rust
fn main() {}
```

### Meta

`rustc --version --verbose`:
```
rustc 1.68.0 (2c8cc3432 2023-03-06) (built from a source tarball)
binary: rustc
commit-hash: 2c8cc343237b8f7d5a3c3703e3a87f2eb2c54a74
commit-date: 2023-03-06
host: aarch64-apple-darwin
release: 1.68.0
LLVM version: 15.0.6
```

### Error output

```
error: internal compiler error: compiler/rustc_infer/src/infer/mod.rs:568:17: cannot relate bound region: a <= b
thread 'rustc' panicked at 'Box<dyn Any>', /rustc/2c8cc3432/compiler/rustc_errors/src/lib.rs:1644:9
stack backtrace:
   0:        0x10373bd1c - <std::sys_common::backtrace::_print::DisplayBacktrace as core::fmt::Display>::fmt::h5c2d00a9fd17401b
                               at /rustc/2c8cc3432/library/std/src/sys_common/backtrace.rs:45:22
  80:        0x1a3be9240 - __pthread_deallocate

note: compiler flags: -C embed-bitcode=no -C debuginfo=2

query stack during panic:
#0 [typeck] type-checking `longest_common_prefix`
#1 [typeck_item_bodies] type-checking all item bodies
#1 [typeck_item_bodies] type-checking all item bodies
end of query stack
```
";

#[test]
fn extractor_compiles() {
    assert!(Extractor::new().is_ok());
    for section in [
        Section::Backtrace,
        Section::Flags,
        Section::IceMessage,
        Section::PanicMessage,
        Section::QueryStack,
        Section::Version,
    ] {
        let rx = section.regex().unwrap();
        assert_eq!(rx.as_str(), section.pattern_text());
    }
}

#[test]
fn sections_have_their_patterns() {
    assert_eq!(Section::Backtrace.pattern_text(), BACKTRACE_PATTERN);
    assert_eq!(Section::Flags.pattern_text(), FLAGS_PATTERN);
    assert_eq!(Section::IceMessage.pattern_text(), ICE_MESSAGE_PATTERN);
    assert_eq!(Section::PanicMessage.pattern_text(), PANIC_MESSAGE_PATTERN);
    assert_eq!(Section::QueryStack.pattern_text(), QUERY_STACK_PATTERN);
    assert_eq!(Section::Version.pattern_text(), VERSION_PATTERN);
    assert_eq!(
        ICE_MESSAGE_PATTERN,
        r"(?mR)^error: internal compiler error: (?P<file>[^:]+):\d+:\d+: (?P<msg>.+)$"
    );
}

#[test]
fn message_alone_gives_message_only() {
    let extractor = Extractor::new().unwrap();
    let ice = extractor.extract("error: internal compiler error: foo.rs:1:2: boom");
    assert_eq!(ice, Ice { ice_message: Some(String::from("boom")), ..empty() });
    assert!(!ice.is_empty());
    assert!(!ice.is_strong());
}

#[test]
fn unmatched_text_gives_nothing() {
    let extractor = Extractor::new().unwrap();
    assert_eq!(extractor.extract(""), empty());
    assert_eq!(extractor.extract("it crashed, please fix"), empty());
    assert!(extractor.extract("Error: Internal Compiler Error: foo.rs:1:2: boom").is_empty());
    assert!(extractor.extract("  error: internal compiler error: foo.rs:1:2: boom").is_empty());
    assert!(extractor.extract("stack backtrace:\nno frames here").is_empty());
    assert!(extractor.extract("query stack during panic:\n#0 [typeck] a\n").is_empty());
}

#[test]
fn full_report_gives_every_field() {
    let extractor = Extractor::new().unwrap();
    let ice = extractor.extract(REPORT);
    assert_eq!(
        ice.backtrace,
        Some(owned(&[
            "0:        0x10373bd1c - <std::sys_common::backtrace::_print::DisplayBacktrace as core::fmt::Display>::fmt::h5c2d00a9fd17401b",
            "at /rustc/2c8cc3432/library/std/src/sys_common/backtrace.rs:45:22",
            "80:        0x1a3be9240 - __pthread_deallocate",
        ]))
    );
    assert_eq!(ice.flags, Some(owned(&["-C", "embed-bitcode=no", "-C", "debuginfo=2"])));
    assert_eq!(
        ice.ice_message,
        Some(String::from("cannot relate bound region: a <= b"))
    );
    assert_eq!(ice.panic_message, Some(String::from("Box<dyn Any>")));
    assert_eq!(
        ice.query_stack,
        Some(owned(&[
            "#0 [typeck] type-checking `longest_common_prefix`",
            "#1 [typeck_item_bodies] type-checking all item bodies",
            "#1 [typeck_item_bodies] type-checking all item bodies",
        ]))
    );
    assert_eq!(
        ice.version,
        Some(RustcVersion {
            commit_hash: String::from("2c8cc343237b8f7d5a3c3703e3a87f2eb2c54a74"),
            commit_date: String::from("2023-03-06"),
            host: String::from("aarch64-apple-darwin"),
            release: String::from("1.68.0"),
            llvm_version: String::from("15.0.6"),
        })
    );
    assert!(ice.is_strong());
}

#[test]
fn each_pattern_works_alone() {
    let extractor = Extractor::new().unwrap();
    assert_eq!(
        extractor.extract("note: compiler flags: -C opt-level=3"),
        Ice { flags: Some(owned(&["-C", "opt-level=3"])), ..empty() }
    );
    assert_eq!(
        extractor.extract("thread 'rustc' panicked at 'index out of bounds', src/lib.rs:3:4"),
        Ice { panic_message: Some(String::from("index out of bounds")), ..empty() }
    );
    assert_eq!(
        extractor.extract("query stack during panic:\n#0 [typeck] a\nend of query stack"),
        Ice { query_stack: Some(owned(&["#0 [typeck] a"])), ..empty() }
    );
    assert_eq!(
        extractor.extract("stack backtrace:\n   0: 0x1 - a\n   1: 0x2 - b"),
        Ice { backtrace: Some(owned(&["0: 0x1 - a", "1: 0x2 - b"])), ..empty() }
    );
}

#[test]
fn panic_message_ends_at_the_first_quote() {
    let extractor = Extractor::new().unwrap();
    let ice = extractor.extract("thread 'rustc' panicked at 'no entry', 'really', src/a.rs:1:1");
    assert_eq!(ice.panic_message, Some(String::from("no entry")));
    let ice = extractor.extract("thread 'rustc' panicked at 'no entry for 'x', really', src/a.rs:1:1");
    assert_eq!(ice.panic_message, None);
    let ice = extractor.extract(r"thread 'rustc' panicked at 'can\'t', a.rs:1:1");
    assert_eq!(ice.panic_message, Some(String::from(r"can\'t")));
    let ice = extractor.extract(r"thread 'rustc' panicked at 'no file C:\src\main.rs', a.rs:1:1");
    assert_eq!(ice.panic_message, Some(String::from(r"no file C:\src\main.rs")));
    let ice = extractor.extract(r"thread 'rustc' panicked at 'ends in \', a.rs:1:1");
    assert_eq!(ice.panic_message, None);
    let ice = extractor.extract(r"thread 'rustc' panicked at 'a \\', b', a.rs:1:1");
    assert_eq!(ice.panic_message, Some(String::from(r"a \\")));
    let ice = extractor.extract("thread 'main' panicked at 'no entry', src/a.rs:1:1");
    assert_eq!(ice.panic_message, None);
}

#[test]
fn carriage_returns_are_tolerated() {
    let extractor = Extractor::new().unwrap();
    let ice = extractor.extract(
        "query stack during panic:\r\n#0 [typeck] a\r\n#1 [analysis] b\r\nend of query stack\r\n",
    );
    assert_eq!(ice.query_stack, Some(owned(&["#0 [typeck] a", "#1 [analysis] b"])));
    let ice = extractor.extract("stack backtrace:\r\n   0: 0x1 - a\r\n   1: 0x2 - b\r\n");
    assert_eq!(ice.backtrace, Some(owned(&["0: 0x1 - a", "1: 0x2 - b"])));
    let ice = extractor.extract("error: internal compiler error: foo.rs:1:2: boom\r\nnote: compiler flags: -C debuginfo=2\r\n");
    assert_eq!(ice.ice_message, Some(String::from("boom")));
    assert_eq!(ice.flags, Some(owned(&["-C", "debuginfo=2"])));
}

#[test]
fn line_endings_do_not_change_the_signature() {
    let extractor = Extractor::new().unwrap();
    let unix = extractor.extract(REPORT);
    let dos = extractor.extract(&REPORT.replace("\n", "\r\n"));
    assert!(!unix.is_empty());
    assert_eq!(dos, unix);
}

#[test]
fn backtrace_has_one_entry_for_each_frame_line() {
    let extractor = Extractor::new().unwrap();
    let ice = extractor
        .extract("stack backtrace:\n   0: 0x1 - foo\n             at src/a.rs:1:2");
    assert_eq!(ice.backtrace, Some(owned(&["0: 0x1 - foo", "at src/a.rs:1:2"])));
    let ice = extractor.extract(
        "stack backtrace:\n   0: 0x1 - foo\n   1: 0x2 - bar\n\nnote: the block has ended\n   2: 0x3 - baz",
    );
    assert_eq!(ice.backtrace, Some(owned(&["0: 0x1 - foo", "1: 0x2 - bar"])));
    let ice = extractor.extract("stack backtrace:\n   at only/a/place.rs:1:2\nthe end");
    assert_eq!(ice.backtrace, Some(owned(&["at only/a/place.rs:1:2"])));
    assert_eq!(extractor.extract("stack backtrace:\n").backtrace, None);
    assert_eq!(extractor.extract("stack backtrace:\n0: not indented").backtrace, None);
}

#[test]
fn query_stack_ends_at_the_first_footer() {
    let extractor = Extractor::new().unwrap();
    let ice = extractor.extract(
        "query stack during panic:\n#0 [typeck] a\nend of query stack\nnote: retry\nend of query stack",
    );
    assert_eq!(ice.query_stack, Some(owned(&["#0 [typeck] a"])));
    let ice = extractor.extract(
        "query stack during panic:\n#0 [typeck] a\n#1 [analysis] b\nend of query stack\nquery stack during panic:\n#0 [typeck] c\nend of query stack\n",
    );
    assert_eq!(ice.query_stack, Some(owned(&["#0 [typeck] a", "#1 [analysis] b"])));
    let ice = extractor.extract(
        "query stack during panic:\r\n#0 [typeck] a\r\nend of query stack\r\n#1 late\r\nend of query stack\r\n",
    );
    assert_eq!(ice.query_stack, Some(owned(&["#0 [typeck] a"])));
    assert_eq!(
        extractor.extract("query stack during panic:\nend of query stack").query_stack,
        None
    );
}

#[test]
fn the_first_match_counts() {
    let extractor = Extractor::new().unwrap();
    let ice = extractor.extract(
        "error: internal compiler error: a.rs:1:2: first\nerror: internal compiler error: b.rs:3:4: second",
    );
    assert_eq!(ice.ice_message, Some(String::from("first")));
}

#[test]
fn signature_from_given_captures() {
    let none: Option<Vec<Option<String>>> = None;
    assert_eq!(Ice::from_captures(&none, &none, &none, &none, &none, &none), empty());
    let ice = Ice::from_captures(
        &groups(&[Some("whole"), Some("  0: a \n\tat b")]),
        &groups(&[Some("whole"), Some("-C  x")]),
        &groups(&[Some("whole"), Some("file.rs"), Some("the message")]),
        &groups(&[Some("whole"), Some("the panic")]),
        &groups(&[Some("whole"), Some("#0 a\r\n#0 a\n")]),
        &groups(&[Some("whole"), Some("h"), Some("d"), Some("o"), Some("r"), Some("l")]),
    );
    assert_eq!(
        ice,
        Ice {
            backtrace: Some(owned(&["0: a", "at b"])),
            flags: Some(owned(&["-C", "", "x"])),
            ice_message: Some(String::from("the message")),
            panic_message: Some(String::from("the panic")),
            query_stack: Some(owned(&["#0 a", "#0 a"])),
            version: Some(RustcVersion {
                commit_hash: String::from("h"),
                commit_date: String::from("d"),
                host: String::from("o"),
                release: String::from("r"),
                llvm_version: String::from("l"),
            }),
        }
    );
}

#[test]
fn a_group_that_took_no_part_leaves_the_field_absent() {
    let none: Option<Vec<Option<String>>> = None;
    let ice = Ice::from_captures(
        &groups(&[Some("whole"), None]),
        &groups(&[Some("whole")]),
        &groups(&[Some("whole"), Some("file.rs"), None]),
        &none,
        &groups(&[]),
        &groups(&[Some("whole"), Some("h"), Some("d"), None, Some("r"), Some("l")]),
    );
    assert_eq!(ice, empty());
}

#[test]
fn group_text_picks_by_place() {
    let g = groups(&[Some("ab"), None, Some("b")]);
    assert_eq!(group_text(&g, 0), Some(String::from("ab")));
    assert_eq!(group_text(&g, 1), None);
    assert_eq!(group_text(&g, 2), Some(String::from("b")));
    assert_eq!(group_text(&g, 3), None);
    assert_eq!(group_text(&None, 0), None);
}

#[test]
fn frames_are_trimmed_lines() {
    assert_eq!(frames("   0: a\r\n      at b  "), owned(&["0: a", "at b"]));
    assert_eq!(frames("   0: 0x1 - foo\n             at src/a.rs:1:2"), owned(&["0: 0x1 - foo", "at src/a.rs:1:2"]));
    assert_eq!(frames("0: a"), owned(&["0: a"]));
}

#[test]
fn version_needs_all_five_values() {
    assert_eq!(version_of(&None), None);
    assert_eq!(version_of(&groups(&[Some("w"), Some("1"), Some("2"), Some("3"), Some("4")])), None);
    assert_eq!(
        version_of(&groups(&[Some("w"), Some("1"), Some("2"), Some("3"), Some("4"), Some("5")])),
        Some(RustcVersion {
            commit_hash: String::from("1"),
            commit_date: String::from("2"),
            host: String::from("3"),
            release: String::from("4"),
            llvm_version: String::from("5"),
        })
    );
}
