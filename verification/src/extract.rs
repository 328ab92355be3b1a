//! From the text of a crash report to its signature.
//!
//! Each field of the signature has a pattern of its own, applied to the whole
//! text independently of the others. A pattern that matches nowhere leaves its
//! field absent; that is no error. Lines may end in a line feed or in a
//! carriage return and a line feed: the patterns take either, and neither
//! becomes part of a value.

use crate::model::{Ice, IceView, RustcVersion, RustcVersionView};
use crate::pattern::{built_from, captures, compile, pattern_captures, pattern_compiles};
use crate::text::{lines, lines_of, split, split_on, trim, trimmed};
use regex::Regex;
use vstd::prelude::*;

verus! {

/// The frame lines that follow `stack backtrace:`. Group 1 is the block from
/// the first frame line to the last, without the line break after the header.
pub const BACKTRACE_PATTERN: &'static str =
    r"(?mR)^stack backtrace:\r?\n(?P<backtrace>(?: +\d+:.+$| +at .+$)(?:\r?\n +\d+:.+$|\r?\n +at .+$)*)$";

/// The line `note: compiler flags: ...`; group 1 is the list of flags.
pub const FLAGS_PATTERN: &'static str = r"(?mR)^note: compiler flags: (?P<flags>.+)$";

/// The line `error: internal compiler error: file:line:column: message`;
/// group 1 is the file, group 2 the message.
pub const ICE_MESSAGE_PATTERN: &'static str =
    r"(?mR)^error: internal compiler error: (?P<file>[^:]+):\d+:\d+: (?P<msg>.+)$";

/// The line `thread 'rustc' panicked at 'message', place`; group 1 is the
/// message, which ends at the first quote that no backslash escapes.
pub const PANIC_MESSAGE_PATTERN: &'static str =
    r"(?mR)^thread 'rustc' panicked at '(?P<msg>(?:[^'\\]|\\.)+)', .+$";

/// The block between `query stack during panic:` and the first
/// `end of query stack` that follows it; group 1 is the block.
pub const QUERY_STACK_PATTERN: &'static str =
    r"(?msR)^query stack during panic:\r?\n(?P<stack>.+?)end of query stack$";

/// The block that the compiler prints about itself; groups 1 to 5 are the
/// commit hash, the commit date, the host, the release and the LLVM version.
pub const VERSION_PATTERN: &'static str =
    r"(?mR)^binary: .+\r?\ncommit-hash: (?P<commit_hash>.+)\r?\ncommit-date: (?P<commit_date>.+)\r?\nhost: (?P<host>.+)\r?\nrelease: (?P<release>.+)\r?\nLLVM version: (?P<llvm_version>.+)$";

/// The sections of a crash report that make up its signature.
#[derive(Clone, Copy, Debug, PartialEq, Eq, Structural)]
pub enum Section {
    Backtrace,
    Flags,
    IceMessage,
    PanicMessage,
    QueryStack,
    Version,
}

/// The pattern of a section could not be compiled.
#[derive(Clone, Copy, Debug, PartialEq, Eq, Structural)]
pub struct PatternError {
    pub section: Section,
}

impl Section {
    /// The pattern that finds this section.
    pub open spec fn pattern(self) -> Seq<char> {
        match self {
            Section::Backtrace => BACKTRACE_PATTERN@,
            Section::Flags => FLAGS_PATTERN@,
            Section::IceMessage => ICE_MESSAGE_PATTERN@,
            Section::PanicMessage => PANIC_MESSAGE_PATTERN@,
            Section::QueryStack => QUERY_STACK_PATTERN@,
            Section::Version => VERSION_PATTERN@,
        }
    }

    /// What the pattern of this section finds in `body`.
    pub open spec fn found(self, body: Seq<char>) -> Option<Seq<Option<Seq<char>>>> {
        pattern_captures(self.pattern(), body)
    }

    /// The pattern that finds this section.
    pub fn pattern_text(&self) -> (p: &'static str)
        ensures
            p@ == self.pattern(),
    {
        match self {
            Section::Backtrace => BACKTRACE_PATTERN,
            Section::Flags => FLAGS_PATTERN,
            Section::IceMessage => ICE_MESSAGE_PATTERN,
            Section::PanicMessage => PANIC_MESSAGE_PATTERN,
            Section::QueryStack => QUERY_STACK_PATTERN,
            Section::Version => VERSION_PATTERN,
        }
    }

    /// Compiles the pattern of this section.
    pub fn regex(&self) -> (r: Result<Regex, PatternError>)
        ensures
            r is Ok <==> pattern_compiles(self.pattern()),
            r matches Ok(rx) ==> built_from(rx) == Some(self.pattern()),
            r matches Err(e) ==> e.section == *self,
    {
        match compile(self.pattern_text()) {
            Ok(rx) => Ok(rx),
            Err(_) => Err(PatternError { section: *self }),
        }
    }
}

/// The text of group `index` among the groups of a match: absent where there
/// was no match, no such group, or the group took no part in the match.
pub open spec fn group_of(groups: Option<Seq<Option<Seq<char>>>>, index: int) -> Option<Seq<char>> {
    match groups {
        Some(g) => if 0 <= index < g.len() {
            g[index]
        } else {
            None
        },
        None => None,
    }
}

/// The compiler version out of the groups of the version pattern: present
/// where all five values are.
pub open spec fn version_from(groups: Option<Seq<Option<Seq<char>>>>) -> Option<RustcVersionView> {
    if group_of(groups, 1) is Some && group_of(groups, 2) is Some && group_of(groups, 3) is Some
        && group_of(groups, 4) is Some && group_of(groups, 5) is Some {
        Some(
            RustcVersionView {
                commit_hash: group_of(groups, 1)->0,
                commit_date: group_of(groups, 2)->0,
                host: group_of(groups, 3)->0,
                release: group_of(groups, 4)->0,
                llvm_version: group_of(groups, 5)->0,
            },
        )
    } else {
        None
    }
}

/// The lines of a backtrace block, each without surrounding white space.
pub open spec fn frames_of(block: Seq<char>) -> Seq<Seq<char>> {
    split_on(block, '\n').map_values(|l: Seq<char>| trimmed(l))
}

/// The crash signature, given what each of the six patterns found.
pub open spec fn fingerprint_from(
    backtrace: Option<Seq<Option<Seq<char>>>>,
    flags: Option<Seq<Option<Seq<char>>>>,
    ice_message: Option<Seq<Option<Seq<char>>>>,
    panic_message: Option<Seq<Option<Seq<char>>>>,
    query_stack: Option<Seq<Option<Seq<char>>>>,
    version: Option<Seq<Option<Seq<char>>>>,
) -> IceView {
    IceView {
        backtrace: match group_of(backtrace, 1) {
            Some(block) => Some(frames_of(block)),
            None => None,
        },
        flags: match group_of(flags, 1) {
            Some(list) => Some(split_on(list, ' ')),
            None => None,
        },
        ice_message: group_of(ice_message, 2),
        panic_message: group_of(panic_message, 1),
        query_stack: match group_of(query_stack, 1) {
            Some(block) => Some(lines_of(block)),
            None => None,
        },
        version: version_from(version),
    }
}

/// The crash signature of a report.
pub open spec fn fingerprint(body: Seq<char>) -> IceView {
    fingerprint_from(
        Section::Backtrace.found(body),
        Section::Flags.found(body),
        Section::IceMessage.found(body),
        Section::PanicMessage.found(body),
        Section::QueryStack.found(body),
        Section::Version.found(body),
    )
}

/// The text of group `index` among the groups of a match.
pub fn group_text(groups: &Option<Vec<Option<String>>>, index: usize) -> (r: Option<String>)
    ensures
        r.deep_view() == group_of(groups.deep_view(), index as int),
{
    match groups {
        Some(g) => {
            if index < g.len() {
                match &g[index] {
                    Some(s) => Some(s.clone()),
                    None => None,
                }
            } else {
                None
            }
        },
        None => None,
    }
}

/// The lines of a backtrace block, each without surrounding white space.
pub fn frames(block: &str) -> (r: Vec<String>)
    ensures
        r.deep_view() == frames_of(block@),
{
    let parts = split(block, '\n');
    let ghost want = frames_of(block@);
    let mut r: Vec<String> = Vec::new();
    let mut i: usize = 0;
    while i < parts.len()
        invariant
            i <= parts.len(),
            parts.deep_view() == split_on(block@, '\n'),
            want == frames_of(block@),
            r.deep_view() == want.take(i as int),
        decreases parts.len() - i,
    {
        let line = trim(parts[i].as_str());
        r.push(line);
        i += 1;
        assert(want.take(i as int) =~= want.take(i - 1).push(want[i - 1]));
    }
    r
}

/// The compiler version out of the groups of the version pattern.
pub fn version_of(groups: &Option<Vec<Option<String>>>) -> (r: Option<RustcVersion>)
    ensures
        (match r {
            Some(v) => Some(v@),
            None => None,
        }) == version_from(groups.deep_view()),
{
    let commit_hash = group_text(groups, 1);
    let commit_date = group_text(groups, 2);
    let host = group_text(groups, 3);
    let release = group_text(groups, 4);
    let llvm_version = group_text(groups, 5);
    match (commit_hash, commit_date, host, release, llvm_version) {
        (Some(commit_hash), Some(commit_date), Some(host), Some(release), Some(llvm_version)) => {
            Some(RustcVersion { commit_hash, commit_date, host, release, llvm_version })
        },
        _ => None,
    }
}

impl Ice {
    /// Puts the crash signature together from what each of the six patterns
    /// found in a report.
    pub fn from_captures(
        backtrace: &Option<Vec<Option<String>>>,
        flags: &Option<Vec<Option<String>>>,
        ice_message: &Option<Vec<Option<String>>>,
        panic_message: &Option<Vec<Option<String>>>,
        query_stack: &Option<Vec<Option<String>>>,
        version: &Option<Vec<Option<String>>>,
    ) -> (ice: Ice)
        ensures
            ice@ == fingerprint_from(
                backtrace.deep_view(),
                flags.deep_view(),
                ice_message.deep_view(),
                panic_message.deep_view(),
                query_stack.deep_view(),
                version.deep_view(),
            ),
    {
        Ice {
            backtrace: match group_text(backtrace, 1) {
                Some(block) => Some(frames(block.as_str())),
                None => None,
            },
            flags: match group_text(flags, 1) {
                Some(list) => Some(split(list.as_str(), ' ')),
                None => None,
            },
            ice_message: group_text(ice_message, 2),
            panic_message: group_text(panic_message, 1),
            query_stack: match group_text(query_stack, 1) {
                Some(block) => Some(lines(block.as_str())),
                None => None,
            },
            version: version_of(version),
        }
    }
}

/// The pattern for the backtrace, compiled.
pub fn backtrace_regex() -> (r: Result<Regex, PatternError>)
    ensures
        r is Ok <==> pattern_compiles(BACKTRACE_PATTERN@),
        r matches Ok(rx) ==> built_from(rx) == Some(BACKTRACE_PATTERN@),
        r matches Err(e) ==> e.section == Section::Backtrace,
{
    Section::Backtrace.regex()
}

/// The pattern for the compiler flags, compiled.
pub fn flags_regex() -> (r: Result<Regex, PatternError>)
    ensures
        r is Ok <==> pattern_compiles(FLAGS_PATTERN@),
        r matches Ok(rx) ==> built_from(rx) == Some(FLAGS_PATTERN@),
        r matches Err(e) ==> e.section == Section::Flags,
{
    Section::Flags.regex()
}

/// The pattern for the compiler's error message, compiled.
pub fn ice_message_regex() -> (r: Result<Regex, PatternError>)
    ensures
        r is Ok <==> pattern_compiles(ICE_MESSAGE_PATTERN@),
        r matches Ok(rx) ==> built_from(rx) == Some(ICE_MESSAGE_PATTERN@),
        r matches Err(e) ==> e.section == Section::IceMessage,
{
    Section::IceMessage.regex()
}

/// The pattern for the panic message, compiled.
pub fn panic_message_regex() -> (r: Result<Regex, PatternError>)
    ensures
        r is Ok <==> pattern_compiles(PANIC_MESSAGE_PATTERN@),
        r matches Ok(rx) ==> built_from(rx) == Some(PANIC_MESSAGE_PATTERN@),
        r matches Err(e) ==> e.section == Section::PanicMessage,
{
    Section::PanicMessage.regex()
}

/// The pattern for the query stack, compiled.
pub fn query_stack_regex() -> (r: Result<Regex, PatternError>)
    ensures
        r is Ok <==> pattern_compiles(QUERY_STACK_PATTERN@),
        r matches Ok(rx) ==> built_from(rx) == Some(QUERY_STACK_PATTERN@),
        r matches Err(e) ==> e.section == Section::QueryStack,
{
    Section::QueryStack.regex()
}

/// The pattern for the compiler version, compiled.
pub fn version_regex() -> (r: Result<Regex, PatternError>)
    ensures
        r is Ok <==> pattern_compiles(VERSION_PATTERN@),
        r matches Ok(rx) ==> built_from(rx) == Some(VERSION_PATTERN@),
        r matches Err(e) ==> e.section == Section::Version,
{
    Section::Version.regex()
}

impl Section {
    /// The place of this section among the six.
    pub open spec fn place(self) -> int {
        match self {
            Section::Backtrace => 0,
            Section::Flags => 1,
            Section::IceMessage => 2,
            Section::PanicMessage => 3,
            Section::QueryStack => 4,
            Section::Version => 5,
        }
    }
}

/// The six patterns, compiled once and used for every report.
pub struct Extractor {
    backtrace: Regex,
    flags: Regex,
    ice_message: Regex,
    panic_message: Regex,
    query_stack: Regex,
    version: Regex,
}

impl Extractor {
    /// Each compiled pattern is that of its section.
    #[verifier::type_invariant]
    spec fn holds_patterns(self) -> bool {
        &&& built_from(self.backtrace) == Some(Section::Backtrace.pattern())
        &&& built_from(self.flags) == Some(Section::Flags.pattern())
        &&& built_from(self.ice_message) == Some(Section::IceMessage.pattern())
        &&& built_from(self.panic_message) == Some(Section::PanicMessage.pattern())
        &&& built_from(self.query_stack) == Some(Section::QueryStack.pattern())
        &&& built_from(self.version) == Some(Section::Version.pattern())
    }

    /// Compiles the six patterns. Fails with the first section, in the order
    /// of the fields, whose pattern does not compile.
    pub fn new() -> (r: Result<Extractor, PatternError>)
        ensures
            r is Ok <==> forall|s: Section| pattern_compiles(s.pattern()),
            r matches Err(e) ==> {
                &&& !pattern_compiles(e.section.pattern())
                &&& forall|s: Section| s.place() < e.section.place() ==> pattern_compiles(s.pattern())
            },
    {
        let backtrace = match Section::Backtrace.regex() {
            Ok(rx) => rx,
            Err(e) => {
                return Err(e);
            },
        };
        let flags = match Section::Flags.regex() {
            Ok(rx) => rx,
            Err(e) => {
                return Err(e);
            },
        };
        let ice_message = match Section::IceMessage.regex() {
            Ok(rx) => rx,
            Err(e) => {
                return Err(e);
            },
        };
        let panic_message = match Section::PanicMessage.regex() {
            Ok(rx) => rx,
            Err(e) => {
                return Err(e);
            },
        };
        let query_stack = match Section::QueryStack.regex() {
            Ok(rx) => rx,
            Err(e) => {
                return Err(e);
            },
        };
        let version = match Section::Version.regex() {
            Ok(rx) => rx,
            Err(e) => {
                return Err(e);
            },
        };
        assert forall|s: Section| pattern_compiles(s.pattern()) by {
            match s {
                Section::Backtrace => {},
                Section::Flags => {},
                Section::IceMessage => {},
                Section::PanicMessage => {},
                Section::QueryStack => {},
                Section::Version => {},
            }
        }
        Ok(Extractor { backtrace, flags, ice_message, panic_message, query_stack, version })
    }

    /// The crash signature of a report. A section that the report does not
    /// have is absent from the signature.
    pub fn extract(&self, body: &str) -> (ice: Ice)
        ensures
            ice@ == fingerprint(body@),
    {
        proof {
            use_type_invariant(self);
        }
        let backtrace = captures(&self.backtrace, body);
        let flags = captures(&self.flags, body);
        let ice_message = captures(&self.ice_message, body);
        let panic_message = captures(&self.panic_message, body);
        let query_stack = captures(&self.query_stack, body);
        let version = captures(&self.version, body);
        Ice::from_captures(
            &backtrace,
            &flags,
            &ice_message,
            &panic_message,
            &query_stack,
            &version,
        )
    }
}

} // verus!
