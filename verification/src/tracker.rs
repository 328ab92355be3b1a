//! What is decided while the issues are fetched page by page: which address
//! to ask, how many pages there are, and which page comes next. The requests
//! themselves are the caller's.

use crate::extract::{group_of, group_text};
use crate::pattern::{built_from, captures, compile, pattern_captures, pattern_compiles};
use crate::text::chars_of;
use regex::Regex;
use vstd::prelude::*;
use vstd::string::StringExecFns;

verus! {

/// Where the repositories of the tracker are addressed.
pub const API_ROOT: &'static str = "https://api.github.com/repos/";

/// The query for all issues with a label, open or closed.
pub const ISSUES_QUERY: &'static str = "/issues?state=all&labels=";

/// The query part that selects a page.
pub const PAGE_QUERY: &'static str = "&page=";

/// In a `Link` header, the reference to the last page; group 1 is its number.
pub const LAST_PAGE_PATTERN: &'static str = "page=([0-9]+)>; rel=\"last\"";

/// The seconds to let pass before each further page is asked for.
pub const PAUSE_SECONDS: u64 = 5;

/// Why a `Link` header does not tell the number of pages.
#[derive(Clone, Copy, Debug, PartialEq, Eq, Structural)]
pub enum LinkError {
    /// The header names no last page.
    Unmatched,
    /// The number of the last page is no number that fits.
    NotANumber,
}

/// The decimal digit for `d`.
pub open spec fn digit_char(d: int) -> char {
    if d == 0 {
        '0'
    } else if d == 1 {
        '1'
    } else if d == 2 {
        '2'
    } else if d == 3 {
        '3'
    } else if d == 4 {
        '4'
    } else if d == 5 {
        '5'
    } else if d == 6 {
        '6'
    } else if d == 7 {
        '7'
    } else if d == 8 {
        '8'
    } else {
        '9'
    }
}

/// Whether `c` is one of the digits `0` to `9`.
pub open spec fn is_digit(c: char) -> bool {
    '0' <= c <= '9'
}

/// The value of the digit `c`.
pub open spec fn digit_value(c: char) -> int {
    c as u32 - '0' as u32
}

/// `n` in decimal digits, without leading zeros.
pub open spec fn decimal(n: nat) -> Seq<char>
    decreases n,
{
    if n < 10 {
        seq![digit_char(n as int)]
    } else {
        decimal(n / 10).push(digit_char((n % 10) as int))
    }
}

/// The number that a text of decimal digits stands for.
pub open spec fn value_of(digits: Seq<char>) -> nat
    decreases digits.len(),
{
    if digits.len() == 0 {
        0
    } else {
        (value_of(digits.drop_last()) * 10 + digit_value(digits.last())) as nat
    }
}

/// Whether the text is made of decimal digits only.
pub open spec fn all_digits(t: Seq<char>) -> bool {
    forall|i: int| 0 <= i < t.len() ==> is_digit(#[trigger] t[i])
}

/// The number that a text stands for: that of a non-empty text of decimal
/// digits whose value fits.
pub open spec fn parsed(t: Seq<char>) -> Option<usize> {
    if t.len() > 0 && all_digits(t) && value_of(t) <= usize::MAX {
        Some(value_of(t) as usize)
    } else {
        None
    }
}

/// The address that lists the issues of `repo` with `label`.
pub open spec fn issues_address(repo: Seq<char>, label: Seq<char>) -> Seq<char> {
    API_ROOT@ + repo + ISSUES_QUERY@ + label
}

/// The address of page `page` of that list.
pub open spec fn page_address(repo: Seq<char>, label: Seq<char>, page: nat) -> Seq<char> {
    issues_address(repo, label) + PAGE_QUERY@ + decimal(page)
}

/// The number of the last page, given what the pattern found in the header.
pub open spec fn page_in(groups: Option<Seq<Option<Seq<char>>>>) -> Result<usize, LinkError> {
    match group_of(groups, 1) {
        None => Err(LinkError::Unmatched),
        Some(t) => match parsed(t) {
            Some(n) => Ok(n),
            None => Err(LinkError::NotANumber),
        },
    }
}

/// The number of pages that an answer announces: none where the request
/// failed or the answer has no `Link` header.
pub open spec fn pages_announced(success: bool, link: Option<Seq<char>>) -> Result<usize, LinkError> {
    match link {
        Some(l) => if success {
            page_in(pattern_captures(LAST_PAGE_PATTERN@, l))
        } else {
            Ok(0usize)
        },
        None => Ok(0usize),
    }
}

/// The page to ask for after page `current` of `pages`, if there is one.
pub open spec fn page_after(current: usize, pages: usize) -> Option<usize> {
    if current < pages {
        Some((current + 1) as usize)
    } else {
        None
    }
}

/// A number in decimal digits stands for that number.
pub proof fn lemma_decimal_value(n: nat)
    ensures
        value_of(decimal(n)) == n,
        all_digits(decimal(n)),
        decimal(n).len() > 0,
    decreases n,
{
    let d = decimal(n);
    if n < 10 {
        assert(value_of(d.drop_last()) == 0);
    } else {
        lemma_decimal_value(n / 10);
        assert(d.drop_last() =~= decimal(n / 10));
        assert forall|i: int| 0 <= i < d.len() implies is_digit(#[trigger] d[i]) by {}
    }
}

/// More digits do not make a smaller number.
proof fn lemma_value_grows(t: Seq<char>, k: int)
    requires
        0 <= k <= t.len(),
        all_digits(t),
    ensures
        value_of(t.take(k)) <= value_of(t),
    decreases t.len(),
{
    if k == t.len() {
        assert(t.take(k) =~= t);
    } else {
        let head = t.drop_last();
        assert(head.take(k) =~= t.take(k));
        lemma_value_grows(head, k);
    }
}

/// The decimal digit for `d`.
fn digit(d: usize) -> (c: char)
    requires
        d < 10,
    ensures
        c == digit_char(d as int),
{
    if d == 0 {
        '0'
    } else if d == 1 {
        '1'
    } else if d == 2 {
        '2'
    } else if d == 3 {
        '3'
    } else if d == 4 {
        '4'
    } else if d == 5 {
        '5'
    } else if d == 6 {
        '6'
    } else if d == 7 {
        '7'
    } else if d == 8 {
        '8'
    } else {
        '9'
    }
}

/// Appends `n` in decimal digits.
pub fn push_decimal(s: &mut String, n: usize)
    ensures
        final(s)@ == old(s)@ + decimal(n as nat),
    decreases n,
{
    if n < 10 {
        s.push(digit(n));
    } else {
        push_decimal(s, n / 10);
        s.push(digit(n % 10));
    }
}

/// The number that a text stands for, if it is a non-empty text of decimal
/// digits whose value fits.
pub fn parse_decimal(t: &str) -> (r: Option<usize>)
    ensures
        r == parsed(t@),
{
    let chars = chars_of(t);
    if chars.len() == 0 {
        return None;
    }
    let mut value: usize = 0;
    let mut i: usize = 0;
    while i < chars.len()
        invariant
            i <= chars.len(),
            chars@ == t@,
            all_digits(chars@.take(i as int)),
            value == value_of(chars@.take(i as int)),
        decreases chars.len() - i,
    {
        let c = chars[i];
        let ghost now = chars@.take(i + 1);
        assert(now.drop_last() =~= chars@.take(i as int));
        if !('0' <= c && c <= '9') {
            return None;
        }
        let d: usize = (c as u32 - '0' as u32) as usize;
        assert forall|j: int| 0 <= j < now.len() implies is_digit(#[trigger] now[j]) by {}
        if value > (usize::MAX - d) / 10 {
            proof {
                if all_digits(t@) {
                    lemma_value_grows(t@, i + 1);
                }
            }
            return None;
        }
        value = value * 10 + d;
        i += 1;
    }
    assert(chars@.take(chars.len() as int) =~= chars@);
    Some(value)
}

/// The address that lists the issues of `repo` with `label`.
pub fn issues_url(repo: &str, label: &str) -> (url: String)
    ensures
        url@ == issues_address(repo@, label@),
{
    let mut url = API_ROOT.to_owned();
    url.append(repo);
    url.append(ISSUES_QUERY);
    url.append(label);
    url
}

/// The address of page `page` of that list.
pub fn page_url(repo: &str, label: &str, page: usize) -> (url: String)
    ensures
        url@ == page_address(repo@, label@, page as nat),
{
    let mut url = issues_url(repo, label);
    url.append(PAGE_QUERY);
    push_decimal(&mut url, page);
    url
}

/// The number of the last page, given what the pattern found in the header.
pub fn page_from(groups: &Option<Vec<Option<String>>>) -> (r: Result<usize, LinkError>)
    ensures
        r == page_in(groups.deep_view()),
{
    match group_text(groups, 1) {
        None => Err(LinkError::Unmatched),
        Some(t) => match parse_decimal(t.as_str()) {
            Some(n) => Ok(n),
            None => Err(LinkError::NotANumber),
        },
    }
}

/// The page to ask for after page `current` of `pages`, if there is one.
pub fn following_page(current: usize, pages: usize) -> (r: Option<usize>)
    ensures
        r == page_after(current, pages),
{
    if current < pages {
        Some(current + 1)
    } else {
        None
    }
}

/// Reads the number of pages out of `Link` headers.
pub struct LinkReader {
    last_page: Regex,
}

impl LinkReader {
    /// The compiled pattern is that of the last page.
    #[verifier::type_invariant]
    spec fn holds_pattern(self) -> bool {
        built_from(self.last_page) == Some(LAST_PAGE_PATTERN@)
    }

    /// Compiles the pattern. There is no reader where it does not compile.
    pub fn new() -> (r: Option<LinkReader>)
        ensures
            r is Some <==> pattern_compiles(LAST_PAGE_PATTERN@),
    {
        match compile(LAST_PAGE_PATTERN) {
            Ok(last_page) => Some(LinkReader { last_page }),
            Err(_) => None,
        }
    }

    /// The number of the last page that a `Link` header names.
    pub fn last_page(&self, link: &str) -> (r: Result<usize, LinkError>)
        ensures
            r == page_in(pattern_captures(LAST_PAGE_PATTERN@, link@)),
    {
        proof {
            use_type_invariant(self);
        }
        let groups = captures(&self.last_page, link);
        page_from(&groups)
    }

    /// The number of pages that an answer announces, given whether the
    /// request succeeded and the `Link` header of the answer, if it has one.
    pub fn page_count(&self, success: bool, link: Option<&str>) -> (r: Result<usize, LinkError>)
        ensures
            r == pages_announced(
                success,
                match link {
                    Some(l) => Some(l@),
                    None => None,
                },
            ),
    {
        match link {
            Some(l) => {
                if success {
                    self.last_page(l)
                } else {
                    Ok(0)
                }
            },
            None => Ok(0),
        }
    }
}

} // verus!
