//! The order in which crash signatures are listed: field by field in the order
//! of declaration, an absent field before a present one, lists and texts
//! lexicographically, characters by code point.

use crate::model::{Ice, IceView, RustcVersion, RustcVersionView};
use crate::text::chars_of;
use vstd::prelude::*;

verus! {

/// How one value stands to another in the order.
#[derive(Clone, Copy, Debug, PartialEq, Eq, Structural)]
pub enum Rank {
    Before,
    Same,
    After,
}

impl Rank {
    /// The rank seen from the other side.
    pub open spec fn flip(self) -> Rank {
        match self {
            Rank::Before => Rank::After,
            Rank::Same => Rank::Same,
            Rank::After => Rank::Before,
        }
    }

    /// This rank, or `next` where this one does not decide.
    pub open spec fn or(self, next: Rank) -> Rank {
        if self == Rank::Same {
            next
        } else {
            self
        }
    }
}

/// The order of two numbers.
pub open spec fn rank_int(a: int, b: int) -> Rank {
    if a < b {
        Rank::Before
    } else if a == b {
        Rank::Same
    } else {
        Rank::After
    }
}

/// The order of two characters: by code point.
pub open spec fn rank_char(a: char, b: char) -> Rank {
    rank_int(a as u32 as int, b as u32 as int)
}

/// The lexicographic order of two texts.
pub open spec fn rank_text(a: Seq<char>, b: Seq<char>) -> Rank
    decreases a.len(),
{
    if a.len() == 0 {
        if b.len() == 0 {
            Rank::Same
        } else {
            Rank::Before
        }
    } else if b.len() == 0 {
        Rank::After
    } else {
        rank_char(a[0], b[0]).or(rank_text(a.drop_first(), b.drop_first()))
    }
}

/// The lexicographic order of two lists of texts.
pub open spec fn rank_list(a: Seq<Seq<char>>, b: Seq<Seq<char>>) -> Rank
    decreases a.len(),
{
    if a.len() == 0 {
        if b.len() == 0 {
            Rank::Same
        } else {
            Rank::Before
        }
    } else if b.len() == 0 {
        Rank::After
    } else {
        rank_text(a[0], b[0]).or(rank_list(a.drop_first(), b.drop_first()))
    }
}

/// The order of two optional texts.
pub open spec fn rank_opt_text(a: Option<Seq<char>>, b: Option<Seq<char>>) -> Rank {
    match (a, b) {
        (None, None) => Rank::Same,
        (None, Some(_)) => Rank::Before,
        (Some(_), None) => Rank::After,
        (Some(x), Some(y)) => rank_text(x, y),
    }
}

/// The order of two optional lists of texts.
pub open spec fn rank_opt_list(a: Option<Seq<Seq<char>>>, b: Option<Seq<Seq<char>>>) -> Rank {
    match (a, b) {
        (None, None) => Rank::Same,
        (None, Some(_)) => Rank::Before,
        (Some(_), None) => Rank::After,
        (Some(x), Some(y)) => rank_list(x, y),
    }
}

/// The order of two compiler versions.
pub open spec fn rank_version(a: RustcVersionView, b: RustcVersionView) -> Rank {
    rank_text(a.commit_hash, b.commit_hash).or(
        rank_text(a.commit_date, b.commit_date).or(
            rank_text(a.host, b.host).or(
                rank_text(a.release, b.release).or(rank_text(a.llvm_version, b.llvm_version)),
            ),
        ),
    )
}

/// The order of two optional compiler versions.
pub open spec fn rank_opt_version(a: Option<RustcVersionView>, b: Option<RustcVersionView>) -> Rank {
    match (a, b) {
        (None, None) => Rank::Same,
        (None, Some(_)) => Rank::Before,
        (Some(_), None) => Rank::After,
        (Some(x), Some(y)) => rank_version(x, y),
    }
}

/// The order of two crash signatures.
#[verifier::opaque]
pub open spec fn rank_ice(a: IceView, b: IceView) -> Rank {
    rank_opt_list(a.backtrace, b.backtrace).or(
        rank_opt_list(a.flags, b.flags).or(
            rank_opt_text(a.ice_message, b.ice_message).or(
                rank_opt_text(a.panic_message, b.panic_message).or(
                    rank_opt_list(a.query_stack, b.query_stack).or(
                        rank_opt_version(a.version, b.version),
                    ),
                ),
            ),
        ),
    )
}

/// Two characters rank the same exactly when they are equal.
pub proof fn lemma_char_order(a: char, b: char)
    ensures
        rank_char(a, b) == Rank::Same <==> a == b,
        rank_char(b, a) == rank_char(a, b).flip(),
{
}

/// Two texts rank the same exactly when they are equal, and each way round
/// gives the opposite rank.
pub proof fn lemma_text_order(a: Seq<char>, b: Seq<char>)
    ensures
        rank_text(a, b) == Rank::Same <==> a == b,
        rank_text(b, a) == rank_text(a, b).flip(),
    decreases a.len(),
{
    if a.len() == 0 || b.len() == 0 {
        if a.len() == 0 && b.len() == 0 {
            assert(a =~= b);
        }
    } else {
        lemma_char_order(a[0], b[0]);
        lemma_text_order(a.drop_first(), b.drop_first());
        if a[0] == b[0] && a.drop_first() == b.drop_first() {
            assert(a =~= seq![a[0]] + a.drop_first());
            assert(b =~= seq![b[0]] + b.drop_first());
        }
    }
}

/// The order of texts is transitive.
pub proof fn lemma_text_transitive(a: Seq<char>, b: Seq<char>, c: Seq<char>)
    requires
        rank_text(a, b) == Rank::Before,
        rank_text(b, c) == Rank::Before,
    ensures
        rank_text(a, c) == Rank::Before,
    decreases a.len(),
{
    if a.len() > 0 && b.len() > 0 && c.len() > 0 {
        lemma_text_order(a.drop_first(), b.drop_first());
        lemma_text_order(b.drop_first(), c.drop_first());
        if rank_char(a[0], b[0]) == Rank::Same && rank_char(b[0], c[0]) == Rank::Same {
            lemma_text_transitive(a.drop_first(), b.drop_first(), c.drop_first());
        }
    }
}

/// Two lists rank the same exactly when they are equal, and each way round
/// gives the opposite rank.
pub proof fn lemma_list_order(a: Seq<Seq<char>>, b: Seq<Seq<char>>)
    ensures
        rank_list(a, b) == Rank::Same <==> a == b,
        rank_list(b, a) == rank_list(a, b).flip(),
    decreases a.len(),
{
    if a.len() == 0 || b.len() == 0 {
        if a.len() == 0 && b.len() == 0 {
            assert(a =~= b);
        }
    } else {
        lemma_text_order(a[0], b[0]);
        lemma_list_order(a.drop_first(), b.drop_first());
        if a[0] == b[0] && a.drop_first() == b.drop_first() {
            assert(a =~= seq![a[0]] + a.drop_first());
            assert(b =~= seq![b[0]] + b.drop_first());
        }
    }
}

/// The order of lists is transitive.
pub proof fn lemma_list_transitive(a: Seq<Seq<char>>, b: Seq<Seq<char>>, c: Seq<Seq<char>>)
    requires
        rank_list(a, b) == Rank::Before,
        rank_list(b, c) == Rank::Before,
    ensures
        rank_list(a, c) == Rank::Before,
    decreases a.len(),
{
    if a.len() > 0 && b.len() > 0 && c.len() > 0 {
        lemma_text_order(a[0], b[0]);
        lemma_text_order(b[0], c[0]);
        lemma_text_order(a[0], c[0]);
        if rank_text(a[0], b[0]) == Rank::Before && rank_text(b[0], c[0]) == Rank::Before {
            lemma_text_transitive(a[0], b[0], c[0]);
        }
        if rank_text(a[0], b[0]) == Rank::Same && rank_text(b[0], c[0]) == Rank::Same {
            lemma_list_transitive(a.drop_first(), b.drop_first(), c.drop_first());
        }
    }
}

/// What the order of optional texts rests on, for three of them.
proof fn lemma_opt_text_facts(a: Option<Seq<char>>, b: Option<Seq<char>>, c: Option<Seq<char>>)
    ensures
        rank_opt_text(a, b) == Rank::Same <==> a == b,
        rank_opt_text(b, a) == rank_opt_text(a, b).flip(),
        rank_opt_text(a, b) == Rank::Before && rank_opt_text(b, c) == Rank::Before
            ==> rank_opt_text(a, c) == Rank::Before,
{
    if let (Some(x), Some(y)) = (a, b) {
        lemma_text_order(x, y);
        if let Some(z) = c {
            if rank_text(x, y) == Rank::Before && rank_text(y, z) == Rank::Before {
                lemma_text_transitive(x, y, z);
            }
        }
    }
}

/// What the order of optional lists rests on, for three of them.
proof fn lemma_opt_list_facts(
    a: Option<Seq<Seq<char>>>,
    b: Option<Seq<Seq<char>>>,
    c: Option<Seq<Seq<char>>>,
)
    ensures
        rank_opt_list(a, b) == Rank::Same <==> a == b,
        rank_opt_list(b, a) == rank_opt_list(a, b).flip(),
        rank_opt_list(a, b) == Rank::Before && rank_opt_list(b, c) == Rank::Before
            ==> rank_opt_list(a, c) == Rank::Before,
{
    if let (Some(x), Some(y)) = (a, b) {
        lemma_list_order(x, y);
        if let Some(z) = c {
            if rank_list(x, y) == Rank::Before && rank_list(y, z) == Rank::Before {
                lemma_list_transitive(x, y, z);
            }
        }
    }
}

/// What the order of texts rests on, for three of them.
proof fn lemma_text_facts(a: Seq<char>, b: Seq<char>, c: Seq<char>)
    ensures
        rank_text(a, b) == Rank::Same <==> a == b,
        rank_text(b, a) == rank_text(a, b).flip(),
        rank_text(a, b) == Rank::Before && rank_text(b, c) == Rank::Before ==> rank_text(a, c)
            == Rank::Before,
{
    lemma_text_order(a, b);
    if rank_text(a, b) == Rank::Before && rank_text(b, c) == Rank::Before {
        lemma_text_transitive(a, b, c);
    }
}

/// What the order of compiler versions rests on, for three of them.
proof fn lemma_version_facts(a: RustcVersionView, b: RustcVersionView, c: RustcVersionView)
    ensures
        rank_version(a, b) == Rank::Same <==> a == b,
        rank_version(b, a) == rank_version(a, b).flip(),
        rank_version(a, b) == Rank::Before && rank_version(b, c) == Rank::Before ==> rank_version(
            a,
            c,
        ) == Rank::Before,
{
    lemma_text_facts(a.commit_hash, b.commit_hash, c.commit_hash);
    lemma_text_facts(a.commit_date, b.commit_date, c.commit_date);
    lemma_text_facts(a.host, b.host, c.host);
    lemma_text_facts(a.release, b.release, c.release);
    lemma_text_facts(a.llvm_version, b.llvm_version, c.llvm_version);
    lemma_text_facts(b.commit_hash, c.commit_hash, a.commit_hash);
    lemma_text_facts(b.commit_date, c.commit_date, a.commit_date);
    lemma_text_facts(b.host, c.host, a.host);
    lemma_text_facts(b.release, c.release, a.release);
    lemma_text_facts(b.llvm_version, c.llvm_version, a.llvm_version);
}

/// What the order of optional compiler versions rests on, for three of them.
proof fn lemma_opt_version_facts(
    a: Option<RustcVersionView>,
    b: Option<RustcVersionView>,
    c: Option<RustcVersionView>,
)
    ensures
        rank_opt_version(a, b) == Rank::Same <==> a == b,
        rank_opt_version(b, a) == rank_opt_version(a, b).flip(),
        rank_opt_version(a, b) == Rank::Before && rank_opt_version(b, c) == Rank::Before
            ==> rank_opt_version(a, c) == Rank::Before,
{
    if let (Some(x), Some(y)) = (a, b) {
        if let Some(z) = c {
            lemma_version_facts(x, y, z);
        } else {
            lemma_version_facts(x, y, x);
        }
    }
}

/// What the order of crash signatures rests on, for three of them.
proof fn lemma_ice_facts(a: IceView, b: IceView, c: IceView)
    ensures
        rank_ice(a, b) == Rank::Same <==> a == b,
        rank_ice(b, a) == rank_ice(a, b).flip(),
        rank_ice(a, b) == Rank::Before && rank_ice(b, c) == Rank::Before ==> rank_ice(a, c)
            == Rank::Before,
{
    reveal(rank_ice);
    lemma_opt_list_facts(a.backtrace, b.backtrace, c.backtrace);
    lemma_opt_list_facts(a.flags, b.flags, c.flags);
    lemma_opt_text_facts(a.ice_message, b.ice_message, c.ice_message);
    lemma_opt_text_facts(a.panic_message, b.panic_message, c.panic_message);
    lemma_opt_list_facts(a.query_stack, b.query_stack, c.query_stack);
    lemma_opt_version_facts(a.version, b.version, c.version);
    lemma_opt_list_facts(b.backtrace, c.backtrace, a.backtrace);
    lemma_opt_list_facts(b.flags, c.flags, a.flags);
    lemma_opt_text_facts(b.ice_message, c.ice_message, a.ice_message);
    lemma_opt_text_facts(b.panic_message, c.panic_message, a.panic_message);
    lemma_opt_list_facts(b.query_stack, c.query_stack, a.query_stack);
    lemma_opt_version_facts(b.version, c.version, a.version);
}

/// Two crash signatures rank the same exactly when every field is equal.
pub proof fn lemma_same_iff_equal(a: IceView, b: IceView)
    ensures
        rank_ice(a, b) == Rank::Same <==> a == b,
{
    lemma_ice_facts(a, b, a);
}

/// Seen from the other side the rank is the opposite one, so of two unequal
/// crash signatures exactly one comes before the other.
pub proof fn lemma_flip(a: IceView, b: IceView)
    ensures
        rank_ice(b, a) == rank_ice(a, b).flip(),
{
    lemma_ice_facts(a, b, a);
}

/// The order of crash signatures is transitive.
pub proof fn lemma_transitive(a: IceView, b: IceView, c: IceView)
    requires
        rank_ice(a, b) == Rank::Before,
        rank_ice(b, c) == Rank::Before,
    ensures
        rank_ice(a, c) == Rank::Before,
{
    lemma_ice_facts(a, b, c);
}

/// The order of two texts given by their characters.
fn rank_chars(a: &Vec<char>, b: &Vec<char>) -> (r: Rank)
    ensures
        r == rank_text(a@, b@),
{
    let mut i: usize = 0;
    assert(a@.skip(0) =~= a@ && b@.skip(0) =~= b@);
    while i < a.len() && i < b.len()
        invariant
            i <= a.len(),
            i <= b.len(),
            rank_text(a@, b@) == rank_text(a@.skip(i as int), b@.skip(i as int)),
        decreases a.len() - i,
    {
        let x: u32 = a[i] as u32;
        let y: u32 = b[i] as u32;
        if x < y {
            return Rank::Before;
        }
        if x > y {
            return Rank::After;
        }
        assert(a@.skip(i as int).drop_first() =~= a@.skip(i + 1));
        assert(b@.skip(i as int).drop_first() =~= b@.skip(i + 1));
        i += 1;
    }
    if i < b.len() {
        Rank::Before
    } else if i < a.len() {
        Rank::After
    } else {
        Rank::Same
    }
}

/// The lexicographic order of two texts, by code point.
pub fn rank_texts(a: &str, b: &str) -> (r: Rank)
    ensures
        r == rank_text(a@, b@),
{
    let x = chars_of(a);
    let y = chars_of(b);
    rank_chars(&x, &y)
}

/// The lexicographic order of two lists of texts.
pub fn rank_lists(a: &Vec<String>, b: &Vec<String>) -> (r: Rank)
    ensures
        r == rank_list(a.deep_view(), b.deep_view()),
{
    let ghost x = a.deep_view();
    let ghost y = b.deep_view();
    let mut i: usize = 0;
    assert(x.skip(0) =~= x && y.skip(0) =~= y);
    while i < a.len() && i < b.len()
        invariant
            i <= a.len(),
            i <= b.len(),
            x == a.deep_view(),
            y == b.deep_view(),
            rank_list(x, y) == rank_list(x.skip(i as int), y.skip(i as int)),
        decreases a.len() - i,
    {
        let r = rank_texts(a[i].as_str(), b[i].as_str());
        match r {
            Rank::Same => {},
            _ => {
                return r;
            },
        }
        assert(x.skip(i as int).drop_first() =~= x.skip(i + 1));
        assert(y.skip(i as int).drop_first() =~= y.skip(i + 1));
        i += 1;
    }
    if i < b.len() {
        Rank::Before
    } else if i < a.len() {
        Rank::After
    } else {
        Rank::Same
    }
}

/// The order of two optional texts: an absent one comes first.
fn rank_opt_texts(a: &Option<String>, b: &Option<String>) -> (r: Rank)
    ensures
        r == rank_opt_text(a.deep_view(), b.deep_view()),
{
    match (a, b) {
        (None, None) => Rank::Same,
        (None, Some(_)) => Rank::Before,
        (Some(_), None) => Rank::After,
        (Some(x), Some(y)) => rank_texts(x.as_str(), y.as_str()),
    }
}

/// The order of two optional lists: an absent one comes first.
fn rank_opt_lists(a: &Option<Vec<String>>, b: &Option<Vec<String>>) -> (r: Rank)
    ensures
        r == rank_opt_list(a.deep_view(), b.deep_view()),
{
    match (a, b) {
        (None, None) => Rank::Same,
        (None, Some(_)) => Rank::Before,
        (Some(_), None) => Rank::After,
        (Some(x), Some(y)) => rank_lists(x, y),
    }
}

impl Rank {
    /// Whether this rank leaves the order to what follows.
    pub fn is_same(&self) -> (r: bool)
        ensures
            r == (*self == Rank::Same),
    {
        match self {
            Rank::Same => true,
            _ => false,
        }
    }
}

impl RustcVersion {
    /// How this version stands to `other` in the order.
    pub fn rank(&self, other: &RustcVersion) -> (r: Rank)
        ensures
            r == rank_version(self@, other@),
    {
        let r = rank_texts(self.commit_hash.as_str(), other.commit_hash.as_str());
        if !r.is_same() {
            return r;
        }
        let r = rank_texts(self.commit_date.as_str(), other.commit_date.as_str());
        if !r.is_same() {
            return r;
        }
        let r = rank_texts(self.host.as_str(), other.host.as_str());
        if !r.is_same() {
            return r;
        }
        let r = rank_texts(self.release.as_str(), other.release.as_str());
        if !r.is_same() {
            return r;
        }
        rank_texts(self.llvm_version.as_str(), other.llvm_version.as_str())
    }
}

impl Ice {
    /// How this crash signature stands to `other` in the order.
    pub fn rank(&self, other: &Ice) -> (r: Rank)
        ensures
            r == rank_ice(self@, other@),
    {
        reveal(rank_ice);
        let r = rank_opt_lists(&self.backtrace, &other.backtrace);
        if !r.is_same() {
            return r;
        }
        let r = rank_opt_lists(&self.flags, &other.flags);
        if !r.is_same() {
            return r;
        }
        let r = rank_opt_texts(&self.ice_message, &other.ice_message);
        if !r.is_same() {
            return r;
        }
        let r = rank_opt_texts(&self.panic_message, &other.panic_message);
        if !r.is_same() {
            return r;
        }
        let r = rank_opt_lists(&self.query_stack, &other.query_stack);
        if !r.is_same() {
            return r;
        }
        match (&self.version, &other.version) {
            (None, None) => Rank::Same,
            (None, Some(_)) => Rank::Before,
            (Some(_), None) => Rank::After,
            (Some(x), Some(y)) => x.rank(y),
        }
    }

    /// Whether every field of this crash signature equals that of `other`.
    pub fn same(&self, other: &Ice) -> (r: bool)
        ensures
            r == (self@ == other@),
    {
        proof {
            lemma_same_iff_equal(self@, other@);
        }
        self.rank(other).is_same()
    }
}

} // verus!
