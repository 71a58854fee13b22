//! The categories of rare sats, and which of them a sat belongs to.

use vstd::prelude::*;
use vstd::string::StringExecFns;

use crate::decimal::decimal;
use crate::decimal::decimal_string;
use crate::text::chars_of;
use crate::text::same_text;

verus! {

/// The first sat of the Trump Casascius window.
pub const TRUMP_START: u64 = 215_041_381_749_581;

/// The last sat of the Trump Casascius window.
pub const TRUMP_END_INCLUSIVE: u64 = 215_041_481_749_580;

/// The first sat behind the Trump Casascius window.
pub const TRUMP_END_EXCLUSIVE: u64 = 215_041_481_749_581;

/// The first sat mined in block nine.
pub const BLOCK9_START: u64 = 45_000_000_000;

/// The last sat mined in block nine.
pub const BLOCK9_END_INCLUSIVE: u64 = 49_999_999_999;

/// A category of rare sats.
#[derive(Debug, Clone, Copy, PartialEq, Eq, PartialOrd, Ord, Structural)]
pub enum CategoryId {
    Block9,
    Palindrome,
    TrumpCasascius,
}

/// The text that was given as a category's name and is none.
#[derive(Debug)]
pub struct UnknownCategory {
    pub category_id: String,
}

/// Whether `s` reads the same from both ends.
pub open spec fn is_palindrome(s: Seq<char>) -> bool {
    s == s.reverse()
}

/// Whether `sat` lies in the Trump Casascius window.
pub open spec fn in_trump_window(sat: int) -> bool {
    TRUMP_START <= sat < TRUMP_END_EXCLUSIVE
}

/// Every category, in the order in which they are worked through.
pub open spec fn all_categories() -> Seq<CategoryId> {
    seq![CategoryId::Block9, CategoryId::Palindrome, CategoryId::TrumpCasascius]
}

/// The categories that `sat` belongs to, in the order of all of them.
pub open spec fn categories_of(sat: nat) -> Seq<CategoryId> {
    all_categories().filter(|c: CategoryId| c.holds(sat))
}

impl CategoryId {
    /// The name under which the category is stored and asked for.
    pub open spec fn name(self) -> Seq<char> {
        match self {
            CategoryId::Block9 => "block9"@,
            CategoryId::Palindrome => "palindrome"@,
            CategoryId::TrumpCasascius => "trump_casascius"@,
        }
    }

    /// Whether `sat` belongs to the category.
    pub open spec fn holds(self, sat: nat) -> bool {
        match self {
            CategoryId::Block9 => BLOCK9_START <= sat <= BLOCK9_END_INCLUSIVE,
            CategoryId::Palindrome => is_palindrome(decimal(sat)),
            CategoryId::TrumpCasascius => in_trump_window(sat as int),
        }
    }

    /// The name under which the category is stored and asked for.
    pub fn as_str(self) -> (s: &'static str)
        ensures
            s@ == self.name(),
    {
        match self {
            CategoryId::Block9 => "block9",
            CategoryId::Palindrome => "palindrome",
            CategoryId::TrumpCasascius => "trump_casascius",
        }
    }

    /// The category of that name. Any text that is no category's name is
    /// handed back as the error.
    pub fn from_str(s: &str) -> (r: Result<CategoryId, UnknownCategory>)
        ensures
            match r {
                Ok(c) => s@ == c.name(),
                Err(e) => e.category_id@ == s@ && forall|c: CategoryId| s@ != #[trigger] c.name(),
            },
    {
        if same_text(s, "block9") {
            Ok(CategoryId::Block9)
        } else if same_text(s, "palindrome") {
            Ok(CategoryId::Palindrome)
        } else if same_text(s, "trump_casascius") {
            Ok(CategoryId::TrumpCasascius)
        } else {
            Err(UnknownCategory { category_id: s.to_owned() })
        }
    }
}

impl UnknownCategory {
    /// What is told to whoever asked.
    pub fn message(&self) -> (m: String)
        ensures
            m@ == "unknown category_id `"@ + self.category_id@ + "`"@,
    {
        let mut m = "unknown category_id `".to_owned();
        m.append(self.category_id.as_str());
        m.append("`");
        m
    }
}

/// The first and the last sat of block nine.
pub fn block9_range() -> (r: (u64, u64))
    ensures
        r == (BLOCK9_START, BLOCK9_END_INCLUSIVE),
        r == (45_000_000_000u64, 49_999_999_999u64),
{
    (BLOCK9_START, BLOCK9_END_INCLUSIVE)
}

/// Whether the decimal notation of `n` reads the same from both ends.
pub fn is_palindrome_decimal(n: u64) -> (r: bool)
    ensures
        r == is_palindrome(decimal(n as nat)),
{
    let s = decimal_string(n);
    let v = chars_of(s.as_str());
    let len: usize = v.len();
    for i in 0..len
        invariant
            len == v@.len(),
            v@ == decimal(n as nat),
            forall|j: int| 0 <= j < i ==> v@[j] == v@.reverse()[j],
    {
        if v[i] != v[len - 1 - i] {
            assert(v@[i as int] != v@.reverse()[i as int]);
            return false;
        }
    }
    assert(v@ =~= v@.reverse());
    true
}

/// The categories that `sat` belongs to.
pub fn categories_for_sat(sat: u64) -> (out: Vec<CategoryId>)
    ensures
        out@ == categories_of(sat as nat),
{
    let mut out: Vec<CategoryId> = Vec::new();
    let (b9_start, b9_end) = block9_range();
    if b9_start <= sat && sat <= b9_end {
        out.push(CategoryId::Block9);
    }
    if is_palindrome_decimal(sat) {
        out.push(CategoryId::Palindrome);
    }
    if TRUMP_START <= sat && sat < TRUMP_END_EXCLUSIVE {
        out.push(CategoryId::TrumpCasascius);
    }
    proof {
        lemma_categories_of(sat as nat);
    }
    out
}

proof fn lemma_categories_of(sat: nat)
    ensures
        categories_of(sat) == (if CategoryId::Block9.holds(sat) {
            seq![CategoryId::Block9]
        } else {
            seq![]
        }) + (if CategoryId::Palindrome.holds(sat) {
            seq![CategoryId::Palindrome]
        } else {
            seq![]
        }) + (if CategoryId::TrumpCasascius.holds(sat) {
            seq![CategoryId::TrumpCasascius]
        } else {
            seq![]
        }),
{
    let f = |c: CategoryId| c.holds(sat);
    let a = all_categories();
    reveal_with_fuel(Seq::filter, 4);
    assert(a.drop_last() =~= seq![CategoryId::Block9, CategoryId::Palindrome]);
    assert(a.drop_last().drop_last() =~= seq![CategoryId::Block9]);
    assert(a.drop_last().drop_last().drop_last() =~= Seq::<CategoryId>::empty());
    assert(categories_of(sat) =~= (if f(CategoryId::Block9) {
        seq![CategoryId::Block9]
    } else {
        seq![]
    }) + (if f(CategoryId::Palindrome) {
        seq![CategoryId::Palindrome]
    } else {
        seq![]
    }) + (if f(CategoryId::TrumpCasascius) {
        seq![CategoryId::TrumpCasascius]
    } else {
        seq![]
    }));
}

/// A sat is listed under a category if and only if it belongs to it, and under
/// no category twice.
pub proof fn law_categories_listed_once(sat: nat)
    ensures
        forall|c: CategoryId| #[trigger] categories_of(sat).contains(c) <==> c.holds(sat),
        categories_of(sat).no_duplicates(),
{
    lemma_categories_of(sat);
    let s = categories_of(sat);
    assert forall|c: CategoryId| c.holds(sat) implies #[trigger] s.contains(c) by {
        match c {
            CategoryId::Block9 => assert(s[0] == c),
            CategoryId::Palindrome => assert(if CategoryId::Block9.holds(sat) {
                s[1] == c
            } else {
                s[0] == c
            }),
            CategoryId::TrumpCasascius => assert(s.last() == c),
        }
    }
}

/// The names tell the categories apart.
pub proof fn law_category_names_distinct(a: CategoryId, b: CategoryId)
    ensures
        a.name() == b.name() <==> a == b,
{
    reveal_strlit("block9");
    reveal_strlit("palindrome");
    reveal_strlit("trump_casascius");
    assert("block9"@.len() == 6);
    assert("palindrome"@.len() == 10);
    assert("trump_casascius"@.len() == 15);
}

/// The Trump Casascius window is one whole bitcoin of consecutive sats: a
/// hundred million of them, of which [`TRUMP_END_INCLUSIVE`] is the last.
pub proof fn law_trump_window(sat: nat)
    ensures
        CategoryId::TrumpCasascius.holds(sat) <==> TRUMP_START <= sat <= TRUMP_END_INCLUSIVE,
        TRUMP_END_EXCLUSIVE - TRUMP_START == 100_000_000,
{
}

/// Which categories a sat is in, and in which order they are listed: the sats of
/// block nine, those whose decimal digits read the same from both ends, and the
/// hundred million sats of the Trump Casascius window.
pub proof fn law_categories_of_a_sat(sat: nat)
    ensures
        ({
            let s = decimal(sat);
            let block9 = 45_000_000_000 <= sat && sat <= 49_999_999_999;
            let palindrome = forall|i: int|
                0 <= i < s.len() ==> #[trigger] s[i] == s[s.len() - 1 - i];
            let trump = 215_041_381_749_581 <= sat && sat <= 215_041_481_749_580;
            categories_of(sat) == (if block9 {
                seq![CategoryId::Block9]
            } else {
                Seq::<CategoryId>::empty()
            }) + (if palindrome {
                seq![CategoryId::Palindrome]
            } else {
                Seq::<CategoryId>::empty()
            }) + (if trump {
                seq![CategoryId::TrumpCasascius]
            } else {
                Seq::<CategoryId>::empty()
            })
        }),
{
    lemma_categories_of(sat);
    law_category_holds(sat);
}

/// When a sat is in a category.
pub proof fn law_category_holds(sat: nat)
    ensures
        CategoryId::Block9.holds(sat) <==> 45_000_000_000 <= sat && sat <= 49_999_999_999,
        CategoryId::Palindrome.holds(sat) <==> (forall|i: int|
            0 <= i < decimal(sat).len() ==> #[trigger] decimal(sat)[i] == decimal(sat)[decimal(
                sat,
            ).len() - 1 - i]),
        CategoryId::TrumpCasascius.holds(sat) <==> 215_041_381_749_581 <= sat && sat
            <= 215_041_481_749_580,
        forall|c: CategoryId| #[trigger] categories_of(sat).contains(c) <==> c.holds(sat),
{
    let s = decimal(sat);
    law_categories_listed_once(sat);
    if forall|i: int| 0 <= i < s.len() ==> #[trigger] s[i] == s[s.len() - 1 - i] {
        assert(s =~= s.reverse());
    }
    if is_palindrome(s) {
        assert forall|i: int| 0 <= i < s.len() implies #[trigger] s[i] == s[s.len() - 1 - i] by {
            assert(s.reverse()[i] == s[s.len() - 1 - i]);
        }
    }
}

/// The names of the categories.
pub proof fn law_category_names()
    ensures
        CategoryId::Block9.name() == "block9"@,
        CategoryId::Palindrome.name() == "palindrome"@,
        CategoryId::TrumpCasascius.name() == "trump_casascius"@,
{
}

} // verus!
