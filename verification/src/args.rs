//! Command-line arguments and the numbers given in them.

use vstd::prelude::*;
use vstd::string::StringExecFns;

use crate::decimal::i32_number;
use crate::decimal::read_i32;
use crate::decimal::read_u64;
use crate::decimal::read_usize;
use crate::decimal::unsigned_number;
use crate::text::same_text;
use crate::text::text_of;
use crate::text::texts;

verus! {

/// A text that was to be a number and is none, with what it was given for.
#[derive(Debug)]
pub struct InvalidNumber {
    pub what: String,
    pub text: String,
}

impl InvalidNumber {
    /// What is wrong, in words.
    pub fn message(&self) -> (m: String)
        ensures
            m@ == "invalid "@ + self.what@ + ": "@ + self.text@,
    {
        let mut m = "invalid ".to_owned();
        m.append(self.what.as_str());
        m.append(": ");
        m.append(self.text.as_str());
        m
    }
}

/// The argument behind the first one that is `key`, where there is one.
pub open spec fn value_after(args: Seq<Seq<char>>, key: Seq<char>) -> Option<Seq<char>>
    decreases args.len(),
{
    if args.len() == 0 {
        None
    } else if args[0] != key {
        value_after(args.drop_first(), key)
    } else if args.len() > 1 {
        Some(args[1])
    } else {
        None
    }
}

/// The argument that follows the first `key`. Where the first `key` is the last
/// argument, there is none.
pub fn arg_value(args: &[String], key: &str) -> (r: Option<String>)
    ensures
        match r {
            Some(v) => value_after(texts(args@), key@) == Some(v@),
            None => value_after(texts(args@), key@) is None,
        },
{
    let ghost t = texts(args@);
    let n: usize = args.len();
    assert(t.skip(0) =~= t);
    for i in 0..n
        invariant
            n == args@.len(),
            t == texts(args@),
            value_after(t, key@) == value_after(t.skip(i as int), key@),
    {
        assert(t.skip(i as int)[0] == args@[i as int]@);
        if same_text(args[i].as_str(), key) {
            if i + 1 < n {
                assert(t.skip(i as int)[1] == args@[i + 1]@);
                return Some(args[i + 1].clone());
            }
            return None;
        }
        assert(t.skip(i as int).drop_first() =~= t.skip(i + 1));
    }
    None
}

/// Whether `key` is among the arguments.
pub fn has_flag(args: &[String], key: &str) -> (r: bool)
    ensures
        r == texts(args@).contains(key@),
{
    let ghost t = texts(args@);
    let n: usize = args.len();
    for i in 0..n
        invariant
            n == args@.len(),
            t == texts(args@),
            forall|j: int| 0 <= j < i ==> t[j] != key@,
    {
        assert(t[i as int] == args@[i as int]@);
        if same_text(args[i].as_str(), key) {
            return true;
        }
    }
    false
}

/// Reads `s`, which was given for `what`, as an unsigned 64-bit integer.
pub fn parse_u64(s: &str, what: &str) -> (r: Result<u64, InvalidNumber>)
    ensures
        match r {
            Ok(n) => unsigned_number(s@, u64::MAX as nat) == Some(n as nat),
            Err(e) => unsigned_number(s@, u64::MAX as nat) is None && e.what@ == what@ && e.text@
                == s@,
        },
{
    match read_u64(s) {
        Some(n) => Ok(n),
        None => Err(InvalidNumber { what: what.to_owned(), text: s.to_owned() }),
    }
}

/// Reads `s`, which was given for `what`, as a signed 32-bit integer.
pub fn parse_i32(s: &str, what: &str) -> (r: Result<i32, InvalidNumber>)
    ensures
        match r {
            Ok(n) => i32_number(s@) == Some(n),
            Err(e) => i32_number(s@) is None && e.what@ == what@ && e.text@ == s@,
        },
{
    match read_i32(s) {
        Some(n) => Ok(n),
        None => Err(InvalidNumber { what: what.to_owned(), text: s.to_owned() }),
    }
}

/// The text that was given, or the one that stands in for it.
pub open spec fn text_or(given: Option<Seq<char>>, default: Seq<char>) -> Seq<char> {
    match given {
        Some(s) => s,
        None => default,
    }
}

/// The unsigned integer that was given, or the one that stands in where none
/// was given, or no number, or one above `max`.
pub open spec fn unsigned_or(given: Option<Seq<char>>, max: nat, default: nat) -> nat {
    match given {
        Some(s) => match unsigned_number(s, max) {
            Some(n) => n,
            None => default,
        },
        None => default,
    }
}

/// The text that was given, or `default`.
pub fn string_or(given: Option<String>, default: &str) -> (r: String)
    ensures
        r@ == text_or(text_of(given), default@),
{
    match given {
        Some(s) => s,
        None => default.to_owned(),
    }
}

/// The number that was given, or `default` where it is none.
pub fn u64_or(given: Option<String>, default: u64) -> (r: u64)
    ensures
        r == unsigned_or(text_of(given), u64::MAX as nat, default as nat),
{
    match given {
        Some(s) => match read_u64(s.as_str()) {
            Some(n) => n,
            None => default,
        },
        None => default,
    }
}

/// The number that was given, or `default` where it is none.
pub fn usize_or(given: Option<String>, default: usize) -> (r: usize)
    ensures
        r == unsigned_or(text_of(given), usize::MAX as nat, default as nat),
{
    match given {
        Some(s) => match read_usize(s.as_str()) {
            Some(n) => n,
            None => default,
        },
        None => default,
    }
}

/// The number that was given, or `default` where it is none.
pub fn i32_or(given: Option<String>, default: i32) -> (r: i32)
    ensures
        r == match text_of(given) {
            Some(s) => match i32_number(s) {
                Some(n) => n,
                None => default,
            },
            None => default,
        },
{
    match given {
        Some(s) => match read_i32(s.as_str()) {
            Some(n) => n,
            None => default,
        },
        None => default,
    }
}

/// The value of an option is the argument behind the first one that is its key.
pub proof fn law_first_key_counts(args: Seq<Seq<char>>, key: Seq<char>, i: int)
    ensures
        (forall|j: int| 0 <= j < args.len() ==> #[trigger] args[j] != key) ==> value_after(args, key)
            is None,
        0 <= i < args.len() && args[i] == key && (forall|j: int|
            0 <= j < i ==> #[trigger] args[j] != key) ==> value_after(args, key) == (if i + 1
            < args.len() {
            Some(args[i + 1])
        } else {
            None
        }),
    decreases args.len(),
{
    if args.len() > 0 && args[0] != key {
        let rest = args.drop_first();
        law_first_key_counts(rest, key, i - 1);
        assert(forall|j: int| 0 <= j < rest.len() ==> #[trigger] rest[j] == args[j + 1]);
    }
}

/// What is given counts, and only where nothing usable is given what stands in.
pub proof fn law_given_before_default(s: Seq<char>, t: Seq<char>, max: nat, n: nat, k: nat)
    ensures
        text_or(Some(s), t) == s,
        text_or(None, t) == t,
        unsigned_or(None, max, n) == n,
        unsigned_number(s, max) is None ==> unsigned_or(Some(s), max, n) == n,
        unsigned_number(s, max) == Some(k) ==> unsigned_or(Some(s), max, n) == k,
{
}

} // verus!
