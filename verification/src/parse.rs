//! Reading a pair of values written with one separator between them.

use std::str::Chars;
use std::str::FromStr;
use vstd::prelude::*;
use vstd::std_specs::iter::IteratorSpec;
use vstd::string::StrSliceExecFns;

verus! {

broadcast use vstd::string::group_string_axioms;

/// Splits `s` at the first `separator`: the text before it and the text
/// after it. `None` where `s` holds no `separator`.
pub fn split_pair<'a>(s: &'a str, separator: char) -> (r: Option<(&'a str, &'a str)>)
    ensures
        match r {
            Some((left, right)) => {
                &&& s@ == left@ + seq![separator] + right@
                &&& !left@.contains(separator)
            },
            None => !s@.contains(separator),
        },
{
    let length: usize = s.unicode_len();
    let mut chars: Chars<'a> = s.chars();
    let mut index: usize = 0;
    loop
        invariant
            length == s@.len(),
            index <= length,
            chars.remaining() == s@.subrange(index as int, length as int),
            forall|k: int| 0 <= k < index ==> s@[k] != separator,
        decreases length - index,
    {
        match chars.next() {
            None => {
                return None;
            },
            Some(c) => {
                assert(c == s@[index as int]);
                if c == separator {
                    let left = s.substring_char(0, index);
                    let right = s.substring_char(index + 1, length);
                    proof {
                        assert(s@ =~= left@ + seq![separator] + right@);
                    }
                    return Some((left, right));
                }
                proof {
                    assert(s@.subrange(index as int, length as int).drop_first() =~= s@.subrange(
                        index + 1,
                        length as int,
                    ));
                }
                index += 1;
            },
        }
    }
}

/// Reads one value with `T`'s own `FromStr::from_str`; `None` where that
/// rejects the text. What a type accepts is its own business, so nothing
/// is claimed of the outcome.
#[verifier::external_body]
fn parse_value<T: FromStr>(text: &str) -> (r: Option<T>) {
    T::from_str(text).ok()
}

/// `value` is what a reading of `text` as a `T` gave: the value that `T`
/// accepted the text as, or `None` where it refused. This holds of what a
/// reading returned and of nothing else; which texts a type accepts, and
/// as what, is left open.
pub closed spec fn is_reading<T: FromStr>(text: &str, value: Option<T>) -> bool {
    call_ensures(parse_value::<T>, (text,), value)
}

/// The pair of two readings, if both succeeded.
pub open spec fn both_of<T>(left: Option<T>, right: Option<T>) -> Option<(T, T)> {
    match (left, right) {
        (Some(l), Some(r)) => Some((l, r)),
        _ => None,
    }
}

/// Joins the readings of the two sides: a pair only if both were read.
pub fn both<T>(left: Option<T>, right: Option<T>) -> (r: Option<(T, T)>)
    ensures
        r == both_of(left, right),
{
    match (left, right) {
        (Some(l), Some(r)) => Some((l, r)),
        _ => None,
    }
}

/// What reading `s` as a pair gives.
///
/// Without a `separator` in it, `s` is no pair. Otherwise the text before
/// the first `separator` and the text after it are read, each on its own
/// and in that order, and `result` is the pair of the two values where
/// both sides were accepted, `None` where either was refused.
pub open spec fn is_pair_reading<T: FromStr>(
    s: Seq<char>,
    separator: char,
    result: Option<(T, T)>,
) -> bool {
    if s.contains(separator) {
        exists|left: &str, right: &str, first: Option<T>, second: Option<T>|
            {
                &&& s == left@ + seq![separator] + right@
                &&& !left@.contains(separator)
                &&& #[trigger] is_reading(left, first)
                &&& #[trigger] is_reading(right, second)
                &&& result == both_of(first, second)
            }
    } else {
        result is None
    }
}

/// Reads `s` as two values of type `T` with one `separator` between them.
///
/// The text is split at the first `separator`; each side is read on its
/// own, and the result is `None` unless both sides are accepted. A text
/// without the separator is never a pair.
pub fn parse_pair<T: FromStr>(s: &str, separator: char) -> (r: Option<(T, T)>)
    ensures
        is_pair_reading(s@, separator, r),
{
    match split_pair(s, separator) {
        None => None,
        Some((left, right)) => {
            proof {
                assert(s@[left@.len() as int] == separator);
            }
            let first = parse_value::<T>(left);
            let second = parse_value::<T>(right);
            proof {
                assert(is_reading(left, first));
                assert(is_reading(right, second));
            }
            both(first, second)
        },
    }
}

/// Reads a point of the plane written as `RE,IM`: its real and its
/// imaginary part, in the number type of the caller's choice.
pub fn parse_complex<T: FromStr>(s: &str) -> (r: Option<(T, T)>)
    ensures
        is_pair_reading(s@, ',', r),
{
    parse_pair::<T>(s, ',')
}

} // verus!
