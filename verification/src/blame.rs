//! Parsing of blame file arguments that may carry a line or line-range
//! suffix, such as `src/lib.rs:10-20` or `src/lib.rs:7`.
//!
//! The text after the last colon is read as a range; when it does not
//! parse as one, the whole argument is taken as the path. A path that
//! itself ends in `:<digits>` is therefore read as a range; the parser
//! deliberately keeps that ambiguity rather than guessing.

use vstd::prelude::*;

verus! {

/// A decimal digit.
pub open spec fn is_digit(c: char) -> bool {
    48 <= c as int && c as int <= 57
}

/// Numeric value of a decimal digit.
pub open spec fn digit_value(c: char) -> int {
    c as int - 48
}

/// Whether every character of `s` is a decimal digit.
pub open spec fn all_digits(s: Seq<char>) -> bool {
    forall|i: int| 0 <= i < s.len() ==> is_digit(#[trigger] s[i])
}

/// The number denoted by a digit string, most significant digit first.
pub open spec fn digits_value(s: Seq<char>) -> int
    decreases s.len(),
{
    if s.len() == 0 {
        0
    } else {
        digits_value(s.drop_last()) * 10 + digit_value(s.last())
    }
}

/// What parsing a candidate line number yields: after an optional
/// leading plus sign, the string must be one or more decimal digits
/// denoting a value that fits in `u32`; anything else yields nothing.
pub open spec fn spec_parse_u32(s: Seq<char>) -> Option<u32> {
    let digits = if s.len() > 0 && s[0] == '+' {
        s.skip(1)
    } else {
        s
    };
    if digits.len() > 0 && all_digits(digits) && digits_value(digits) <= u32::MAX {
        Some(digits_value(digits) as u32)
    } else {
        None
    }
}

/// A digit string denotes a non-negative number.
pub proof fn lemma_digits_value_non_negative(s: Seq<char>)
    requires
        all_digits(s),
    ensures
        digits_value(s) >= 0,
    decreases s.len(),
{
    if s.len() > 0 {
        assert(all_digits(s.drop_last()));
        lemma_digits_value_non_negative(s.drop_last());
    }
}

/// Extending a digit string never shrinks the denoted number.
pub proof fn lemma_digits_value_prefix_le(s: Seq<char>, i: int)
    requires
        all_digits(s),
        0 <= i <= s.len(),
    ensures
        digits_value(s.take(i)) <= digits_value(s),
    decreases s.len() - i,
{
    if i == s.len() {
        assert(s.take(i) =~= s);
    } else {
        let t = s.take(i + 1);
        lemma_digits_value_prefix_le(s, i + 1);
        assert(all_digits(t));
        assert(t.drop_last() =~= s.take(i));
        lemma_digits_value_non_negative(s.take(i));
        assert(digits_value(t) == digits_value(s.take(i)) * 10 + digit_value(t.last()));
        assert(digits_value(s.take(i)) * 10 >= digits_value(s.take(i))) by {
            lemma_digits_value_non_negative(s.take(i));
        }
    }
}

/// Parses a whole string as a non-negative integer, as
/// [`spec_parse_u32`] describes: an optional leading plus sign, then one
/// or more decimal digits whose value fits in `u32`.
pub fn parse_u32(s: &str) -> (r: Option<u32>)
    ensures
        r == spec_parse_u32(s@),
{
    let n = s.unicode_len();
    let start: usize = if n > 0 && s.get_char(0) == '+' {
        1
    } else {
        0
    };
    let ghost digits = if s@.len() > 0 && s@[0] == '+' {
        s@.skip(1)
    } else {
        s@
    };
    proof {
        assert(digits.len() == n - start);
    }
    if n == start {
        return None;
    }
    let mut acc: u32 = 0;
    let mut i: usize = start;
    while i < n
        invariant
            start <= i <= n,
            n == s@.len(),
            start <= 1,
            digits == (if s@.len() > 0 && s@[0] == '+' {
                s@.skip(1)
            } else {
                s@
            }),
            digits.len() == n - start,
            forall|j: int| 0 <= j < digits.len() ==> digits[j] == s@[j + start],
            all_digits(digits.take(i - start)),
            acc == digits_value(digits.take(i - start)),
        decreases n - i,
    {
        let c = s.get_char(i);
        let cv = c as u32;
        if cv < 48 || cv > 57 {
            assert(!is_digit(digits[i - start]));
            return None;
        }
        let d: u32 = cv - 48;
        proof {
            assert(digits.take(i - start + 1).drop_last() =~= digits.take(i - start));
            assert(digits.take(i - start + 1).last() == digits[i - start]);
        }
        if acc > 429496729 || (acc == 429496729 && d > 5) {
            // The value of the digits seen so far already exceeds
            // `u32::MAX`, and a longer digit string denotes at least as
            // large a value; if some later character is not a digit,
            // parsing fails anyway.
            proof {
                assert(digits_value(digits.take(i - start + 1)) > u32::MAX);
                if all_digits(digits) {
                    lemma_digits_value_prefix_le(digits, i - start + 1);
                }
            }
            return None;
        }
        acc = acc * 10 + d;
        i += 1;
    }
    proof {
        assert(digits.take(n - start) =~= digits);
    }
    Some(acc)
}

/// Index of the last occurrence of `c` in `s`, if any.
pub fn rfind_char(s: &str, c: char) -> (r: Option<usize>)
    ensures
        r matches Some(i) ==> s@.index_of_last(c) == Some(i as int),
        r is None ==> s@.index_of_last(c) is None,
{
    let n = s.unicode_len();
    let mut i: usize = n;
    while i > 0
        invariant
            i <= n == s@.len(),
            forall|j: int| i <= j < s@.len() ==> s@[j] != c,
        decreases i,
    {
        i = i - 1;
        if s.get_char(i) == c {
            proof {
                s@.index_of_last_ensures(c);
            }
            return Some(i);
        }
    }
    proof {
        assert(!s@.contains(c));
        s@.index_of_last_ensures(c);
    }
    None
}

/// Index of the first occurrence of `c` in `s`, if any.
pub fn find_char(s: &str, c: char) -> (r: Option<usize>)
    ensures
        r matches Some(i) ==> s@.index_of_first(c) == Some(i as int),
        r is None ==> s@.index_of_first(c) is None,
{
    let n = s.unicode_len();
    let mut i: usize = 0;
    while i < n
        invariant
            i <= n == s@.len(),
            forall|j: int| 0 <= j < i ==> s@[j] != c,
        decreases n - i,
    {
        if s.get_char(i) == c {
            proof {
                s@.index_of_first_ensures(c);
            }
            return Some(i);
        }
        i = i + 1;
    }
    proof {
        assert(!s@.contains(c));
        s@.index_of_first_ensures(c);
    }
    None
}

/// The path and optional line range denoted by a blame file argument.
///
/// The text after the last colon is read as `start-end`, or as a single
/// line number standing for a one-line range. Without a colon, or when
/// the numbers do not parse, the whole argument is the path and there is
/// no range. An inverted range is passed through unvalidated.
pub open spec fn spec_blame_target(s: Seq<char>) -> (Seq<char>, Option<(u32, u32)>) {
    match s.index_of_last(':') {
        None => (s, None),
        Some(ci) => {
            let path = s.take(ci);
            let rest = s.skip(ci + 1);
            match rest.index_of_first('-') {
                Some(di) => match (spec_parse_u32(rest.take(di)), spec_parse_u32(
                    rest.skip(di + 1),
                )) {
                    (Some(a), Some(b)) => (path, Some((a, b))),
                    _ => (s, None),
                },
                None => match spec_parse_u32(rest) {
                    Some(line) => (path, Some((line, line))),
                    None => (s, None),
                },
            }
        },
    }
}

/// Splits a blame file argument into a path and an optional line range,
/// as [`spec_blame_target`] describes.
pub fn parse_file_with_line_range(file_arg: &str) -> (r: (String, Option<(u32, u32)>))
    ensures
        (r.0@, r.1) == spec_blame_target(file_arg@),
{
    let n = file_arg.unicode_len();
    match rfind_char(file_arg, ':') {
        None => (file_arg.to_owned(), None),
        Some(ci) => {
            proof {
                lemma_index_of_last_in_range(file_arg@, ':');
            }
            let range_part = file_arg.substring_char(ci + 1, n);
            proof {
                assert(range_part@ =~= file_arg@.skip(ci + 1));
            }
            match find_char(range_part, '-') {
                Some(di) => {
                    let m = range_part.unicode_len();
                    proof {
                        lemma_index_of_first_in_range(range_part@, '-');
                    }
                    let start_str = range_part.substring_char(0, di);
                    let end_str = range_part.substring_char(di + 1, m);
                    proof {
                        assert(start_str@ =~= range_part@.take(di as int));
                        assert(end_str@ =~= range_part@.skip(di + 1));
                    }
                    let start = parse_u32(start_str);
                    let end = parse_u32(end_str);
                    match (start, end) {
                        (Some(a), Some(b)) => {
                            let path = file_arg.substring_char(0, ci);
                            proof {
                                assert(path@ =~= file_arg@.take(ci as int));
                            }
                            (path.to_owned(), Some((a, b)))
                        },
                        (_, _) => (file_arg.to_owned(), None),
                    }
                },
                None => {
                    match parse_u32(range_part) {
                        Some(line) => {
                            let path = file_arg.substring_char(0, ci);
                            proof {
                                assert(path@ =~= file_arg@.take(ci as int));
                            }
                            (path.to_owned(), Some((line, line)))
                        },
                        None => (file_arg.to_owned(), None),
                    }
                },
            }
        },
    }
}

/// The query a wrapped `blame` invocation asks for: its first argument
/// split into path and line range. With no arguments there is no query —
/// that is a usage error.
pub fn plan_blame(args: &Vec<String>) -> (r: Option<(String, Option<(u32, u32)>)>)
    ensures
        match r {
            Some(t) => args.deep_view().len() > 0 && (t.0@, t.1) == spec_blame_target(
                args.deep_view()[0],
            ),
            None => args.deep_view().len() == 0,
        },
{
    if args.len() == 0 {
        None
    } else {
        proof {
            assert(args.deep_view()[0] == args@[0]@);
        }
        Some(parse_file_with_line_range(args[0].as_str()))
    }
}

/// When `index_of_last` finds an index, it lies inside the sequence.
pub proof fn lemma_index_of_last_in_range(s: Seq<char>, c: char)
    ensures
        s.index_of_last(c) matches Some(i) ==> 0 <= i < s.len(),
{
    s.index_of_last_ensures(c);
}

/// When `index_of_first` finds an index, it lies inside the sequence.
pub proof fn lemma_index_of_first_in_range(s: Seq<char>, c: char)
    ensures
        s.index_of_first(c) matches Some(i) ==> 0 <= i < s.len(),
{
    s.index_of_first_ensures(c);
}

} // verus!
