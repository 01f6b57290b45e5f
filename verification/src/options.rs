//! Per-statement option overrides: values given in a statement's `WITH`
//! clause take precedence over the session configuration.

use vstd::prelude::*;
use vstd::string::*;

verus! {

/// Whether a character is a decimal digit.
pub open spec fn is_digit(c: char) -> bool {
    '0' <= c && c <= '9'
}

/// The numeric value of a sequence of digit characters.
pub open spec fn dec_value(s: Seq<char>) -> int
    decreases s.len(),
{
    if s.len() == 0 {
        0
    } else {
        dec_value(s.drop_last()) * 10 + (s.last() as int - '0' as int)
    }
}

/// The digit part of a number string: an optional single leading plus
/// sign is not part of the value.
pub open spec fn digit_part(s: Seq<char>) -> Seq<char> {
    if s.len() > 0 && s[0] == '+' {
        s.drop_first()
    } else {
        s
    }
}

/// A string that `u32` parsing accepts, as `u32::from_str` does: an
/// optional leading plus sign, then one or more digits whose value fits.
pub open spec fn is_u32_decimal(s: Seq<char>) -> bool {
    &&& digit_part(s).len() > 0
    &&& (forall|i: int| 0 <= i < digit_part(s).len() ==> is_digit(#[trigger] digit_part(s)[i]))
    &&& dec_value(digit_part(s)) <= u32::MAX
}

proof fn lemma_dec_value_nonneg(s: Seq<char>)
    requires
        forall|i: int| 0 <= i < s.len() ==> is_digit(#[trigger] s[i]),
    ensures
        dec_value(s) >= 0,
    decreases s.len(),
{
    if s.len() > 0 {
        lemma_dec_value_nonneg(s.drop_last());
    }
}

proof fn lemma_dec_prefix_le(s: Seq<char>, i: int)
    requires
        forall|k: int| 0 <= k < s.len() ==> is_digit(#[trigger] s[k]),
        0 <= i <= s.len(),
    ensures
        dec_value(s.take(i)) <= dec_value(s),
    decreases s.len() - i,
{
    if i < s.len() {
        lemma_dec_prefix_le(s, i + 1);
        assert(s.take(i + 1).drop_last() =~= s.take(i));
        assert(forall|k: int| 0 <= k < s.take(i).len() ==> is_digit(#[trigger] s.take(i)[k]));
        lemma_dec_value_nonneg(s.take(i));
        assert(dec_value(s.take(i + 1)) == dec_value(s.take(i)) * 10 + (s[i] as int
            - '0' as int));
        assert(dec_value(s.take(i)) * 10 >= dec_value(s.take(i))) by (nonlinear_arith)
            requires
                dec_value(s.take(i)) >= 0,
        ;
    } else {
        assert(s.take(i) =~= s);
    }
}

/// Parse a `u32` from a string (optional plus sign, then digits) whose
/// value is known to fit.
pub fn parse_u32(s: &str) -> (r: u32)
    requires
        is_u32_decimal(s@),
    ensures
        r == dec_value(digit_part(s@)),
{
    let ghost digits = digit_part(s@);
    let n = s.unicode_len();
    let start: usize = if s.get_char(0) == '+' {
        1
    } else {
        0
    };
    proof {
        assert(digits =~= s@.skip(start as int));
    }
    let mut value: u32 = 0;
    let mut i: usize = start;
    proof {
        assert(digits.take(0) =~= Seq::<char>::empty());
    }
    while i < n
        invariant
            digits == digit_part(s@),
            is_u32_decimal(s@),
            n == s@.len(),
            start <= 1,
            digits == s@.skip(start as int),
            start <= i <= n,
            value == dec_value(digits.take(i - start)),
        decreases n - i,
    {
        let c = s.get_char(i);
        proof {
            assert(c == digits[i - start]);
        }
        let d: u32 = (c as u32) - ('0' as u32);
        proof {
            lemma_dec_prefix_le(digits, i + 1 - start);
            assert(digits.take(i + 1 - start).drop_last() =~= digits.take(i - start));
            assert(dec_value(digits.take(i + 1 - start)) == dec_value(digits.take(i - start))
                * 10 + d);
        }
        value = value * 10 + d;
        i = i + 1;
    }
    proof {
        assert(digits.take(n - start) =~= digits);
    }
    value
}

/// The position of the first entry with the given key, or -1.
pub open spec fn first_with_key(s: Seq<(String, String)>, key: Seq<char>) -> int
    decreases s.len(),
{
    if s.len() == 0 {
        -1
    } else if s.first().0@ == key {
        0
    } else {
        let r = first_with_key(s.drop_first(), key);
        if r < 0 {
            -1
        } else {
            r + 1
        }
    }
}

proof fn lemma_first_with_key_at(s: Seq<(String, String)>, key: Seq<char>, i: int)
    requires
        0 <= i < s.len(),
        s[i].0@ == key,
        forall|k: int| 0 <= k < i ==> (#[trigger] s[k]).0@ != key,
    ensures
        first_with_key(s, key) == i,
    decreases i,
{
    if i > 0 {
        lemma_first_with_key_at(s.drop_first(), key, i - 1);
    }
}

proof fn lemma_first_with_key_none(s: Seq<(String, String)>, key: Seq<char>)
    requires
        forall|k: int| 0 <= k < s.len() ==> (#[trigger] s[k]).0@ != key,
    ensures
        first_with_key(s, key) == -1,
    decreases s.len(),
{
    if s.len() > 0 {
        lemma_first_with_key_none(s.drop_first(), key);
    }
}

/// What a statement handler sees of its statement: the `WITH` options given
/// in the statement and the session's configured streaming rate limit.
pub struct HandlerArgs {
    pub with_options: Vec<(String, String)>,
    pub session_streaming_rate_limit: Option<u32>,
}

/// Options of the current statement that overwrite the session defaults.
#[derive(Debug, Clone, Default)]
pub struct OverwriteOptions {
    pub stream_rate_control: Option<u32>,
}

impl OverwriteOptions {
    /// Extract the streaming rate limit: a `streaming_rate_limit` entry in
    /// the statement's options wins and is removed from them; otherwise the
    /// session configuration applies.
    pub fn new(args: &mut HandlerArgs) -> (r: Self)
        requires
            first_with_key(old(args).with_options@, "streaming_rate_limit"@) >= 0
                ==> is_u32_decimal(
                old(args).with_options@[first_with_key(
                    old(args).with_options@,
                    "streaming_rate_limit"@,
                )].1@,
            ),
        ensures
            final(args).session_streaming_rate_limit == old(args).session_streaming_rate_limit,
            first_with_key(old(args).with_options@, "streaming_rate_limit"@) < 0 ==> {
                &&& final(args).with_options@ == old(args).with_options@
                &&& r.stream_rate_control == old(args).session_streaming_rate_limit
            },
            first_with_key(old(args).with_options@, "streaming_rate_limit"@) >= 0 ==> {
                let i = first_with_key(old(args).with_options@, "streaming_rate_limit"@);
                &&& final(args).with_options@ == old(args).with_options@.remove(i)
                &&& r.stream_rate_control matches Some(v) && v == dec_value(
                    digit_part(old(args).with_options@[i].1@),
                )
            },
    {
        let found = find_key(&args.with_options);
        let stream_rate_control = match found {
            Some(at) => {
                proof {
                    lemma_first_with_key_at(
                        args.with_options@,
                        "streaming_rate_limit"@,
                        at as int,
                    );
                }
                let entry = args.with_options.remove(at);
                Some(parse_u32(entry.1.as_str()))
            },
            None => {
                proof {
                    lemma_first_with_key_none(args.with_options@, "streaming_rate_limit"@);
                }
                args.session_streaming_rate_limit
            },
        };
        OverwriteOptions { stream_rate_control }
    }
}

/// The first option entry whose key is the streaming rate limit.
fn find_key(options: &Vec<(String, String)>) -> (r: Option<usize>)
    ensures
        match r {
            Some(i) => {
                &&& i < options@.len()
                &&& options@[i as int].0@ == "streaming_rate_limit"@
                &&& forall|k: int|
                    0 <= k < i ==> (#[trigger] options@[k]).0@ != "streaming_rate_limit"@
            },
            None => forall|k: int|
                0 <= k < options@.len() ==> (#[trigger] options@[k]).0@
                    != "streaming_rate_limit"@,
        },
{
    let key = String::from_str("streaming_rate_limit");
    let n = options.len();
    let mut i: usize = 0;
    while i < n
        invariant
            key@ == "streaming_rate_limit"@,
            n == options@.len(),
            0 <= i <= n,
            forall|k: int| 0 <= k < i ==> (#[trigger] options@[k]).0@ != "streaming_rate_limit"@,
        decreases n - i,
    {
        if options[i].0.eq(&key) {
            return Some(i);
        }
        i = i + 1;
    }
    None
}

} // verus!
