//! Destination formatter: expands a format string such as `dist/{0}/{1}.html`
//! by substituting each `{N}` placeholder with the capture at index `N`.
//!
//! The grammar is deliberately small: a placeholder is `{`, a decimal index,
//! `}`. A non-numeric key and an out-of-range index are both errors naming
//! the offending key; a brace that is not part of a placeholder is an error,
//! not a literal.

use vstd::prelude::*;

verus! {

use crate::ErrorKind;

/// An error while expanding a destination format string.
#[derive(Debug)]
pub enum FormatErrorKind {
    /// a placeholder key that is not a decimal number, such as `{x}` or `{}`
    NonNumericKey(String),
    /// a numeric placeholder key with no capture at that index
    KeyOutOfRange(String),
    /// a `{` without a closing `}`, or a bare `}`
    UnmatchedBrace,
}

/// Mathematical image of a `FormatErrorKind`.
pub ghost enum FormatErr {
    NonNumericKey(Seq<char>),
    KeyOutOfRange(Seq<char>),
    UnmatchedBrace,
}

impl View for FormatErrorKind {
    type V = FormatErr;

    open spec fn view(&self) -> FormatErr {
        match self {
            FormatErrorKind::NonNumericKey(k) => FormatErr::NonNumericKey(k@),
            FormatErrorKind::KeyOutOfRange(k) => FormatErr::KeyOutOfRange(k@),
            FormatErrorKind::UnmatchedBrace => FormatErr::UnmatchedBrace,
        }
    }
}

pub open spec fn is_digit(c: char) -> bool {
    48 <= c as u32 && c as u32 <= 57
}

pub open spec fn digit_value(c: char) -> int {
    c as u32 - 48
}

/// A key is numeric when it is non-empty and all digits.
pub open spec fn all_digits(s: Seq<char>) -> bool {
    s.len() > 0 && (forall|i: int| 0 <= i < s.len() ==> is_digit(#[trigger] s[i]))
}

/// The value of a sequence of decimal digits, most significant first.
pub open spec fn digits_value(s: Seq<char>) -> int
    decreases s.len(),
{
    if s.len() == 0 {
        0
    } else {
        digits_value(s.drop_last()) * 10 + digit_value(s.last())
    }
}

/// What `format` returns, on the view of its arguments: the format string is
/// scanned left to right; ordinary characters are copied; `{key}` is replaced
/// by the capture at the key's index.
pub open spec fn format_from(fmt: Seq<char>, caps: Seq<Seq<char>>) -> Result<Seq<char>, FormatErr>
    decreases fmt.len(), 1int,
{
    if fmt.len() == 0 {
        Ok(Seq::empty())
    } else if fmt[0] == '{' {
        format_key(fmt.skip(1), caps, Seq::empty())
    } else if fmt[0] == '}' {
        Err(FormatErr::UnmatchedBrace)
    } else {
        prepend(seq![fmt[0]], format_from(fmt.skip(1), caps))
    }
}

/// Scanning state inside a placeholder: `key` holds the characters seen since
/// the opening `{`; the placeholder ends at the first `}`.
pub open spec fn format_key(fmt: Seq<char>, caps: Seq<Seq<char>>, key: Seq<char>) -> Result<
    Seq<char>,
    FormatErr,
>
    decreases fmt.len(), 0int,
{
    if fmt.len() == 0 {
        Err(FormatErr::UnmatchedBrace)
    } else if fmt[0] == '}' {
        if !all_digits(key) {
            Err(FormatErr::NonNumericKey(key))
        } else if digits_value(key) >= caps.len() {
            Err(FormatErr::KeyOutOfRange(key))
        } else {
            prepend(caps[digits_value(key)], format_from(fmt.skip(1), caps))
        }
    } else {
        format_key(fmt.skip(1), caps, key.push(fmt[0]))
    }
}

/// Prefixes the success value of a formatting result.
pub open spec fn prepend(prefix: Seq<char>, r: Result<Seq<char>, FormatErr>) -> Result<
    Seq<char>,
    FormatErr,
> {
    match r {
        Ok(rest) => Ok(prefix + rest),
        Err(e) => Err(e),
    }
}

proof fn lemma_prepend_assoc(a: Seq<char>, b: Seq<char>, r: Result<Seq<char>, FormatErr>)
    ensures
        prepend(a, prepend(b, r)) == prepend(a + b, r),
{
    if r is Ok {
        assert(a + (b + r->Ok_0) =~= (a + b) + r->Ok_0);
    }
}

proof fn lemma_prepend_empty(r: Result<Seq<char>, FormatErr>)
    ensures
        prepend(Seq::empty(), r) == r,
{
    if r is Ok {
        assert(Seq::empty() + r->Ok_0 =~= r->Ok_0);
    }
}

proof fn lemma_digits_value_nonneg(s: Seq<char>)
    requires
        forall|i: int| 0 <= i < s.len() ==> is_digit(#[trigger] s[i]),
    ensures
        digits_value(s) >= 0,
    decreases s.len(),
{
    if s.len() > 0 {
        lemma_digits_value_nonneg(s.drop_last());
    }
}

/// The value of a digit string is at least the value of any of its prefixes.
proof fn lemma_digits_value_prefix(s: Seq<char>, j: int)
    requires
        forall|i: int| 0 <= i < s.len() ==> is_digit(#[trigger] s[i]),
        0 <= j <= s.len(),
    ensures
        digits_value(s) >= digits_value(s.take(j)),
    decreases s.len() - j,
{
    if j < s.len() {
        lemma_digits_value_prefix(s, j + 1);
        assert(s.take(j + 1).drop_last() =~= s.take(j));
        assert(s.take(j + 1).last() == s[j]);
        lemma_digits_value_nonneg(s.take(j));
    } else {
        assert(s.take(j) =~= s);
    }
}

/// Turns the characters of a string into a vector, one element per `char`.
///
/// Relies on `str::chars` and `FromIterator for Vec`: the characters of the
/// string, in order.
#[verifier::external_body]
fn str_chars(s: &str) -> (r: Vec<char>)
    ensures
        r@ == s@,
{
    s.chars().collect()
}

/// Builds a string whose characters are exactly the given vector.
///
/// Relies on `FromIterator for String`: the characters, in order.
#[verifier::external_body]
fn chars_to_string(v: &Vec<char>) -> (r: String)
    ensures
        r@ == v@,
{
    v.iter().collect()
}

/// Parses a placeholder key: `Ok(idx)` when the key is all digits and `idx`
/// is within `caps_len`, otherwise the matching format error.
fn parse_key(key: &Vec<char>, caps_len: usize) -> (r: Result<usize, FormatErrorKind>)
    ensures
        match r {
            Ok(idx) => all_digits(key@) && digits_value(key@) == idx && idx < caps_len,
            Err(e) => match e@ {
                FormatErr::NonNumericKey(k) => k == key@ && !all_digits(key@),
                FormatErr::KeyOutOfRange(k) => k == key@ && all_digits(key@) && digits_value(key@)
                    >= caps_len,
                FormatErr::UnmatchedBrace => false,
            },
        },
{
    let n = key.len();
    if n == 0 {
        return Err(FormatErrorKind::NonNumericKey(chars_to_string(key)));
    }
    let mut j: usize = 0;
    while j < n
        invariant
            0 <= j <= n,
            n == key@.len(),
            forall|i: int| 0 <= i < j ==> is_digit(#[trigger] key@[i]),
        decreases n - j,
    {
        let c = key[j];
        let u = c as u32;
        if !(48 <= u && u <= 57) {
            return Err(FormatErrorKind::NonNumericKey(chars_to_string(key)));
        }
        j += 1;
    }
    assert(all_digits(key@));
    let mut acc: usize = 0;
    let mut j: usize = 0;
    while j < n
        invariant
            0 <= j <= n,
            n == key@.len(),
            all_digits(key@),
            digits_value(key@.take(j as int)) == acc,
        decreases n - j,
    {
        let c = key[j];
        assert(is_digit(key@[j as int]));
        let du: u32 = (c as u32) - 48;
        let d: usize = du as usize;
        proof {
            assert(d == digit_value(key@[j as int]));
            assert(d <= 9);
            assert(key@.take(j as int + 1).drop_last() =~= key@.take(j as int));
            assert(key@.take(j as int + 1).last() == key@[j as int]);
        }
        if acc > (usize::MAX - d) / 10 {
            proof {
                assert(digits_value(key@.take(j as int + 1)) == acc * 10 + d);
                assert(acc * 10 + d > usize::MAX) by (nonlinear_arith)
                    requires
                        acc > (usize::MAX - d) / 10,
                        0 <= d <= 9,
                        acc >= 0,
                ;
                lemma_digits_value_prefix(key@, j as int + 1);
            }
            return Err(FormatErrorKind::KeyOutOfRange(chars_to_string(key)));
        }
        proof {
            assert(acc * 10 + d <= usize::MAX) by (nonlinear_arith)
                requires
                    acc <= (usize::MAX - d) / 10,
                    0 <= d <= 9,
                    acc >= 0,
            ;
        }
        acc = acc * 10 + d;
        j += 1;
    }
    proof {
        assert(key@.take(n as int) =~= key@);
    }
    if acc < caps_len {
        Ok(acc)
    } else {
        Err(FormatErrorKind::KeyOutOfRange(chars_to_string(key)))
    }
}

/// Expands a destination format string with the given captures.
///
/// `{N}` pulls the capture at index `N`; every other character stands for
/// itself; `{` without a numeric key and `}` outside a placeholder are
/// format errors.
pub fn format(fmt: &str, captures: &Vec<String>) -> (r: Result<String, ErrorKind>)
    ensures
        match format_from(fmt@, captures.deep_view()) {
            Ok(s) => r matches Ok(out) && out@ == s,
            Err(e) => r matches Err(ErrorKind::Format(k)) && k@ == e,
        },
{
    let ghost caps = captures.deep_view();
    let chars = str_chars(fmt);
    let n = chars.len();
    let mut out: Vec<char> = Vec::new();
    let mut i: usize = 0;
    proof {
        assert(fmt@.skip(0) =~= fmt@);
        lemma_prepend_empty(format_from(fmt@, caps));
    }
    while i < n
        invariant
            0 <= i <= n,
            n == fmt@.len(),
            chars@ == fmt@,
            caps == captures.deep_view(),
            format_from(fmt@, caps) == prepend(out@, format_from(fmt@.skip(i as int), caps)),
        decreases n - i,
    {
        proof {
            assert(fmt@.skip(i as int)[0] == fmt@[i as int]);
            assert(fmt@.skip(i as int).skip(1) =~= fmt@.skip(i as int + 1));
        }
        let c = chars[i];
        if c == '{' {
            // format_from(skip(i)) == format_key(skip(i + 1), empty key)
            let mut key: Vec<char> = Vec::new();
            let mut j: usize = i + 1;
            let mut closed = false;
            while !closed && j < n
                invariant
                    i + 1 <= j <= n,
                    n == fmt@.len(),
                    chars@ == fmt@,
                    caps == captures.deep_view(),
                    format_key(fmt@.skip(i as int + 1), caps, Seq::empty()) == format_key(
                        fmt@.skip(j as int),
                        caps,
                        key@,
                    ),
                    closed ==> j < n && fmt@[j as int] == '}',
                decreases n - j, (if closed { 0int } else { 1int }),
            {
                let kc = chars[j];
                if kc == '}' {
                    closed = true;
                } else {
                    proof {
                        assert(fmt@.skip(j as int)[0] == fmt@[j as int]);
                        assert(fmt@.skip(j as int).skip(1) =~= fmt@.skip(j as int + 1));
                    }
                    key.push(kc);
                    j += 1;
                }
            }
            if !closed {
                // unterminated placeholder: j == n
                proof {
                    assert(fmt@.skip(j as int).len() == 0);
                }
                return Err(ErrorKind::Format(FormatErrorKind::UnmatchedBrace));
            }
            // fmt[j] == '}'
            proof {
                assert(fmt@.skip(j as int)[0] == fmt@[j as int]);
                assert(fmt@.skip(j as int).skip(1) =~= fmt@.skip(j as int + 1));
            }
            match parse_key(&key, captures.len()) {
                Ok(idx) => {
                    let ghost out_snap = out@;
                    let cap_chars = str_chars(captures[idx].as_str());
                    proof {
                        assert(captures@[idx as int]@ == caps[idx as int]);
                    }
                    let m = cap_chars.len();
                    let mut k: usize = 0;
                    while k < m
                        invariant
                            0 <= k <= m,
                            m == cap_chars@.len(),
                            out@ == out_snap + cap_chars@.take(k as int),
                        decreases m - k,
                    {
                        out.push(cap_chars[k]);
                        proof {
                            assert(cap_chars@.take(k as int + 1) =~= cap_chars@.take(
                                k as int,
                            ).push(cap_chars@[k as int]));
                            assert(out_snap + cap_chars@.take(k as int + 1) =~= (out_snap
                                + cap_chars@.take(k as int)).push(cap_chars@[k as int]));
                        }
                        k += 1;
                    }
                    proof {
                        assert(cap_chars@.take(m as int) =~= cap_chars@);
                        lemma_prepend_assoc(
                            out_snap,
                            caps[digits_value(key@)],
                            format_from(fmt@.skip(j as int + 1), caps),
                        );
                        assert(out@ =~= out_snap + caps[digits_value(key@)]);
                    }
                    i = j + 1;
                },
                Err(e) => {
                    return Err(ErrorKind::Format(e));
                },
            }
        } else if c == '}' {
            return Err(ErrorKind::Format(FormatErrorKind::UnmatchedBrace));
        } else {
            let ghost out_snap = out@;
            out.push(c);
            proof {
                lemma_prepend_assoc(
                    out_snap,
                    seq![fmt@[i as int]],
                    format_from(fmt@.skip(i as int + 1), caps),
                );
                assert(out@ =~= out_snap + seq![fmt@[i as int]]);
            }
            i += 1;
        }
    }
    proof {
        assert(fmt@.skip(n as int).len() == 0);
        assert(out@ + Seq::<char>::empty() =~= out@);
    }
    Ok(chars_to_string(&out))
}

} // verus!
