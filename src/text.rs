use vstd::prelude::*;
use vstd::string::{StrSliceExecFns, StringExecFns};

verus! {

/// The pattern that an email address must match.
pub const EMAIL_PATTERN: &'static str = "^\\S+@\\S+\\.\\S+$";

/// The characters that carry the Unicode `White_Space` property.
pub open spec fn is_white_space(c: char) -> bool {
    ||| '\u{9}' <= c <= '\u{d}'
    ||| c == ' '
    ||| c == '\u{85}'
    ||| c == '\u{a0}'
    ||| c == '\u{1680}'
    ||| '\u{2000}' <= c <= '\u{200a}'
    ||| c == '\u{2028}'
    ||| c == '\u{2029}'
    ||| c == '\u{202f}'
    ||| c == '\u{205f}'
    ||| c == '\u{3000}'
}

/// The shape of an email address: no white space, an `@` with at least one
/// character before it, and after it a `.` with at least one character on
/// each side. These are the strings that `EMAIL_PATTERN` matches.
pub open spec fn email_shape(s: Seq<char>) -> bool {
    &&& forall|k: int| 0 <= k < s.len() ==> !is_white_space(#[trigger] s[k])
    &&& exists|i: int, j: int|
        0 < i && i + 1 < j && j + 1 < s.len() && #[trigger] s[i] == '@' && #[trigger] s[j] == '.'
}

/// Relies on regex::Regex::new and Regex::is_match: `EMAIL_PATTERN` compiles,
/// and the compiled pattern matches a text exactly when it has the shape that
/// `email_shape` states (`\S` is any character outside Unicode `White_Space`).
#[verifier::external_body]
fn regex_is_match(pattern: &str, text: &str) -> (r: bool)
    requires
        pattern@ == EMAIL_PATTERN@,
    ensures
        r == email_shape(text@),
{
    regex::Regex::new(pattern).unwrap().is_match(text)
}

/// `s` holds exactly one `@`.
pub open spec fn one_at_sign(s: Seq<char>) -> bool {
    exists|i: int|
        0 <= i < s.len() && #[trigger] s[i] == '@' && forall|k: int|
            0 <= k < s.len() && #[trigger] s[k] == '@' ==> k == i
}

/// An acceptable email address: the shape that `EMAIL_PATTERN` describes,
/// with exactly one `@`.
pub open spec fn valid_email(s: Seq<char>) -> bool {
    email_shape(s) && one_at_sign(s)
}

/// Whether `email` holds exactly one `@`.
fn has_one_at_sign(email: &str) -> (r: bool)
    ensures
        r == one_at_sign(email@),
{
    let n = email.unicode_len();
    let mut seen: Option<usize> = None;
    let mut i: usize = 0;
    while i < n
        invariant
            n == email@.len(),
            i <= n,
            match seen {
                None => forall|k: int| 0 <= k < i ==> #[trigger] email@[k] != '@',
                Some(p) => p < i && email@[p as int] == '@' && forall|k: int|
                    0 <= k < i && #[trigger] email@[k] == '@' ==> k == p,
            },
        decreases n - i,
    {
        if email.get_char(i) == '@' {
            match seen {
                None => {
                    seen = Some(i);
                },
                Some(p) => {
                    proof {
                        if one_at_sign(email@) {
                            let j = choose|j: int|
                                0 <= j < email@.len() && #[trigger] email@[j] == '@' && forall|k: int|
                                    0 <= k < email@.len() && #[trigger] email@[k] == '@' ==> k == j;
                            assert(p as int == j);
                            assert(i as int == j);
                        }
                    }
                    return false;
                },
            }
        }
        i = i + 1;
    }
    match seen {
        None => {
            proof {
                if one_at_sign(email@) {
                    let j = choose|j: int|
                        0 <= j < email@.len() && #[trigger] email@[j] == '@' && forall|k: int|
                            0 <= k < email@.len() && #[trigger] email@[k] == '@' ==> k == j;
                    assert(email@[j] != '@');
                }
            }
            false
        },
        Some(p) => {
            assert(email@[p as int] == '@');
            true
        },
    }
}

/// Checks that `email` is an acceptable email address.
pub fn validate_email_format(email: &str) -> (r: Result<(), String>)
    ensures
        r is Ok <==> valid_email(email@),
        r matches Err(m) ==> m@ == "Invalid email format"@,
{
    if !regex_is_match(EMAIL_PATTERN, email) || !has_one_at_sign(email) {
        Err("Invalid email format".to_string())
    } else {
        Ok(())
    }
}

/// What `str::to_lowercase` returns for a text.
pub uninterp spec fn lower_of(s: Seq<char>) -> Seq<char>;

/// Relies on str::to_lowercase: the result depends on the characters alone.
#[verifier::external_body]
pub(crate) fn lowercase(s: &str) -> (r: String)
    ensures
        r@ == lower_of(s@),
{
    s.to_lowercase()
}

} // verus!

verus! {

/// The decimal digit for `d`, which is below ten.
pub open spec fn digit_char(d: nat) -> char {
    if d == 0 {
        '0'
    } else if d == 1 {
        '1'
    } else if d == 2 {
        '2'
    } else if d == 3 {
        '3'
    } else if d == 4 {
        '4'
    } else if d == 5 {
        '5'
    } else if d == 6 {
        '6'
    } else if d == 7 {
        '7'
    } else if d == 8 {
        '8'
    } else {
        '9'
    }
}

/// The decimal digits of `n`, most significant first, without leading zeros.
pub open spec fn decimal_of(n: nat) -> Seq<char>
    decreases n,
{
    if n < 10 {
        seq![digit_char(n)]
    } else {
        decimal_of(n / 10).push(digit_char(n % 10))
    }
}

fn digit_text(d: u64) -> (r: &'static str)
    requires
        d < 10,
    ensures
        r@ == seq![digit_char(d as nat)],
{
    proof {
        reveal_strlit("0");
        reveal_strlit("1");
        reveal_strlit("2");
        reveal_strlit("3");
        reveal_strlit("4");
        reveal_strlit("5");
        reveal_strlit("6");
        reveal_strlit("7");
        reveal_strlit("8");
        reveal_strlit("9");
    }
    let r = if d == 0 {
        "0"
    } else if d == 1 {
        "1"
    } else if d == 2 {
        "2"
    } else if d == 3 {
        "3"
    } else if d == 4 {
        "4"
    } else if d == 5 {
        "5"
    } else if d == 6 {
        "6"
    } else if d == 7 {
        "7"
    } else if d == 8 {
        "8"
    } else {
        "9"
    };
    assert(r@ =~= seq![digit_char(d as nat)]);
    r
}

/// `n` written in decimal.
pub fn decimal(n: u64) -> (r: String)
    ensures
        r@ == decimal_of(n as nat),
    decreases n,
{
    if n < 10 {
        String::from_str(digit_text(n))
    } else {
        let mut s = decimal(n / 10);
        s.append(digit_text(n % 10));
        assert(s@ =~= decimal_of(n as nat));
        s
    }
}

/// `head`, then `middle`, then `tail`.
pub fn join3(head: &str, middle: &str, tail: &str) -> (r: String)
    ensures
        r@ == head@ + middle@ + tail@,
{
    let mut r = String::from_str(head);
    r.append(middle);
    r.append(tail);
    r
}

} // verus!

verus! {

/// `head`, then `tail`.
pub fn join2(head: &str, tail: &str) -> (r: String)
    ensures
        r@ == head@ + tail@,
{
    let mut r = String::from_str(head);
    r.append(tail);
    r
}

} // verus!
