use vstd::prelude::*;

verus! {

/// The character for the decimal digit `d` (`0 <= d < 10`).
pub open spec fn digit_char(d: nat) -> char {
    (d + 48) as char
}

/// The decimal rendering of `n`, most significant digit first, as `{}` formats it.
pub open spec fn decimal(n: nat) -> Seq<char>
    decreases n,
{
    if n < 10 {
        seq![digit_char(n)]
    } else {
        decimal(n / 10).push(digit_char(n % 10))
    }
}

/// Appends one character to `s` (std's `String::push`).
#[verifier::external_body]
pub(crate) fn push_char(s: &mut String, c: char)
    ensures
        final(s)@ == old(s)@.push(c),
{
    s.push(c)
}

fn digit(d: u32) -> (c: char)
    requires
        d < 10,
    ensures
        c == digit_char(d as nat),
{
    match d {
        0 => '0',
        1 => '1',
        2 => '2',
        3 => '3',
        4 => '4',
        5 => '5',
        6 => '6',
        7 => '7',
        8 => '8',
        _ => '9',
    }
}

/// Appends the decimal rendering of `n` to `w`.
pub fn push_decimal(w: &mut String, n: u32)
    ensures
        final(w)@ == old(w)@ + decimal(n as nat),
    decreases n,
{
    if n < 10 {
        push_char(w, digit(n));
        assert(old(w)@ + decimal(n as nat) =~= old(w)@.push(digit_char(n as nat)));
    } else {
        push_decimal(w, n / 10);
        push_char(w, digit(n % 10));
        assert(old(w)@ + decimal(n as nat) =~= (old(w)@ + decimal((n / 10) as nat)).push(digit_char((n % 10) as nat)));
    }
}


/// Why a string is not the decimal rendering of a `u32` (the kinds that std's
/// `u32::from_str` reports).
#[derive(Clone, Copy, Debug, PartialEq, Eq, Structural)]
pub enum IntErrorKind {
    /// The string is empty.
    Empty,
    /// A character is not a decimal digit, or the string is a lone sign.
    InvalidDigit,
    /// The value exceeds `u32::MAX`.
    PosOverflow,
}

pub open spec fn is_digit(c: char) -> bool {
    48 <= (c as int) <= 57
}

/// The value of a run of decimal digits, read left to right as std does:
/// the first character that is no digit, or the first digit that makes the
/// value exceed `u32::MAX`, decides the error.
pub open spec fn digits_value(d: Seq<char>) -> Result<nat, IntErrorKind>
    decreases d.len(),
{
    if d.len() == 0 {
        Ok(0)
    } else {
        match digits_value(d.drop_last()) {
            Err(e) => Err(e),
            Ok(v) => if !is_digit(d.last()) {
                Err(IntErrorKind::InvalidDigit)
            } else if v * 10 + (d.last() as int - 48) > u32::MAX {
                Err(IntErrorKind::PosOverflow)
            } else {
                Ok((v * 10 + (d.last() as int - 48)) as nat)
            },
        }
    }
}

/// What `s.parse::<u32>()` gives: an optional leading `+`, then decimal digits.
pub open spec fn u32_from_decimal(s: Seq<char>) -> Result<u32, IntErrorKind> {
    if s.len() == 0 {
        Err(IntErrorKind::Empty)
    } else if s.len() == 1 && (s[0] == '+' || s[0] == '-') {
        Err(IntErrorKind::InvalidDigit)
    } else {
        let d = if s[0] == '+' { s.drop_first() } else { s };
        match digits_value(d) {
            Ok(v) => Ok(v as u32),
            Err(e) => Err(e),
        }
    }
}

proof fn lemma_digits_value_error_persists(d: Seq<char>, n: int)
    requires
        0 <= n <= d.len(),
        digits_value(d.take(n)) is Err,
    ensures
        digits_value(d) == digits_value(d.take(n)),
    decreases d.len() - n,
{
    if n < d.len() {
        assert(d.take(n + 1).drop_last() =~= d.take(n));
        lemma_digits_value_error_persists(d, n + 1);
    } else {
        assert(d.take(n) =~= d);
    }
}

proof fn lemma_digits_value_bounded(d: Seq<char>)
    ensures
        digits_value(d) matches Ok(v) ==> v <= u32::MAX,
    decreases d.len(),
{
    if d.len() > 0 {
        lemma_digits_value_bounded(d.drop_last());
    }
}

/// Parses a `u32` as `str::parse::<u32>` does.
pub fn parse_u32(s: &str) -> (r: Result<u32, IntErrorKind>)
    ensures
        r == u32_from_decimal(s@),
{
    let n = s.unicode_len();
    if n == 0 {
        return Err(IntErrorKind::Empty);
    }
    let first = s.get_char(0);
    if n == 1 && (first == '+' || first == '-') {
        return Err(IntErrorKind::InvalidDigit);
    }
    let start: usize = if first == '+' { 1 } else { 0 };
    let ghost d = if first == '+' { s@.drop_first() } else { s@ };
    assert(d =~= s@.subrange(start as int, n as int));
    assert(u32_from_decimal(s@) == match digits_value(d) {
        Ok(v) => Ok::<u32, IntErrorKind>(v as u32),
        Err(e) => Err(e),
    });
    let mut v: u64 = 0;
    let mut i: usize = start;
    assert(d.take(0) =~= Seq::<char>::empty());
    while i < n
        invariant
            start <= i <= n,
            n == s@.len(),
            d =~= s@.subrange(start as int, n as int),
            digits_value(d.take(i - start)) == Ok::<nat, IntErrorKind>(v as nat),
            v <= u32::MAX,
            u32_from_decimal(s@) == match digits_value(d) {
                Ok(v) => Ok::<u32, IntErrorKind>(v as u32),
                Err(e) => Err(e),
            },
        decreases n - i,
    {
        let c = s.get_char(i);
        let ghost k = (i - start) as int;
        assert(d.take(k + 1).drop_last() =~= d.take(k));
        assert(d.take(k + 1).last() == c);
        if !('0' <= c && c <= '9') {
            proof {
                lemma_digits_value_error_persists(d, k + 1);
            }
            return Err(IntErrorKind::InvalidDigit);
        }
        let next: u64 = v * 10 + (c as u64 - 48);
        if next > 4294967295u64 {
            proof {
                lemma_digits_value_error_persists(d, k + 1);
            }
            return Err(IntErrorKind::PosOverflow);
        }
        v = next;
        i = i + 1;
    }
    assert(d.take(n - start) =~= d);
    Ok(v as u32)
}

/// Rust keywords, which cannot name a field or a binding.
pub open spec fn is_keyword(n: Seq<char>) -> bool {
    ||| n == "as"@ ||| n == "break"@ ||| n == "const"@ ||| n == "continue"@
    ||| n == "crate"@ ||| n == "else"@ ||| n == "enum"@ ||| n == "extern"@
    ||| n == "false"@ ||| n == "fn"@ ||| n == "for"@ ||| n == "if"@
    ||| n == "impl"@ ||| n == "in"@ ||| n == "let"@ ||| n == "loop"@
    ||| n == "match"@ ||| n == "mod"@ ||| n == "move"@ ||| n == "mut"@
    ||| n == "pub"@ ||| n == "ref"@ ||| n == "return"@ ||| n == "self"@
    ||| n == "Self"@ ||| n == "static"@ ||| n == "struct"@ ||| n == "super"@
    ||| n == "trait"@ ||| n == "true"@ ||| n == "type"@ ||| n == "unsafe"@
    ||| n == "use"@ ||| n == "where"@ ||| n == "while"@ ||| n == "async"@
    ||| n == "await"@ ||| n == "dyn"@
}

/// An identifier made safe to use as a Rust field or binding name: a keyword
/// gets the suffix `_v`.
pub open spec fn safe_name(n: Seq<char>) -> Seq<char> {
    if is_keyword(n) { n + "_v"@ } else { n }
}

fn is_word(n: &String, w: &str) -> (b: bool)
    ensures
        b == (n@ == w@),
{
    *n == String::from_str(w)
}

fn keyword(n: &String) -> (b: bool)
    ensures
        b == is_keyword(n@),
{
    is_word(n, "as")
        || is_word(n, "break")
        || is_word(n, "const")
        || is_word(n, "continue")
        || is_word(n, "crate")
        || is_word(n, "else")
        || is_word(n, "enum")
        || is_word(n, "extern")
        || is_word(n, "false")
        || is_word(n, "fn")
        || is_word(n, "for")
        || is_word(n, "if")
        || is_word(n, "impl")
        || is_word(n, "in")
        || is_word(n, "let")
        || is_word(n, "loop")
        || is_word(n, "match")
        || is_word(n, "mod")
        || is_word(n, "move")
        || is_word(n, "mut")
        || is_word(n, "pub")
        || is_word(n, "ref")
        || is_word(n, "return")
        || is_word(n, "self")
        || is_word(n, "Self")
        || is_word(n, "static")
        || is_word(n, "struct")
        || is_word(n, "super")
        || is_word(n, "trait")
        || is_word(n, "true")
        || is_word(n, "type")
        || is_word(n, "unsafe")
        || is_word(n, "use")
        || is_word(n, "where")
        || is_word(n, "while")
        || is_word(n, "async")
        || is_word(n, "await")
        || is_word(n, "dyn")
}

/// Appends `n` made safe as a Rust identifier (see `safe_name`).
pub fn push_safe_name(w: &mut String, n: &String)
    ensures
        final(w)@ == old(w)@ + safe_name(n@),
{
    w.append(n.as_str());
    if keyword(n) {
        w.append("_v");
    }
    assert(final(w)@ =~= old(w)@ + safe_name(n@));
}

} // verus!
