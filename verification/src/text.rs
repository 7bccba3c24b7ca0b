//! Character-level string helpers and the middle-ellipsis shortening used for
//! thumbnail captions.
use vstd::prelude::*;

verus! {

/// The ellipsis character that stands in for the dropped middle of a name.
pub open spec fn ellipsis() -> char {
    '\u{2026}'
}

/// The characters of `s`, in order.
pub fn chars_of(s: &str) -> (out: Vec<char>)
    ensures
        out@ == s@,
{
    let mut out: Vec<char> = Vec::new();
    for c in it: s.chars()
        invariant
            out@ == it.seq().subrange(0, it.index() as int),
    {
        out.push(c);
    }
    out
}

/// Appends one character to a `String` (`String::push`).
#[verifier::external_body]
fn push_char(s: &mut String, c: char)
    ensures
        final(s)@ == old(s)@.push(c),
{
    s.push(c);
}

/// Appends `chars[from..to]` to `out`.
pub fn push_range(out: &mut String, chars: &Vec<char>, from: usize, to: usize)
    requires
        from <= to <= chars.len(),
    ensures
        final(out)@ == old(out)@ + chars@.subrange(from as int, to as int),
{
    let ghost start = out@;
    let mut i = from;
    while i < to
        invariant
            from <= i <= to <= chars.len(),
            out@ == start + chars@.subrange(from as int, i as int),
        decreases to - i,
    {
        push_char(out, chars[i]);
        i = i + 1;
        assert(chars@.subrange(from as int, i as int) =~= chars@.subrange(from as int, i - 1).push(
            chars@[i - 1],
        ));
    }
}

/// A `String` holding exactly the given characters.
pub fn string_from_chars(chars: &Vec<char>) -> (out: String)
    ensures
        out@ == chars@,
{
    let mut out = String::new();
    push_range(&mut out, chars, 0, chars.len());
    assert(chars@.subrange(0, chars@.len() as int) =~= chars@);
    out
}

/// The character of a decimal digit.
pub open spec fn digit_char(d: nat) -> char {
    (48 + d) as char
}

/// The decimal representation of `n`, without leading zeros.
pub open spec fn decimal(n: nat) -> Seq<char>
    decreases n,
{
    if n < 10 {
        seq![digit_char(n)]
    } else {
        decimal(n / 10).push(digit_char(n % 10))
    }
}

/// Appends the decimal representation of `n` to `out`.
pub fn push_decimal(out: &mut String, n: u64)
    ensures
        final(out)@ == old(out)@ + decimal(n as nat),
    decreases n,
{
    if n >= 10 {
        push_decimal(out, n / 10);
    }
    let d = (n % 10) as u8;
    push_char(out, (48u8 + d) as char);
    proof {
        if n >= 10 {
            assert(decimal(n as nat) == decimal((n / 10) as nat).push(digit_char((n % 10) as nat)));
        }
    }
}

/// `s` shortened to at most `max` characters: when it is longer, the middle is
/// replaced by an ellipsis, keeping the first `ceil((max - 1) / 2)` and the
/// last `floor((max - 1) / 2)` characters. A `max` of 1 leaves room for the
/// ellipsis alone, and a `max` of 0 for nothing.
pub open spec fn spec_middle_ellipsis(s: Seq<char>, max: nat) -> Seq<char> {
    if s.len() <= max {
        s
    } else if max == 0 {
        seq![]
    } else if max == 1 {
        seq![ellipsis()]
    } else {
        let keep = (max - 1) as nat;
        let front = (keep + 1) / 2;
        let back = keep - front;
        s.subrange(0, front as int) + seq![ellipsis()] + s.subrange(s.len() - back, s.len() as int)
    }
}

/// Shortens a string to at most `max` characters, dropping from the middle and
/// inserting an ellipsis so both the start and the end (a file's extension)
/// stay visible.
pub fn middle_ellipsis(s: &str, max: usize) -> (out: String)
    ensures
        out@ == spec_middle_ellipsis(s@, max as nat),
{
    let chars = chars_of(s);
    let n = chars.len();
    if n <= max {
        return string_from_chars(&chars);
    }
    let mut out = String::new();
    if max == 0 {
        assert(out@ =~= spec_middle_ellipsis(s@, max as nat));
        return out;
    }
    if max == 1 {
        push_char(&mut out, '\u{2026}');
        assert(out@ =~= seq![ellipsis()]);
        return out;
    }
    let keep = max - 1;
    let front = keep / 2 + keep % 2;
    let back = keep - front;
    push_range(&mut out, &chars, 0, front);
    push_char(&mut out, '\u{2026}');
    push_range(&mut out, &chars, n - back, n);
    assert(out@ =~= spec_middle_ellipsis(s@, max as nat));
    out
}

/// The shortened name never has more than `max` characters, and it is
/// exactly `max` long whenever it had to be shortened.
pub proof fn lemma_middle_ellipsis_length(s: Seq<char>, max: nat)
    ensures
        spec_middle_ellipsis(s, max).len() <= max,
        s.len() > max ==> spec_middle_ellipsis(s, max).len() == max,
        s.len() <= max ==> spec_middle_ellipsis(s, max) == s,
{
}

/// A shortened name starts with the first `ceil((max - 1) / 2)` characters of
/// the original and ends with its last `floor((max - 1) / 2)` characters.
pub proof fn lemma_middle_ellipsis_keeps_both_ends(s: Seq<char>, max: nat)
    requires
        max >= 2,
        s.len() > max,
    ensures
        ({
            let out = spec_middle_ellipsis(s, max);
            let front = (max as int) / 2;
            let back = (max as int - 1) / 2;
            &&& out.subrange(0, front) == s.subrange(0, front)
            &&& out[front] == ellipsis()
            &&& out.subrange(out.len() - back, out.len() as int) == s.subrange(
                s.len() - back,
                s.len() as int,
            )
        }),
{
    let out = spec_middle_ellipsis(s, max);
    let keep = (max - 1) as nat;
    let front = (keep + 1) / 2;
    let back = keep - front;
    assert(front == (max as int) / 2);
    assert(back == (max as int - 1) / 2);
    assert(out.subrange(0, front as int) =~= s.subrange(0, front as int));
    assert(out.subrange(out.len() - back, out.len() as int) =~= s.subrange(
        s.len() - back,
        s.len() as int,
    ));
}

} // verus!
