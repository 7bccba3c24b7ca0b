//! The memory budget for decoded animation frames: a default of 1 GiB that an
//! override, given in MiB as text, may replace.
use vstd::prelude::*;
use crate::text::chars_of;

verus! {

/// Default ceiling, in MiB, on the RAM an animation may occupy while displayed.
pub const ANIM_RAM_BUDGET_MB: u64 = 1024;

/// Bytes in one MiB.
pub const MIB: u64 = 1048576;

/// Unicode `White_Space` characters, as `char::is_whitespace` and `str::trim`
/// recognise them.
pub open spec fn is_whitespace(c: char) -> bool {
    let u = c as u32;
    ||| 0x09 <= u <= 0x0d
    ||| u == 0x20
    ||| u == 0x85
    ||| u == 0xa0
    ||| u == 0x1680
    ||| 0x2000 <= u <= 0x200a
    ||| u == 0x2028
    ||| u == 0x2029
    ||| u == 0x202f
    ||| u == 0x205f
    ||| u == 0x3000
}

/// `s` without its leading whitespace.
pub open spec fn trim_start(s: Seq<char>) -> Seq<char>
    decreases s.len(),
{
    if s.len() > 0 && is_whitespace(s[0]) {
        trim_start(s.drop_first())
    } else {
        s
    }
}

/// `s` without its trailing whitespace.
pub open spec fn trim_end(s: Seq<char>) -> Seq<char>
    decreases s.len(),
{
    if s.len() > 0 && is_whitespace(s.last()) {
        trim_end(s.drop_last())
    } else {
        s
    }
}

/// `s` without leading and trailing whitespace (`str::trim`).
pub open spec fn trim(s: Seq<char>) -> Seq<char> {
    trim_end(trim_start(s))
}

pub open spec fn is_digit(c: char) -> bool {
    '0' <= c <= '9'
}

pub open spec fn all_digits(d: Seq<char>) -> bool {
    forall|i: int| 0 <= i < d.len() ==> is_digit(#[trigger] d[i])
}

/// The number written by the decimal digits `d`.
pub open spec fn digits_value(d: Seq<char>) -> nat
    decreases d.len(),
{
    if d.len() == 0 {
        0
    } else {
        digits_value(d.drop_last()) * 10 + ((d.last() as nat) - 48) as nat
    }
}

/// What `str::parse::<u64>` accepts: an optional `+`, then one or more decimal
/// digits whose value fits in a `u64`.
pub open spec fn spec_parse_u64(s: Seq<char>) -> Option<u64> {
    let d = if s.len() > 0 && s[0] == '+' {
        s.drop_first()
    } else {
        s
    };
    if d.len() > 0 && all_digits(d) && digits_value(d) <= u64::MAX {
        Some(digits_value(d) as u64)
    } else {
        None
    }
}

/// The animation budget in bytes: the override in MiB when it is present and
/// reads as a number once trimmed, else the default; in bytes, saturating at
/// `u64::MAX`.
pub open spec fn spec_anim_budget_bytes(var: Option<Seq<char>>) -> u64 {
    let mb: u64 = match var {
        Some(s) => match spec_parse_u64(trim(s)) {
            Some(v) => v,
            None => ANIM_RAM_BUDGET_MB,
        },
        None => ANIM_RAM_BUDGET_MB,
    };
    if mb * MIB > u64::MAX {
        u64::MAX
    } else {
        (mb * MIB) as u64
    }
}

proof fn lemma_trim_start_at(s: Seq<char>, i: int)
    requires
        0 <= i <= s.len(),
        forall|k: int| 0 <= k < i ==> is_whitespace(s[k]),
        i == s.len() || !is_whitespace(s[i]),
    ensures
        trim_start(s) == s.subrange(i, s.len() as int),
    decreases i,
{
    if i == 0 {
        assert(s.subrange(0, s.len() as int) =~= s);
    } else {
        assert forall|k: int| 0 <= k < i - 1 implies is_whitespace(s.drop_first()[k]) by {
            assert(s.drop_first()[k] == s[k + 1]);
        }
        lemma_trim_start_at(s.drop_first(), i - 1);
        assert(s.drop_first().subrange(i - 1, s.len() - 1) =~= s.subrange(i, s.len() as int));
    }
}

proof fn lemma_trim_end_at(s: Seq<char>, j: int)
    requires
        0 <= j <= s.len(),
        forall|k: int| j <= k < s.len() ==> is_whitespace(s[k]),
        j == 0 || !is_whitespace(s[j - 1]),
    ensures
        trim_end(s) == s.subrange(0, j),
    decreases s.len() - j,
{
    if j == s.len() {
        assert(s.subrange(0, j) =~= s);
    } else {
        lemma_trim_end_at(s.drop_last(), j);
        assert(s.drop_last().subrange(0, j) =~= s.subrange(0, j));
    }
}

fn is_whitespace_char(c: char) -> (r: bool)
    ensures
        r == is_whitespace(c),
{
    let u = c as u32;
    (0x09 <= u && u <= 0x0d) || u == 0x20 || u == 0x85 || u == 0xa0 || u == 0x1680 || (0x2000 <= u
        && u <= 0x200a) || u == 0x2028 || u == 0x2029 || u == 0x202f || u == 0x205f || u == 0x3000
}

/// The range `[i, j)` of `s` that is left once whitespace is trimmed from both ends.
fn trim_range(s: &Vec<char>) -> (r: (usize, usize))
    ensures
        r.0 <= r.1 <= s.len(),
        trim(s@) == s@.subrange(r.0 as int, r.1 as int),
{
    let mut i: usize = 0;
    while i < s.len() && is_whitespace_char(s[i])
        invariant
            i <= s.len(),
            forall|k: int| 0 <= k < i ==> is_whitespace(s@[k]),
        decreases s.len() - i,
    {
        i = i + 1;
    }
    proof {
        lemma_trim_start_at(s@, i as int);
    }
    let mut j: usize = s.len();
    while j > i && is_whitespace_char(s[j - 1])
        invariant
            i <= j <= s.len(),
            forall|k: int| j <= k < s.len() ==> is_whitespace(s@[k]),
        decreases j,
    {
        j = j - 1;
    }
    proof {
        let t = s@.subrange(i as int, s.len() as int);
        assert forall|k: int| j - i <= k < t.len() implies is_whitespace(t[k]) by {
            assert(t[k] == s@[k + i]);
        }
        if j > i {
            assert(t[j - i - 1] == s@[j - 1]);
        }
        lemma_trim_end_at(t, j - i);
        assert(t.subrange(0, j - i) =~= s@.subrange(i as int, j as int));
    }
    (i, j)
}

proof fn lemma_digits_value_prefix(d: Seq<char>, k: int)
    requires
        0 <= k <= d.len(),
    ensures
        digits_value(d.subrange(0, k)) <= digits_value(d),
    decreases d.len(),
{
    if k < d.len() {
        lemma_digits_value_prefix(d.drop_last(), k);
        assert(d.drop_last().subrange(0, k) =~= d.subrange(0, k));
    } else {
        assert(d.subrange(0, k) =~= d);
    }
}

/// Parses `s[from..to]` as decimal digits into a `u64`.
fn parse_digits(s: &Vec<char>, from: usize, to: usize) -> (r: Option<u64>)
    requires
        from <= to <= s.len(),
    ensures
        ({
            let d = s@.subrange(from as int, to as int);
            r == (if d.len() > 0 && all_digits(d) && digits_value(d) <= u64::MAX {
                Some(digits_value(d) as u64)
            } else {
                None
            })
        }),
{
    let ghost d = s@.subrange(from as int, to as int);
    if from == to {
        return None;
    }
    let mut v: u64 = 0;
    let mut i: usize = from;
    while i < to
        invariant
            from <= i <= to <= s.len(),
            d == s@.subrange(from as int, to as int),
            all_digits(d.subrange(0, i - from)),
            v == digits_value(d.subrange(0, i - from)),
        decreases to - i,
    {
        let c = s[i];
        let ghost p = d.subrange(0, i - from + 1);
        assert(p.drop_last() =~= d.subrange(0, i - from));
        assert(p.last() == c);
        if !('0' <= c && c <= '9') {
            assert(!is_digit(d[i - from]));
            return None;
        }
        let digit = (c as u32 - 48) as u64;
        let next = match v.checked_mul(10) {
            Some(t) => t.checked_add(digit),
            None => None,
        };
        match next {
            Some(n) => {
                v = n;
            },
            None => {
                proof {
                    lemma_digits_value_prefix(d, i - from + 1);
                    if all_digits(d) {
                        assert(digits_value(d) > u64::MAX);
                    }
                }
                return None;
            },
        }
        i = i + 1;
        assert(all_digits(d.subrange(0, i - from))) by {
            assert forall|k: int| 0 <= k < i - from implies is_digit(
                #[trigger] d.subrange(0, i - from)[k],
            ) by {
                if k < i - from - 1 {
                    assert(d.subrange(0, i - from)[k] == d.subrange(0, i - from - 1)[k]);
                }
            }
        }
    }
    assert(d.subrange(0, to - from) =~= d);
    Some(v)
}

/// `s` read as a `u64` the way `str::parse::<u64>` reads it.
pub fn parse_u64(s: &str) -> (r: Option<u64>)
    ensures
        r == spec_parse_u64(s@),
{
    let c = chars_of(s);
    let from: usize = if c.len() > 0 && c[0] == '+' {
        1
    } else {
        0
    };
    assert(from == 1 ==> c@.subrange(1, c@.len() as int) =~= s@.drop_first());
    assert(from == 0 ==> c@.subrange(0, c@.len() as int) =~= s@);
    parse_digits(&c, from, c.len())
}

/// The animation memory budget in bytes, given the override text when one is
/// set: `ANIM_RAM_BUDGET_MB` unless the override, trimmed, is a number of MiB.
pub fn anim_budget_bytes(var: Option<&str>) -> (r: u64)
    ensures
        r == spec_anim_budget_bytes(
            match var {
                Some(s) => Some(s@),
                None => None,
            },
        ),
{
    let mb: u64 = match var {
        Some(s) => {
            let c = chars_of(s);
            let (i, j) = trim_range(&c);
            let parsed = if j > i && c[i] == '+' {
                assert(c@.subrange(i + 1, j as int) =~= c@.subrange(i as int, j as int).drop_first());
                parse_digits(&c, i + 1, j)
            } else {
                parse_digits(&c, i, j)
            };
            match parsed {
                Some(v) => v,
                None => ANIM_RAM_BUDGET_MB,
            }
        },
        None => ANIM_RAM_BUDGET_MB,
    };
    match mb.checked_mul(MIB) {
        Some(b) => b,
        None => u64::MAX,
    }
}

/// Without an override, or with one that does not read as a number once
/// trimmed, the budget is the default 1 GiB; an override of `n` MiB gives `n`
/// MiB, saturating at `u64::MAX` bytes.
pub proof fn lemma_budget_default_and_override(var: Option<Seq<char>>)
    ensures
        (var is None || spec_parse_u64(trim(var->0)) is None) ==> spec_anim_budget_bytes(var)
            == 1073741824,
        var is Some && spec_parse_u64(trim(var->0)) is Some ==> spec_anim_budget_bytes(var) == (
        if spec_parse_u64(trim(var->0))->0 * MIB > u64::MAX {
            u64::MAX as int
        } else {
            spec_parse_u64(trim(var->0))->0 * MIB
        }),
{
}

} // verus!
