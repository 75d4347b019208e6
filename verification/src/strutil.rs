//! Verified helpers over strings and decimal numbers.
//!
//! Connection strings, service files and pass files are plain text; the
//! resolution logic needs character search, trimming and bounded decimal
//! parsing, all stated over the `Seq<char>` views of the inputs.

use vstd::prelude::*;

verus! {

/// Whether two string slices hold the same characters.
pub fn str_eq(a: &str, b: &str) -> (r: bool)
    ensures
        r == (a@ == b@),
{
    let n = a.unicode_len();
    if n != b.unicode_len() {
        return false;
    }
    let mut i: usize = 0;
    while i < n
        invariant
            0 <= i <= n,
            n == a@.len(),
            n == b@.len(),
            forall|j: int| 0 <= j < i ==> a@[j] == b@[j],
        decreases n - i,
    {
        if a.get_char(i) != b.get_char(i) {
            return false;
        }
        i = i + 1;
    }
    proof {
        assert(a@ =~= b@);
    }
    true
}

/// ASCII whitespace, as it occurs between keywords of a connection string.
pub open spec fn is_space(c: char) -> bool {
    c == ' ' || c == '\t' || c == '\n' || c == '\r' || c == '\x0b' || c == '\x0c'
}

pub fn space_char(c: char) -> (r: bool)
    ensures
        r == is_space(c),
{
    c == ' ' || c == '\t' || c == '\n' || c == '\r' || c == '\x0b' || c == '\x0c'
}

/// The suffix of `s` that remains once every leading character satisfying
/// `space` (`true`) or equal to `mark` (`false`) is removed.
pub open spec fn spec_trim_start(s: Seq<char>, space: bool, mark: char) -> Seq<char>
    decreases s.len(),
{
    if s.len() > 0 && (if space {
        is_space(s[0])
    } else {
        s[0] == mark
    }) {
        spec_trim_start(s.drop_first(), space, mark)
    } else {
        s
    }
}

proof fn lemma_trim_start_at(s: Seq<char>, space: bool, mark: char, i: int)
    requires
        0 <= i <= s.len(),
        forall|j: int|
            0 <= j < i ==> (if space {
                is_space(s[j])
            } else {
                s[j] == mark
            }),
        i < s.len() ==> !(if space {
            is_space(s[i])
        } else {
            s[i] == mark
        }),
    ensures
        spec_trim_start(s, space, mark) =~= s.subrange(i, s.len() as int),
    decreases i,
{
    if i == 0 {
        if s.len() > 0 {
            assert(!(if space {
                is_space(s[0])
            } else {
                s[0] == mark
            }));
        }
    } else {
        assert(s.drop_first() =~= s.subrange(1, s.len() as int));
        lemma_trim_start_at(s.drop_first(), space, mark, i - 1);
        assert(s.drop_first().subrange(i - 1, s.drop_first().len() as int) =~= s.subrange(
            i,
            s.len() as int,
        ));
    }
}

fn mark_char(c: char, space: bool, mark: char) -> (r: bool)
    ensures
        r == (if space {
            is_space(c)
        } else {
            c == mark
        }),
{
    if space {
        space_char(c)
    } else {
        c == mark
    }
}

fn trim_start_by(s: &str, space: bool, mark: char) -> (r: &str)
    ensures
        r@ == spec_trim_start(s@, space, mark),
{
    let n = s.unicode_len();
    let mut i: usize = 0;
    while i < n && mark_char(s.get_char(i), space, mark)
        invariant
            0 <= i <= n,
            n == s@.len(),
            forall|j: int|
                0 <= j < i ==> (if space {
                    is_space(s@[j])
                } else {
                    s@[j] == mark
                }),
        decreases n - i,
    {
        i = i + 1;
    }
    proof {
        lemma_trim_start_at(s@, space, mark, i as int);
    }
    s.substring_char(i, n)
}

/// Remove leading ASCII whitespace.
pub fn trim_start_spaces(s: &str) -> (r: &str)
    ensures
        r@ == spec_trim_start(s@, true, ' '),
{
    trim_start_by(s, true, ' ')
}

/// Remove every leading occurrence of `mark`.
pub fn trim_start_char(s: &str, mark: char) -> (r: &str)
    ensures
        r@ == spec_trim_start(s@, false, mark),
{
    trim_start_by(s, false, mark)
}

/// The prefix of `s` that remains once every trailing ASCII whitespace
/// character is removed.
pub open spec fn spec_trim_end(s: Seq<char>) -> Seq<char>
    decreases s.len(),
{
    if s.len() > 0 && is_space(s.last()) {
        spec_trim_end(s.drop_last())
    } else {
        s
    }
}

proof fn lemma_trim_end_at(s: Seq<char>, i: int)
    requires
        0 <= i <= s.len(),
        forall|j: int| i <= j < s.len() ==> is_space(s[j]),
        i > 0 ==> !is_space(s[i - 1]),
    ensures
        spec_trim_end(s) =~= s.subrange(0, i),
    decreases s.len(),
{
    if i < s.len() {
        assert(is_space(s.last()));
        assert(s.drop_last() =~= s.subrange(0, s.len() - 1));
        lemma_trim_end_at(s.drop_last(), i);
        assert(s.drop_last().subrange(0, i) =~= s.subrange(0, i));
    } else {
        if s.len() > 0 {
            assert(!is_space(s.last()));
        }
        assert(s.subrange(0, i) =~= s);
    }
}

/// Remove trailing ASCII whitespace.
pub fn trim_end_spaces(s: &str) -> (r: &str)
    ensures
        r@ == spec_trim_end(s@),
{
    let n = s.unicode_len();
    let mut i: usize = n;
    while i > 0 && space_char(s.get_char(i - 1))
        invariant
            0 <= i <= n,
            n == s@.len(),
            forall|j: int| i <= j < n ==> is_space(s@[j]),
        decreases i,
    {
        i = i - 1;
    }
    proof {
        lemma_trim_end_at(s@, i as int);
    }
    s.substring_char(0, i)
}

/// Remove leading and trailing ASCII whitespace.
pub fn trim_spaces(s: &str) -> (r: &str)
    ensures
        r@ == spec_trim_end(spec_trim_start(s@, true, ' ')),
{
    trim_end_spaces(trim_start_spaces(s))
}

/// `prefix` begins `s`.
pub open spec fn spec_starts_with(s: Seq<char>, prefix: Seq<char>) -> bool {
    s.len() >= prefix.len() && s.subrange(0, prefix.len() as int) =~= prefix
}

pub fn starts_with_str(s: &str, prefix: &str) -> (r: bool)
    ensures
        r == spec_starts_with(s@, prefix@),
{
    let n = s.unicode_len();
    let m = prefix.unicode_len();
    if n < m {
        return false;
    }
    let mut i: usize = 0;
    while i < m
        invariant
            0 <= i <= m <= n,
            n == s@.len(),
            m == prefix@.len(),
            forall|j: int| 0 <= j < i ==> s@[j] == prefix@[j],
        decreases m - i,
    {
        if s.get_char(i) != prefix.get_char(i) {
            return false;
        }
        i = i + 1;
    }
    true
}

/// The first position at or after `from` where `s` holds a character chosen
/// by `space` (`true`: any ASCII whitespace; `false`: the character `mark`).
pub fn find_from(s: &str, from: usize, space: bool, mark: char) -> (r: Option<usize>)
    requires
        from <= s@.len(),
    ensures
        match r {
            Some(i) => from <= i < s@.len() && (if space {
                is_space(s@[i as int])
            } else {
                s@[i as int] == mark
            }) && (forall|j: int|
                from <= j < i ==> !(if space {
                    is_space(s@[j])
                } else {
                    s@[j] == mark
                })),
            None => forall|j: int|
                from <= j < s@.len() ==> !(if space {
                    is_space(s@[j])
                } else {
                    s@[j] == mark
                }),
        },
{
    let n = s.unicode_len();
    let mut i: usize = from;
    while i < n
        invariant
            from <= i <= n,
            n == s@.len(),
            forall|j: int|
                from <= j < i ==> !(if space {
                    is_space(s@[j])
                } else {
                    s@[j] == mark
                }),
        decreases n - i,
    {
        let c = s.get_char(i);
        if if space {
            space_char(c)
        } else {
            c == mark
        } {
            return Some(i);
        }
        i = i + 1;
    }
    None
}

/// The first position in `s` holding a character chosen by `space`
/// (`true`: any ASCII whitespace; `false`: the character `mark`).
pub open spec fn spec_find_char(s: Seq<char>, space: bool, mark: char) -> Option<int>
    decreases s.len(),
{
    if s.len() == 0 {
        None
    } else if (if space {
        is_space(s[0])
    } else {
        s[0] == mark
    }) {
        Some(0)
    } else {
        match spec_find_char(s.drop_first(), space, mark) {
            Some(i) => Some(i + 1),
            None => None,
        }
    }
}

/// Connects an index scan to [`spec_find_char`]: when nothing before `i`
/// is chosen and `i` (if within bounds) is, the first chosen position is
/// `i`, or nothing when `i` passed the end.
pub proof fn lemma_find_char_at(s: Seq<char>, space: bool, mark: char, i: int)
    requires
        0 <= i <= s.len(),
        forall|j: int|
            0 <= j < i ==> !(if space {
                is_space(#[trigger] s[j])
            } else {
                s[j] == mark
            }),
        i < s.len() ==> (if space {
            is_space(s[i])
        } else {
            s[i] == mark
        }),
    ensures
        spec_find_char(s, space, mark) == (if i < s.len() {
            Some(i)
        } else {
            None::<int>
        }),
    decreases i,
{
    if i == 0 {
    } else {
        assert(!(if space {
            is_space(s[0])
        } else {
            s[0] == mark
        }));
        assert(s.drop_first() =~= s.subrange(1, s.len() as int));
        lemma_find_char_at(s.drop_first(), space, mark, i - 1);
    }
}

proof fn lemma_find_char_in_bounds(s: Seq<char>, space: bool, mark: char)
    ensures
        match spec_find_char(s, space, mark) {
            Some(i) => 0 <= i < s.len(),
            None => true,
        },
    decreases s.len(),
{
    if s.len() > 0 {
        lemma_find_char_in_bounds(s.drop_first(), space, mark);
    }
}

/// The pieces of `s` between occurrences of `mark`; always at least one
/// piece, possibly empty.
pub open spec fn spec_split_char(s: Seq<char>, mark: char) -> Seq<Seq<char>>
    decreases s.len(),
    via spec_split_char_decreases
{
    match spec_find_char(s, false, mark) {
        None => seq![s],
        Some(i) => seq![s.subrange(0, i)] + spec_split_char(
            s.subrange(i + 1, s.len() as int),
            mark,
        ),
    }
}

#[via_fn]
proof fn spec_split_char_decreases(s: Seq<char>, mark: char) {
    lemma_find_char_in_bounds(s, false, mark);
}

/// The views of a list of owned strings.
pub open spec fn strs_view(v: Seq<String>) -> Seq<Seq<char>> {
    Seq::new(v.len(), |i: int| v[i]@)
}

/// Split `s` at every occurrence of `mark`, as [`spec_split_char`]
/// states it.
pub fn split_char(s: &str, mark: char) -> (r: Vec<String>)
    ensures
        strs_view(r@) == spec_split_char(s@, mark),
        r@.len() >= 1,
{
    let n = s.unicode_len();
    let mut acc: Vec<String> = Vec::new();
    let mut pos: usize = 0;
    proof {
        assert(s@.subrange(0, n as int) =~= s@);
        assert(strs_view(acc@) =~= Seq::<Seq<char>>::empty());
        assert(spec_split_char(s@, mark) =~= strs_view(acc@) + spec_split_char(s@, mark));
    }
    loop
        invariant
            0 <= pos <= n,
            n == s@.len(),
            spec_split_char(s@, mark) =~= strs_view(acc@) + spec_split_char(
                s@.subrange(pos as int, n as int),
                mark,
            ),
        decreases n - pos,
    {
        let ghost rem = s@.subrange(pos as int, n as int);
        match find_from(s, pos, false, mark) {
            Some(i) => {
                proof {
                    assert(forall|j: int|
                        0 <= j < i - pos ==> rem[j] == s@[j + pos] && !(s@[j + pos] == mark));
                    assert(rem[i - pos] == s@[i as int]);
                    lemma_find_char_at(rem, false, mark, i - pos);
                }
                let piece = substring_owned(s, pos, i);
                acc.push(piece);
                proof {
                    assert(rem.subrange(0, i - pos) =~= s@.subrange(pos as int, i as int));
                    assert(rem.subrange(i - pos + 1, rem.len() as int) =~= s@.subrange(
                        i + 1,
                        n as int,
                    ));
                    assert(strs_view(acc@) =~= strs_view(acc@.drop_last()) + seq![
                        s@.subrange(pos as int, i as int),
                    ]);
                }
                pos = i + 1;
            },
            None => {
                proof {
                    assert(forall|j: int|
                        0 <= j < rem.len() ==> rem[j] == s@[j + pos] && !(s@[j + pos] == mark));
                    lemma_find_char_at(rem, false, mark, rem.len() as int);
                }
                let piece = substring_owned(s, pos, n);
                acc.push(piece);
                proof {
                    assert(strs_view(acc@) =~= strs_view(acc@.drop_last()) + seq![rem]);
                    assert(strs_view(acc@) =~= strs_view(acc@.drop_last()) + spec_split_char(
                        rem,
                        mark,
                    ));
                }
                return acc;
            },
        }
    }
}

/// Copy a character range of `s` into an owned string.
pub fn substring_owned(s: &str, from: usize, to: usize) -> (r: String)
    requires
        from <= to <= s@.len(),
    ensures
        r@ == s@.subrange(from as int, to as int),
{
    s.substring_char(from, to).to_owned()
}

// ---------------------------------------------------------------------------
// Decimal parsing
// ---------------------------------------------------------------------------
pub open spec fn is_digit(c: char) -> bool {
    48 <= c as int && c as int <= 57
}

pub open spec fn digit_val(c: char) -> int {
    c as int - 48
}

pub open spec fn all_digits(s: Seq<char>) -> bool {
    forall|i: int| 0 <= i < s.len() ==> is_digit(#[trigger] s[i])
}

/// The value of a digit string read in base ten.
pub open spec fn dec_val(s: Seq<char>) -> int
    decreases s.len(),
{
    if s.len() == 0 {
        0
    } else {
        dec_val(s.drop_last()) * 10 + digit_val(s.last())
    }
}

/// What `str::parse` yields for an unsigned integer type of unbounded width:
/// an optional leading `+`, then at least one digit.
pub open spec fn spec_parse_dec(s: Seq<char>) -> Option<int> {
    let body = if s.len() > 0 && s[0] == '+' {
        s.drop_first()
    } else {
        s
    };
    if body.len() > 0 && all_digits(body) {
        Some(dec_val(body))
    } else {
        None
    }
}

pub open spec fn pow10(n: nat) -> int
    decreases n,
{
    if n == 0 {
        1
    } else {
        10 * pow10((n - 1) as nat)
    }
}

proof fn lemma_dec_val_bounds(s: Seq<char>)
    requires
        all_digits(s),
    ensures
        0 <= dec_val(s) < pow10(s.len()),
    decreases s.len(),
{
    if s.len() > 0 {
        assert(all_digits(s.drop_last())) by {
            assert(forall|i: int|
                0 <= i < s.len() - 1 ==> is_digit(#[trigger] s.drop_last()[i]) == is_digit(s[i]));
        }
        lemma_dec_val_bounds(s.drop_last());
        assert(is_digit(s.last()));
    }
}

proof fn lemma_dec_val_zeros_prefix(s: Seq<char>, m: int)
    requires
        0 <= m <= s.len(),
        forall|j: int| 0 <= j < m ==> (#[trigger] s[j]) as int == 48,
    ensures
        dec_val(s) == dec_val(s.subrange(m, s.len() as int)),
    decreases s.len(),
{
    if m == s.len() {
        lemma_dec_val_all_zeros(s);
        assert(s.subrange(m, s.len() as int) =~= Seq::<char>::empty());
    } else if s.len() > 0 {
        assert(s.drop_last() =~= s.subrange(0, s.len() - 1));
        lemma_dec_val_zeros_prefix(s.drop_last(), m);
        assert(s.drop_last().subrange(m, s.len() - 1) =~= s.subrange(m, s.len() as int).drop_last());
        assert(s.subrange(m, s.len() as int).last() == s.last());
    }
}

proof fn lemma_dec_val_all_zeros(s: Seq<char>)
    requires
        forall|j: int| 0 <= j < s.len() ==> (#[trigger] s[j]) as int == 48,
    ensures
        dec_val(s) == 0,
    decreases s.len(),
{
    if s.len() > 0 {
        lemma_dec_val_all_zeros(s.drop_last());
    }
}

proof fn lemma_dec_val_significant_lower(s: Seq<char>)
    requires
        all_digits(s),
        s.len() > 0,
        s[0] as int != 48,
    ensures
        dec_val(s) >= pow10((s.len() - 1) as nat),
    decreases s.len(),
{
    if s.len() == 1 {
        assert(is_digit(s[0]));
        assert(s.drop_last().len() == 0);
        assert(dec_val(s.drop_last()) == 0);
        assert(s.last() == s[0]);
        assert(dec_val(s) == digit_val(s[0]));
        assert(digit_val(s[0]) >= 1);
        assert(pow10(0) == 1);
    } else {
        let t = s.drop_last();
        assert(all_digits(t)) by {
            assert(forall|i: int|
                0 <= i < s.len() - 1 ==> is_digit(#[trigger] t[i]) == is_digit(s[i]));
        }
        assert(t[0] == s[0]);
        lemma_dec_val_significant_lower(t);
        assert(is_digit(s.last()));
        assert(digit_val(s.last()) >= 0);
        assert(dec_val(t) * 10 >= pow10((s.len() - 2) as nat) * 10) by (nonlinear_arith)
            requires
                dec_val(t) >= pow10((s.len() - 2) as nat),
        ;
        assert(pow10((s.len() - 1) as nat) == 10 * pow10((s.len() - 2) as nat));
        assert(dec_val(s) == dec_val(t) * 10 + digit_val(s.last()));
        assert(dec_val(s) >= pow10((s.len() - 2) as nat) * 10);
    }
}

/// Parse an unsigned decimal number, as `str::parse::<u64>` reads it:
/// an optional `+` sign, then one or more digits, rejecting values above
/// `u64::MAX`.
#[verifier::loop_isolation(false)]
pub fn parse_dec_u64(s: &str) -> (r: Option<u64>)
    ensures
        match spec_parse_dec(s@) {
            Some(v) => if v <= u64::MAX {
                r == Some(v as u64)
            } else {
                r is None
            },
            None => r is None,
        },
{
    let n = s.unicode_len();
    let mut start: usize = 0;
    if n > 0 && s.get_char(0) == '+' {
        start = 1;
    }
    let ghost body = if s@.len() > 0 && s@[0] == '+' {
        s@.drop_first()
    } else {
        s@
    };
    proof {
        if start == 1 {
            assert(body =~= s@.subrange(1, n as int));
        } else {
            assert(body =~= s@.subrange(0, n as int));
        }
    }
    if start == n {
        return None;
    }
    // every character of the body must be a digit
    let mut j: usize = start;
    while j < n
        invariant
            start <= j <= n,
            n == s@.len(),
            forall|i: int| start <= i < j ==> is_digit(#[trigger] s@[i]),
        decreases n - j,
    {
        let c = s.get_char(j) as u32;
        if !(48 <= c && c <= 57) {
            proof {
                assert(body[j - start] == s@[j as int]);
            }
            return None;
        }
        j = j + 1;
    }
    assert(all_digits(body)) by {
        assert(forall|i: int|
            0 <= i < body.len() ==> #[trigger] body[i] == s@[i + start]);
    }
    // skip leading zeros; what remains decides the magnitude
    let mut k: usize = start;
    while k < n && s.get_char(k) as u32 == 48
        invariant
            start <= k <= n,
            n == s@.len(),
            forall|i: int| start <= i < k ==> (#[trigger] s@[i]) as int == 48,
        decreases n - k,
    {
        k = k + 1;
    }
    let ghost sig = s@.subrange(k as int, n as int);
    proof {
        assert(sig =~= body.subrange(k - start, body.len() as int));
        lemma_dec_val_zeros_prefix(body, k - start);
    }
    if n - k > 20 {
        // at least 21 significant digits: the value is at least 10^20 > u64::MAX
        proof {
            assert(all_digits(sig)) by {
                assert(forall|i: int|
                    0 <= i < sig.len() ==> #[trigger] sig[i] == s@[i + k]);
            }
            lemma_dec_val_significant_lower(sig);
            lemma_pow10_increases(20, (sig.len() - 1) as nat);
            assert(pow10(20) > u64::MAX) by {
                reveal_with_fuel(pow10, 21);
            }
        }
        return None;
    }
    let mut acc: u128 = 0;
    let mut i: usize = k;
    while i < n
        invariant
            k <= i <= n,
            n == s@.len(),
            n - k <= 20,
            forall|j2: int| start <= j2 < n ==> is_digit(#[trigger] s@[j2]),
            start <= k,
            acc == dec_val(s@.subrange(k as int, i as int)),
            0 <= acc < pow10((i - k) as nat),
        decreases n - i,
    {
        let c = s.get_char(i);
        let d: u128 = (c as u32 - 48) as u128;
        proof {
            let pre = s@.subrange(k as int, i as int);
            let post = s@.subrange(k as int, i + 1);
            assert(post.drop_last() =~= pre);
            assert(is_digit(s@[i as int]));
            lemma_pow10_increases((i - k + 1) as nat, 20);
            assert(pow10(20) < u128::MAX) by {
                reveal_with_fuel(pow10, 21);
            }
            assert(acc * 10 + d < pow10((i - k + 1) as nat)) by {
                assert(pow10((i - k + 1) as nat) == 10 * pow10((i - k) as nat));
                assert(acc * 10 <= (pow10((i - k) as nat) - 1) * 10) by (nonlinear_arith)
                    requires
                        acc < pow10((i - k) as nat),
                        acc >= 0,
                ;
            }
        }
        acc = acc * 10 + d;
        i = i + 1;
    }
    proof {
        assert(s@.subrange(k as int, n as int) =~= sig);
        assert(acc == dec_val(body));
    }
    if acc <= u64::MAX as u128 {
        Some(acc as u64)
    } else {
        None
    }
}

proof fn lemma_pow10_increases(a: nat, b: nat)
    requires
        a <= b,
    ensures
        pow10(a) <= pow10(b),
        pow10(a) >= 1,
    decreases b,
{
    if a < b {
        lemma_pow10_increases(a, (b - 1) as nat);
    } else {
        lemma_pow10_pos(a);
    }
}

proof fn lemma_pow10_pos(n: nat)
    ensures
        pow10(n) >= 1,
    decreases n,
{
    if n > 0 {
        lemma_pow10_pos((n - 1) as nat);
    }
}

/// Parse an unsigned decimal number that must fit in sixteen bits, as
/// `str::parse::<u16>` reads a port.
pub fn parse_dec_u16(s: &str) -> (r: Option<u16>)
    ensures
        match spec_parse_dec(s@) {
            Some(v) => if v <= u16::MAX {
                r == Some(v as u16)
            } else {
                r is None
            },
            None => r is None,
        },
{
    proof {
        let body = if s@.len() > 0 && s@[0] == '+' {
            s@.drop_first()
        } else {
            s@
        };
        if body.len() > 0 && all_digits(body) {
            lemma_dec_val_bounds(body);
        }
    }
    match parse_dec_u64(s) {
        Some(v) => if v <= u16::MAX as u64 {
            Some(v as u16)
        } else {
            None
        },
        None => None,
    }
}

} // verus!
