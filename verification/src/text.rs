use vstd::prelude::*;
use vstd::string::*;

verus! {

/// Whether `c` is white space: one of the characters that Unicode lists as
/// such.
pub open spec fn is_space(c: char) -> bool {
    let n = c as u32;
    ||| 0x09 <= n <= 0x0D
    ||| n == 0x20
    ||| n == 0x85
    ||| n == 0xA0
    ||| n == 0x1680
    ||| 0x2000 <= n <= 0x200A
    ||| n == 0x2028
    ||| n == 0x2029
    ||| n == 0x202F
    ||| n == 0x205F
    ||| n == 0x3000
}

/// The first place at or behind `i` where `s` holds no white space, or the
/// length of `s` if there is none.
pub open spec fn lead(s: Seq<char>, i: int) -> int
    decreases s.len() - i,
{
    if 0 <= i < s.len() && is_space(s[i]) {
        lead(s, i + 1)
    } else {
        i
    }
}

/// The end of the text that is left of `s` up to `j` when the white space
/// at its end is dropped, but nothing before `lo`.
pub open spec fn tail(s: Seq<char>, lo: int, j: int) -> int
    decreases j,
{
    if 0 <= lo < j <= s.len() && is_space(s[j - 1]) {
        tail(s, lo, j - 1)
    } else {
        j
    }
}

/// `s` without the white space at its start and at its end.
pub open spec fn trimmed(s: Seq<char>) -> Seq<char> {
    s.subrange(lead(s, 0), tail(s, lead(s, 0), s.len() as int))
}

/// The fields of a line: the pieces between its `|` characters. A line
/// without one is a single field.
pub open spec fn fields(s: Seq<char>) -> Seq<Seq<char>>
    decreases s.len(),
{
    if s.len() == 0 {
        seq![Seq::<char>::empty()]
    } else {
        let before = fields(s.drop_last());
        if s.last() == '|' {
            before.push(Seq::<char>::empty())
        } else {
            before.update(before.len() - 1, before.last().push(s.last()))
        }
    }
}

/// Whether `c` is one of the digits `0` to `9`.
pub open spec fn is_digit(c: char) -> bool {
    0x30 <= c as u32 <= 0x39
}

/// Whether `s` holds digits and nothing else.
pub open spec fn all_digits(s: Seq<char>) -> bool {
    forall|i: int| 0 <= i < s.len() ==> is_digit(#[trigger] s[i])
}

/// The number that the digits of `s` write in base ten.
pub open spec fn decimal(s: Seq<char>) -> nat
    decreases s.len(),
{
    if s.len() == 0 {
        0
    } else {
        decimal(s.drop_last()) * 10 + (s.last() as u32 - 0x30) as nat
    }
}

/// `t` without a plus sign at its start.
pub open spec fn unsigned_part(t: Seq<char>) -> Seq<char> {
    if t.len() > 0 && t[0] == '+' {
        t.subrange(1, t.len() as int)
    } else {
        t
    }
}

/// Whether `s` writes a number: white space aside, one or more digits, with
/// or without a plus sign before them.
pub open spec fn is_number(s: Seq<char>) -> bool {
    unsigned_part(trimmed(s)).len() > 0 && all_digits(unsigned_part(trimmed(s)))
}

/// The number that `s` writes.
pub open spec fn number(s: Seq<char>) -> nat {
    decimal(unsigned_part(trimmed(s)))
}

/// The first white space of `s` ends inside `s`.
pub proof fn lemma_lead_bounds(s: Seq<char>, i: int)
    requires
        0 <= i <= s.len(),
    ensures
        i <= lead(s, i) <= s.len(),
        forall|k: int| i <= k < lead(s, i) ==> is_space(#[trigger] s[k]),
        lead(s, i) < s.len() ==> !is_space(s[lead(s, i)]),
    decreases s.len() - i,
{
    if i < s.len() && is_space(s[i]) {
        lemma_lead_bounds(s, i + 1);
    }
}

/// The last white space of `s` begins behind `lo`.
pub proof fn lemma_tail_bounds(s: Seq<char>, lo: int, j: int)
    requires
        0 <= lo <= j <= s.len(),
    ensures
        lo <= tail(s, lo, j) <= j,
        forall|k: int| tail(s, lo, j) <= k < j ==> is_space(#[trigger] s[k]),
        lo < tail(s, lo, j) ==> !is_space(s[tail(s, lo, j) - 1]),
    decreases j,
{
    if lo < j && is_space(s[j - 1]) {
        lemma_tail_bounds(s, lo, j - 1);
    }
}

/// What trimming leaves neither starts nor ends with white space, and what
/// it drops is white space only.
pub proof fn lemma_trimmed(s: Seq<char>)
    ensures
        trimmed(s).len() > 0 ==> !is_space(trimmed(s).first()) && !is_space(trimmed(s).last()),
        exists|before: Seq<char>, after: Seq<char>|
            {
                &&& s == before + trimmed(s) + after
                &&& forall|k: int| 0 <= k < before.len() ==> is_space(#[trigger] before[k])
                &&& forall|k: int| 0 <= k < after.len() ==> is_space(#[trigger] after[k])
            },
{
    let a = lead(s, 0);
    lemma_lead_bounds(s, 0);
    let b = tail(s, a, s.len() as int);
    lemma_tail_bounds(s, a, s.len() as int);
    let before = s.subrange(0, a);
    let after = s.subrange(b, s.len() as int);
    assert(s =~= before + trimmed(s) + after);
}

/// A line has at least one field.
pub proof fn lemma_fields_len(s: Seq<char>)
    ensures
        fields(s).len() >= 1,
    decreases s.len(),
{
    if s.len() > 0 {
        lemma_fields_len(s.drop_last());
    }
}

/// The fields with a `|` between each two of them.
pub open spec fn joined(f: Seq<Seq<char>>) -> Seq<char>
    decreases f.len(),
{
    if f.len() == 0 {
        Seq::<char>::empty()
    } else if f.len() == 1 {
        f[0]
    } else {
        joined(f.drop_last()) + seq!['|'] + f.last()
    }
}

/// No field holds a `|`.
pub proof fn lemma_fields_hold_no_bar(s: Seq<char>, k: int, i: int)
    requires
        0 <= k < fields(s).len(),
        0 <= i < fields(s)[k].len(),
    ensures
        fields(s)[k][i] != '|',
    decreases s.len(),
{
    if s.len() > 0 {
        let before = fields(s.drop_last());
        lemma_fields_len(s.drop_last());
        if s.last() == '|' {
            if k < before.len() {
                lemma_fields_hold_no_bar(s.drop_last(), k, i);
            }
        } else {
            if k < before.len() - 1 {
                lemma_fields_hold_no_bar(s.drop_last(), k, i);
            } else if i < before.last().len() {
                lemma_fields_hold_no_bar(s.drop_last(), k, i);
            }
        }
    }
}

/// The fields of a line, put together again with a `|` between each two of
/// them, are the line.
pub proof fn lemma_fields_join(s: Seq<char>)
    ensures
        joined(fields(s)) == s,
    decreases s.len(),
{
    if s.len() == 0 {
        assert(joined(fields(s)) =~= s);
    } else {
        let before = fields(s.drop_last());
        let c = s.last();
        lemma_fields_len(s.drop_last());
        lemma_fields_join(s.drop_last());
        assert(s =~= s.drop_last().push(c));
        if c == '|' {
            let f = before.push(Seq::<char>::empty());
            assert(f.drop_last() =~= before);
            assert(joined(f) =~= joined(before) + seq!['|']);
        } else {
            let f = before.update(before.len() - 1, before.last().push(c));
            if before.len() == 1 {
                assert(joined(f) =~= joined(before).push(c));
            } else {
                assert(f.drop_last() =~= before.drop_last());
                assert(joined(f) =~= (joined(before.drop_last()) + seq!['|'] + before.last()).push(
                    c,
                ));
            }
        }
    }
}

/// More digits write no smaller a number.
pub proof fn lemma_decimal_grows(s: Seq<char>, n: int)
    requires
        0 <= n <= s.len(),
        all_digits(s),
    ensures
        decimal(s.take(n)) <= decimal(s),
    decreases s.len() - n,
{
    if n < s.len() {
        lemma_decimal_grows(s, n + 1);
        assert(s.take(n + 1).drop_last() =~= s.take(n));
        assert(is_digit(s[n]));
    } else {
        assert(s.take(n) =~= s);
    }
}

/// Whether `c` is white space.
pub fn is_white_space(c: char) -> (b: bool)
    ensures
        b == is_space(c),
{
    let n: u32 = c as u32;
    (0x09 <= n && n <= 0x0D) || n == 0x20 || n == 0x85 || n == 0xA0 || n == 0x1680 || (0x2000 <= n
        && n <= 0x200A) || n == 0x2028 || n == 0x2029 || n == 0x202F || n == 0x205F || n == 0x3000
}

/// `s` without the white space at its start and at its end.
pub fn trim(s: &str) -> (t: &str)
    ensures
        t@ == trimmed(s@),
{
    let n = s.unicode_len();
    let mut a: usize = 0;
    while a < n && is_white_space(s.get_char(a))
        invariant
            n == s@.len(),
            a <= n,
            lead(s@, 0) == lead(s@, a as int),
        decreases n - a,
    {
        a += 1;
    }
    let mut b: usize = n;
    while b > a && is_white_space(s.get_char(b - 1))
        invariant
            n == s@.len(),
            a <= b <= n,
            tail(s@, a as int, n as int) == tail(s@, a as int, b as int),
        decreases b,
    {
        b -= 1;
    }
    s.substring_char(a, b)
}

/// Cuts a line into its fields.
pub fn split_fields(s: &str) -> (parts: Vec<&str>)
    ensures
        parts@.len() == fields(s@).len(),
        forall|k: int| 0 <= k < parts@.len() ==> (#[trigger] parts@[k])@ == fields(s@)[k],
{
    let n = s.unicode_len();
    let mut parts: Vec<&str> = Vec::new();
    let mut start: usize = 0;
    let mut i: usize = 0;
    assert(s@.take(0) =~= Seq::<char>::empty());
    assert(s@.subrange(0, 0) =~= Seq::<char>::empty());
    while i < n
        invariant
            n == s@.len(),
            start <= i <= n,
            fields(s@.take(i as int)).len() == parts@.len() + 1,
            forall|k: int|
                0 <= k < parts@.len() ==> (#[trigger] parts@[k])@ == fields(s@.take(i as int))[k],
            fields(s@.take(i as int)).last() == s@.subrange(start as int, i as int),
        decreases n - i,
    {
        let c = s.get_char(i);
        proof {
            assert(s@.take(i + 1).drop_last() =~= s@.take(i as int));
            assert(s@.take(i + 1).last() == c);
        }
        if c == '|' {
            parts.push(s.substring_char(start, i));
            start = i + 1;
            assert(s@.subrange(start as int, start as int) =~= Seq::<char>::empty());
        } else {
            assert(s@.subrange(start as int, i + 1) =~= s@.subrange(start as int, i as int).push(
                c,
            ));
        }
        i += 1;
    }
    parts.push(s.substring_char(start, n));
    assert(s@.take(n as int) =~= s@);
    parts
}

/// Reads a field as a number. The field may have white space around the
/// number and a plus sign before it; it is no number where anything else
/// stands beside the digits, where there is no digit, and where the number
/// is too large for the machine.
pub fn parse_msg_arg(arg: &str) -> (value: Option<usize>)
    ensures
        value is Some <==> is_number(arg@) && number(arg@) <= usize::MAX,
        value matches Some(v) ==> v == number(arg@),
{
    let t = trim(arg);
    let n = t.unicode_len();
    let from: usize = if n > 0 && t.get_char(0) == '+' {
        1
    } else {
        0
    };
    let ghost digits = unsigned_part(t@);
    assert(digits =~= t@.subrange(from as int, n as int));
    if from == n {
        return None;
    }
    let mut value: usize = 0;
    let mut i: usize = from;
    assert(digits.take(0) =~= Seq::<char>::empty());
    while i < n
        invariant
            n == t@.len(),
            from <= i <= n,
            t@ == trimmed(arg@),
            digits == unsigned_part(t@),
            digits == t@.subrange(from as int, n as int),
            all_digits(digits.take(i - from)),
            value == decimal(digits.take(i - from)),
        decreases n - i,
    {
        let c = t.get_char(i);
        let code: u32 = c as u32;
        assert(digits[i - from] == c);
        if code < 0x30 || code > 0x39 {
            assert(!is_digit(digits[i - from]));
            return None;
        }
        let digit: usize = (code - 0x30) as usize;
        proof {
            let longer = digits.take(i + 1 - from);
            assert(longer.drop_last() =~= digits.take(i - from));
            assert(longer.last() == c);
            assert(decimal(longer) == value * 10 + digit);
            assert(all_digits(longer));
        }
        if value > (usize::MAX - digit) / 10 {
            proof {
                if all_digits(digits) {
                    lemma_decimal_grows(digits, i + 1 - from);
                }
            }
            return None;
        }
        value = value * 10 + digit;
        i += 1;
    }
    assert(digits.take(n - from) =~= digits);
    Some(value)
}

/// Whether two texts are the same.
pub fn same_text(a: &str, b: &str) -> (same: bool)
    ensures
        same == (a@ == b@),
{
    let left = a.to_owned();
    let right = b.to_owned();
    left == right
}

} // verus!
