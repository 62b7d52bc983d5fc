//! Character-level helpers: decimal formatting, integer parsing in the grammar of
//! Rust's `FromStr` for integers, splitting on a separator and Unicode trimming.
use vstd::prelude::*;

verus! {

/// `str::chars` collected into a vector. The contract claims that the vector holds
/// the characters of the string, in order (the string's view).
#[verifier::external_body]
pub(crate) fn chars_of(s: &str) -> (res: Vec<char>)
    ensures
        res@ == s@,
{
    s.chars().collect()
}

/// A `String` collected from characters (`FromIterator<&char>` for `String`). The
/// contract claims that the string's view is exactly those characters, in order.
#[verifier::external_body]
pub(crate) fn string_of(v: &Vec<char>) -> (res: String)
    ensures
        res@ == v@,
{
    v.iter().collect()
}

// ==================== digits ====================

pub open spec fn is_digit(c: char) -> bool {
    '0' <= c && c <= '9'
}

pub open spec fn digit_value(c: char) -> int {
    (c as int) - ('0' as int)
}

pub open spec fn digit_char(d: int) -> char {
    (d + ('0' as int)) as char
}

/// Every character of `s` is an ASCII digit.
pub open spec fn all_digits(s: Seq<char>) -> bool {
    forall|i: int| 0 <= i < s.len() ==> is_digit(#[trigger] s[i])
}

/// The number that a sequence of ASCII digits spells in base ten.
pub open spec fn digits_value(s: Seq<char>) -> nat
    decreases s.len(),
{
    if s.len() == 0 {
        0
    } else {
        (digits_value(s.drop_last()) * 10 + digit_value(s.last())) as nat
    }
}

/// The base-ten digits of `n`, most significant first, without leading zeros.
pub open spec fn decimal(n: nat) -> Seq<char>
    decreases n,
{
    if n < 10 {
        seq![digit_char(n as int)]
    } else {
        decimal(n / 10).push(digit_char((n % 10) as int))
    }
}

/// `s` preceded by as many `'0'` as bring it to `width` characters.
pub open spec fn zero_pad(s: Seq<char>, width: nat) -> Seq<char> {
    if s.len() >= width {
        s
    } else {
        Seq::new((width - s.len()) as nat, |i: int| '0') + s
    }
}

/// What `format!("{:0w$}", v)` prints for an integer `v`: the sign counts
/// towards the width and the zeros go between the sign and the digits.
pub open spec fn padded(v: int, width: nat) -> Seq<char> {
    if v < 0 {
        seq!['-'] + zero_pad(decimal((-v) as nat), if width >= 1 { (width - 1) as nat } else { 0 })
    } else {
        zero_pad(decimal(v as nat), width)
    }
}

fn digit_to_char(d: u64) -> (c: char)
    requires
        d < 10,
    ensures
        c == digit_char(d as int),
        is_digit(c),
{
    let b: u8 = 48u8 + (d as u8);
    b as char
}

pub(crate) fn is_digit_char(c: char) -> (r: bool)
    ensures
        r == is_digit(c),
{
    c >= '0' && c <= '9'
}

fn char_digit_value(c: char) -> (r: u32)
    requires
        is_digit(c),
    ensures
        r == digit_value(c),
        r < 10,
{
    (c as u32) - 48
}

/// Appends the decimal digits of `n`.
pub(crate) fn push_decimal(out: &mut Vec<char>, n: u128)
    ensures
        final(out)@ == old(out)@ + decimal(n as nat),
    decreases n,
{
    if n < 10 {
        out.push(digit_to_char(n as u64));
        assert(decimal(n as nat) == seq![digit_char(n as int)]);
    } else {
        push_decimal(out, n / 10);
        out.push(digit_to_char((n % 10) as u64));
        assert(decimal(n as nat) == decimal((n / 10) as nat).push(digit_char((n % 10) as int)));
    }
}

proof fn lemma_decimal_len_pos(n: nat)
    ensures
        decimal(n).len() >= 1,
    decreases n,
{
    if n >= 10 {
        lemma_decimal_len_pos(n / 10);
    }
}

/// Appends `n` in decimal, zero-padded on the left to `width` characters.
pub(crate) fn push_zero_padded(out: &mut Vec<char>, n: u64, width: usize)
    ensures
        final(out)@ == old(out)@ + zero_pad(decimal(n as nat), width as nat),
{
    let mut digits: Vec<char> = Vec::new();
    push_decimal(&mut digits, n as u128);
    assert(digits@ == decimal(n as nat));
    let ghost start = out@;
    if digits.len() < width {
        let fill = width - digits.len();
        let mut k: usize = 0;
        while k < fill
            invariant
                k <= fill,
                out@ == start + Seq::new(k as nat, |i: int| '0'),
            decreases fill - k,
        {
            out.push('0');
            k = k + 1;
            assert(out@ =~= start + Seq::new(k as nat, |i: int| '0'));
        }
    }
    let ghost mid = out@;
    let mut j: usize = 0;
    while j < digits.len()
        invariant
            j <= digits.len(),
            out@ == mid + digits@.take(j as int),
        decreases digits.len() - j,
    {
        out.push(digits[j]);
        j = j + 1;
        assert(out@ =~= mid + digits@.take(j as int));
    }
    assert(digits@.take(digits.len() as int) =~= digits@);
    assert(out@ =~= old(out)@ + zero_pad(decimal(n as nat), width as nat));
}

/// Appends what `format!("{:0width$}", v)` prints.
pub(crate) fn push_padded(out: &mut Vec<char>, v: i64, width: usize)
    ensures
        final(out)@ == old(out)@ + padded(v as int, width as nat),
{
    if v < 0 {
        out.push('-');
        let w: usize = if width >= 1 { width - 1 } else { 0 };
        let mag: u64 = if v == i64::MIN { 9223372036854775808u64 } else { (-v) as u64 };
        push_zero_padded(out, mag, w);
        assert(out@ =~= old(out)@ + padded(v as int, width as nat));
    } else {
        push_zero_padded(out, v as u64, width);
    }
}

// ==================== integer parsing ====================

/// Rust's `FromStr` for an integer type whose values run from `min` to `max`
/// (`signed` tells whether the type accepts a leading `-`): an optional sign,
/// then at least one ASCII digit, and the value must fit the type.
pub open spec fn parse_integer(s: Seq<char>, signed: bool, min: int, max: int) -> Option<int> {
    if s.len() == 0 || s == seq!['+'] || s == seq!['-'] {
        None
    } else {
        let negative = signed && s[0] == '-';
        let digits = if s[0] == '+' || negative { s.skip(1) } else { s };
        if !all_digits(digits) {
            None
        } else {
            let v = if negative { -(digits_value(digits) as int) } else { digits_value(digits) as int };
            if min <= v <= max { Some(v) } else { None }
        }
    }
}

proof fn lemma_digits_value_take_step(s: Seq<char>, i: int)
    requires
        0 <= i < s.len(),
        is_digit(s[i]),
    ensures
        digits_value(s.take(i + 1)) == digits_value(s.take(i)) * 10 + digit_value(s[i]),
{
    assert(s.take(i + 1).drop_last() =~= s.take(i));
    assert(s.take(i + 1).last() == s[i]);
}

proof fn lemma_digits_value_grows(s: Seq<char>, i: int)
    requires
        0 <= i <= s.len(),
        all_digits(s),
    ensures
        digits_value(s.take(i)) <= digits_value(s),
    decreases s.len() - i,
{
    if i < s.len() {
        assert(is_digit(s[i]));
        lemma_digits_value_take_step(s, i);
        lemma_digits_value_grows(s, i + 1);
    } else {
        assert(s.take(i) =~= s);
    }
}

/// The digits of `s` from `from` on, accumulated while they stay within `limit`.
/// `None` when a non-digit occurs or the value exceeds `limit`.
fn digits_within(s: &Vec<char>, from: usize, limit: u64) -> (res: Option<u64>)
    requires
        from <= s.len(),
        limit >= 9,
    ensures
        match res {
            Some(v) => all_digits(s@.skip(from as int)) && v == digits_value(s@.skip(from as int))
                && v <= limit,
            None => !all_digits(s@.skip(from as int)) || digits_value(s@.skip(from as int))
                > limit,
        },
{
    let ghost d = s@.skip(from as int);
    let mut acc: u64 = 0;
    let mut i: usize = from;
    assert(d.take(0) =~= Seq::<char>::empty());
    while i < s.len()
        invariant
            from <= i <= s.len(),
            d == s@.skip(from as int),
            all_digits(d.take((i - from) as int)),
            acc == digits_value(d.take((i - from) as int)),
            acc <= limit,
            limit >= 9,
        decreases s.len() - i,
    {
        let c = s[i];
        assert(c == d[(i - from) as int]);
        if !is_digit_char(c) {
            return None;
        }
        let dv = char_digit_value(c);
        proof {
            lemma_digits_value_take_step(d, (i - from) as int);
        }
        if acc > (limit - dv as u64) / 10 {
            proof {
                assert(acc * 10 + dv > limit) by (nonlinear_arith)
                    requires
                        acc > (limit - dv) / 10,
                        0 <= dv < 10,
                        dv <= limit,
                ;
                let ghost j = (i - from) as int;
                assert forall|k: int| 0 <= k < j + 1 implies is_digit(#[trigger] d.take(j + 1)[k]) by {
                    if k < j {
                        assert(d.take(j + 1)[k] == d.take(j)[k]);
                    }
                }
                if all_digits(d) {
                    lemma_digits_value_grows(d, j + 1);
                }
            }
            return None;
        }
        proof {
            assert(acc * 10 + dv <= limit) by (nonlinear_arith)
                requires
                    acc <= (limit - dv) / 10,
                    0 <= dv < 10,
                    dv <= limit,
            ;
        }
        acc = acc * 10 + dv as u64;
        i = i + 1;
        proof {
            let j = (i - from) as int;
            assert forall|k: int| 0 <= k < j implies is_digit(#[trigger] d.take(j)[k]) by {
                if k < j - 1 {
                    assert(d.take(j)[k] == d.take(j - 1)[k]);
                }
            }
        }
    }
    assert(d.take((i - from) as int) =~= d);
    Some(acc)
}

/// Rust's `str::parse` for an integer type ranging from `min` to `max`, on characters.
fn parse_bounded(s: &Vec<char>, signed: bool, min: i128, max: i128) -> (res: Option<i128>)
    requires
        min <= 0,
        9 <= max <= u64::MAX,
        signed ==> -min >= 9,
        -min <= u64::MAX,
    ensures
        match res {
            Some(v) => parse_integer(s@, signed, min as int, max as int) == Some(v as int),
            None => parse_integer(s@, signed, min as int, max as int) is None,
        },
{
    if s.len() == 0 {
        return None;
    }
    if s.len() == 1 && (s[0] == '+' || s[0] == '-') {
        assert(s@ =~= seq![s[0]]);
        return None;
    }
    assert(s@ != seq!['+'] && s@ != seq!['-']) by {
        if s.len() == 1 {
            assert(s@[0] != '+' && s@[0] != '-');
        }
    }
    let negative = signed && s[0] == '-';
    let from: usize = if s[0] == '+' || negative { 1 } else { 0 };
    assert(from == 0 ==> s@.skip(0) =~= s@);
    if negative {
        let limit: u64 = (-min) as u64;
        match digits_within(s, from, limit) {
            Some(v) => Some(-(v as i128)),
            None => None,
        }
    } else {
        let limit: u64 = max as u64;
        match digits_within(s, from, limit) {
            Some(v) => Some(v as i128),
            None => None,
        }
    }
}

/// `s.parse::<i32>().ok()`.
pub fn parse_i32(s: &str) -> (res: Option<i32>)
    ensures
        match res {
            Some(v) => parse_integer(s@, true, i32::MIN as int, i32::MAX as int) == Some(v as int),
            None => parse_integer(s@, true, i32::MIN as int, i32::MAX as int) is None,
        },
{
    let cs = chars_of(s);
    match parse_bounded(&cs, true, i32::MIN as i128, i32::MAX as i128) {
        Some(v) => Some(v as i32),
        None => None,
    }
}

/// `s.parse::<u32>().ok()`.
pub fn parse_u32(s: &str) -> (res: Option<u32>)
    ensures
        match res {
            Some(v) => parse_integer(s@, false, 0, u32::MAX as int) == Some(v as int),
            None => parse_integer(s@, false, 0, u32::MAX as int) is None,
        },
{
    let cs = chars_of(s);
    match parse_bounded(&cs, false, 0, u32::MAX as i128) {
        Some(v) => Some(v as u32),
        None => None,
    }
}

/// `s.parse::<i64>().ok()` on characters.
pub(crate) fn parse_i64_chars(s: &Vec<char>) -> (res: Option<i64>)
    ensures
        match res {
            Some(v) => parse_integer(s@, true, i64::MIN as int, i64::MAX as int) == Some(v as int),
            None => parse_integer(s@, true, i64::MIN as int, i64::MAX as int) is None,
        },
{
    match parse_bounded(s, true, i64::MIN as i128, i64::MAX as i128) {
        Some(v) => Some(v as i64),
        None => None,
    }
}

/// `s.parse::<u64>().ok()` on characters.
pub(crate) fn parse_u64_chars(s: &Vec<char>) -> (res: Option<u64>)
    ensures
        match res {
            Some(v) => parse_integer(s@, false, 0, u64::MAX as int) == Some(v as int),
            None => parse_integer(s@, false, 0, u64::MAX as int) is None,
        },
{
    match parse_bounded(s, false, 0, u64::MAX as i128) {
        Some(v) => Some(v as u64),
        None => None,
    }
}

/// `s.parse::<i32>().ok()` on characters.
pub(crate) fn parse_i32_chars(s: &Vec<char>) -> (res: Option<i32>)
    ensures
        match res {
            Some(v) => parse_integer(s@, true, i32::MIN as int, i32::MAX as int) == Some(v as int),
            None => parse_integer(s@, true, i32::MIN as int, i32::MAX as int) is None,
        },
{
    match parse_bounded(s, true, i32::MIN as i128, i32::MAX as i128) {
        Some(v) => Some(v as i32),
        None => None,
    }
}

/// `s.parse::<u32>().ok()` on characters.
pub(crate) fn parse_u32_chars(s: &Vec<char>) -> (res: Option<u32>)
    ensures
        match res {
            Some(v) => parse_integer(s@, false, 0, u32::MAX as int) == Some(v as int),
            None => parse_integer(s@, false, 0, u32::MAX as int) is None,
        },
{
    match parse_bounded(s, false, 0, u32::MAX as i128) {
        Some(v) => Some(v as u32),
        None => None,
    }
}

// ==================== splitting ====================

/// The views of a vector of character vectors.
pub open spec fn views(v: Seq<Vec<char>>) -> Seq<Seq<char>> {
    v.map_values(|x: Vec<char>| x@)
}

/// `str::split` on a single character: the pieces between separators, so that `n`
/// separators give `n + 1` pieces (empty ones included).
pub open spec fn split_on(s: Seq<char>, sep: char) -> Seq<Seq<char>>
    decreases s.len(),
{
    if s.len() == 0 {
        seq![Seq::<char>::empty()]
    } else {
        let r = split_on(s.drop_last(), sep);
        if s.last() == sep {
            r.push(Seq::<char>::empty())
        } else {
            r.update(r.len() - 1, r.last().push(s.last()))
        }
    }
}

pub proof fn lemma_split_on_nonempty(s: Seq<char>, sep: char)
    ensures
        split_on(s, sep).len() >= 1,
    decreases s.len(),
{
    if s.len() > 0 {
        lemma_split_on_nonempty(s.drop_last(), sep);
    }
}

/// The pieces of `s` between occurrences of `sep`.
pub(crate) fn split_chars(s: &Vec<char>, sep: char) -> (res: Vec<Vec<char>>)
    ensures
        views(res@) == split_on(s@, sep),
{
    let mut pieces: Vec<Vec<char>> = Vec::new();
    let mut cur: Vec<char> = Vec::new();
    let mut i: usize = 0;
    assert(s@.take(0) =~= Seq::<char>::empty());
    assert(views(pieces@).push(cur@) =~= seq![Seq::<char>::empty()]);
    while i < s.len()
        invariant
            i <= s.len(),
            split_on(s@.take(i as int), sep) == views(pieces@).push(cur@),
        decreases s.len() - i,
    {
        let c = s[i];
        let ghost before = views(pieces@).push(cur@);
        assert(s@.take(i + 1).drop_last() =~= s@.take(i as int));
        assert(s@.take(i + 1).last() == c);
        if c == sep {
            let done = cur;
            pieces.push(done);
            cur = Vec::new();
            assert(views(pieces@).push(cur@) =~= before.push(Seq::<char>::empty()));
        } else {
            cur.push(c);
            assert(views(pieces@).push(cur@) =~= before.update(before.len() - 1, before.last().push(c)));
        }
        i = i + 1;
    }
    assert(s@.take(s.len() as int) =~= s@);
    pieces.push(cur);
    assert(views(pieces@) =~= split_on(s@, sep));
    pieces
}

/// `s` without any of the `c` at its end (`str::trim_end_matches` with a character).
pub open spec fn strip_trailing(s: Seq<char>, c: char) -> Seq<char>
    decreases s.len(),
{
    if s.len() > 0 && s.last() == c {
        strip_trailing(s.drop_last(), c)
    } else {
        s
    }
}

pub(crate) fn strip_trailing_chars(s: &Vec<char>, c: char) -> (res: Vec<char>)
    ensures
        res@ == strip_trailing(s@, c),
{
    let mut end: usize = s.len();
    assert(s@.take(end as int) =~= s@);
    while end > 0 && s[end - 1] == c
        invariant
            end <= s.len(),
            strip_trailing(s@, c) == strip_trailing(s@.take(end as int), c),
        decreases end,
    {
        assert(s@.take(end as int).drop_last() =~= s@.take(end - 1));
        end = end - 1;
    }
    let mut out: Vec<char> = Vec::new();
    let mut i: usize = 0;
    while i < end
        invariant
            i <= end <= s.len(),
            out@ == s@.take(i as int),
        decreases end - i,
    {
        out.push(s[i]);
        i = i + 1;
        assert(out@ =~= s@.take(i as int));
    }
    out
}

/// The position of the first `c` in `s`.
pub open spec fn first_index(s: Seq<char>, c: char) -> Option<int> {
    if exists|k: int| 0 <= k < s.len() && s[k] == c {
        Some(choose|k: int| 0 <= k < s.len() && s[k] == c && forall|j: int| 0 <= j < k ==> s[j] != c)
    } else {
        None
    }
}

pub(crate) fn find_char(s: &Vec<char>, c: char) -> (res: Option<usize>)
    ensures
        match res {
            Some(k) => first_index(s@, c) == Some(k as int) && k < s.len(),
            None => first_index(s@, c) is None,
        },
{
    let mut i: usize = 0;
    while i < s.len()
        invariant
            i <= s.len(),
            forall|j: int| 0 <= j < i ==> s@[j] != c,
        decreases s.len() - i,
    {
        if s[i] == c {
            let ghost k = i as int;
            assert(exists|k: int| 0 <= k < s@.len() && s@[k] == c);
            let ghost w = choose|k: int| 0 <= k < s@.len() && s@[k] == c && forall|j: int| 0 <= j < k ==> s@[j] != c;
            assert(0 <= w < s@.len() && s@[w] == c && forall|j: int| 0 <= j < w ==> s@[j] != c) by {
                assert(0 <= k < s@.len() && s@[k] == c && forall|j: int| 0 <= j < k ==> s@[j] != c);
            }
            assert(w == k) by {
                if w < k {
                } else if w > k {
                    assert(s@[k] != c);
                }
            }
            return Some(i);
        }
        i = i + 1;
    }
    None
}

/// The characters of `s` from `from` to `to`.
pub(crate) fn slice_chars(s: &Vec<char>, from: usize, to: usize) -> (res: Vec<char>)
    requires
        from <= to <= s.len(),
    ensures
        res@ == s@.subrange(from as int, to as int),
{
    let mut out: Vec<char> = Vec::new();
    let mut i: usize = from;
    while i < to
        invariant
            from <= i <= to <= s.len(),
            out@ == s@.subrange(from as int, i as int),
        decreases to - i,
    {
        out.push(s[i]);
        i = i + 1;
        assert(out@ =~= s@.subrange(from as int, i as int));
    }
    out
}

/// The values of those pieces that parse as `i64`, in order (`filter_map` of `parse::<i64>`).
pub open spec fn parsed_i64s(parts: Seq<Seq<char>>) -> Seq<int>
    decreases parts.len(),
{
    if parts.len() == 0 {
        seq![]
    } else {
        let r = parsed_i64s(parts.drop_last());
        match parse_integer(parts.last(), true, i64::MIN as int, i64::MAX as int) {
            Some(v) => r.push(v),
            None => r,
        }
    }
}

pub(crate) fn parse_i64_pieces(parts: &Vec<Vec<char>>) -> (res: Vec<i64>)
    ensures
        res@.map_values(|v: i64| v as int) == parsed_i64s(views(parts@)),
{
    let mut out: Vec<i64> = Vec::new();
    let mut i: usize = 0;
    assert(views(parts@).take(0) =~= Seq::<Seq<char>>::empty());
    while i < parts.len()
        invariant
            i <= parts.len(),
            out@.map_values(|v: i64| v as int) == parsed_i64s(views(parts@).take(i as int)),
        decreases parts.len() - i,
    {
        assert(views(parts@).take(i + 1).drop_last() =~= views(parts@).take(i as int));
        assert(views(parts@).take(i + 1).last() == parts@[i as int]@);
        let ghost before = out@;
        match parse_i64_chars(&parts[i]) {
            Some(v) => {
                out.push(v);
                assert(out@.map_values(|v: i64| v as int) =~= before.map_values(|v: i64| v as int).push(v as int));
            },
            None => {},
        }
        i = i + 1;
    }
    assert(views(parts@).take(parts.len() as int) =~= views(parts@));
    out
}

// ==================== reading back what was written ====================

proof fn lemma_digit_char_value(k: int)
    requires
        0 <= k < 10,
    ensures
        digit_value(digit_char(k)) == k,
        is_digit(digit_char(k)),
{
}

/// A decimal numeral is all digits, has at least one, and spells its number.
pub(crate) proof fn lemma_decimal_digits(n: nat)
    ensures
        all_digits(decimal(n)),
        decimal(n).len() >= 1,
        digits_value(decimal(n)) == n,
    decreases n,
{
    lemma_digit_char_value((n % 10) as int);
    if n < 10 {
        assert(decimal(n).drop_last() =~= Seq::<char>::empty());
        assert(digits_value(decimal(n)) == digits_value(Seq::<char>::empty()) * 10 + digit_value(digit_char(n as int)));
    } else {
        lemma_decimal_digits(n / 10);
        let d = decimal(n / 10);
        assert(decimal(n).drop_last() =~= d);
        assert(decimal(n).last() == digit_char((n % 10) as int));
        assert(digits_value(decimal(n)) == digits_value(d) * 10 + digit_value(digit_char((n % 10) as int)));
        assert(n == (n / 10) * 10 + n % 10);
        assert forall|i: int| 0 <= i < decimal(n).len() implies is_digit(#[trigger] decimal(n)[i]) by {
            if i < d.len() {
                assert(decimal(n)[i] == d[i]);
            }
        }
    }
}

proof fn lemma_zeros_value(z: Seq<char>)
    requires
        forall|i: int| 0 <= i < z.len() ==> z[i] == '0',
    ensures
        digits_value(z) == 0,
    decreases z.len(),
{
    if z.len() > 0 {
        lemma_zeros_value(z.drop_last());
    }
}

/// Leading zeros do not change the value of a numeral.
proof fn lemma_leading_zeros_value(z: Seq<char>, d: Seq<char>)
    requires
        forall|i: int| 0 <= i < z.len() ==> z[i] == '0',
    ensures
        digits_value(z + d) == digits_value(d),
    decreases d.len(),
{
    if d.len() == 0 {
        assert(z + d =~= z);
        lemma_zeros_value(z);
    } else {
        lemma_leading_zeros_value(z, d.drop_last());
        assert((z + d).drop_last() =~= z + d.drop_last());
        assert((z + d).last() == d.last());
    }
}

/// Parsing as an integer type reads back a zero-padded decimal numeral.
pub(crate) proof fn lemma_parse_zero_padded(n: nat, width: nat, signed: bool, min: int, max: int)
    requires
        min <= n <= max,
    ensures
        parse_integer(zero_pad(decimal(n), width), signed, min, max) == Some(n as int),
        all_digits(zero_pad(decimal(n), width)),
        zero_pad(decimal(n), width).len() >= 1,
{
    lemma_decimal_digits(n);
    let d = decimal(n);
    let s = zero_pad(d, width);
    if d.len() < width {
        let z = Seq::new((width - d.len()) as nat, |i: int| '0');
        assert(s == z + d);
        lemma_leading_zeros_value(z, d);
        assert forall|i: int| 0 <= i < s.len() implies is_digit(#[trigger] s[i]) by {
            if i >= z.len() {
                assert(s[i] == d[i - z.len()]);
            }
        }
    }
    assert(is_digit(s[0]));
    assert(s != seq!['+']) by {
        if s == seq!['+'] {
            assert(s[0] == '+');
        }
    }
    assert(s != seq!['-']) by {
        if s == seq!['-'] {
            assert(s[0] == '-');
        }
    }
}

/// Ten to the power `n`.
pub open spec fn ten_pow(n: nat) -> int
    decreases n,
{
    if n == 0 {
        1
    } else {
        10 * ten_pow((n - 1) as nat)
    }
}

/// A numeral of `n` digits is less than ten to the `n`.
pub(crate) proof fn lemma_digits_bound(a: Seq<char>)
    requires
        all_digits(a),
    ensures
        0 <= digits_value(a) < ten_pow(a.len()),
    decreases a.len(),
{
    if a.len() > 0 {
        let p = a.drop_last();
        assert(all_digits(p)) by {
            assert forall|i: int| 0 <= i < p.len() implies is_digit(#[trigger] p[i]) by {
                assert(p[i] == a[i]);
            }
        }
        lemma_digits_bound(p);
        assert(is_digit(a[a.len() - 1]));
    }
}

proof fn lemma_char_digit_char(c: char)
    requires
        is_digit(c),
    ensures
        digit_char(digit_value(c)) == c,
{
}

/// Zero-padding the decimal numeral of a numeral's value to its length gives the
/// numeral back.
pub(crate) proof fn lemma_zero_pad_digits(a: Seq<char>)
    requires
        all_digits(a),
        a.len() >= 1,
    ensures
        zero_pad(decimal(digits_value(a)), a.len()) == a,
        decimal(digits_value(a)).len() <= a.len(),
    decreases a.len(),
{
    let c = a.last();
    assert(is_digit(a[a.len() - 1]));
    lemma_char_digit_char(c);
    let k = digit_value(c);
    if a.len() == 1 {
        assert(a.drop_last() =~= Seq::<char>::empty());
        assert(digits_value(a) == k);
        assert(decimal(k as nat) =~= a);
    } else {
        let p = a.drop_last();
        assert(all_digits(p)) by {
            assert forall|i: int| 0 <= i < p.len() implies is_digit(#[trigger] p[i]) by {
                assert(p[i] == a[i]);
            }
        }
        lemma_zero_pad_digits(p);
        let vp = digits_value(p);
        let v = digits_value(a);
        assert(v == vp * 10 + k);
        if vp == 0 {
            assert(decimal(v as nat) =~= seq![c]);
            assert(decimal(0) =~= seq!['0']);
            let z = Seq::new((a.len() - 1) as nat, |i: int| '0');
            assert(p =~= z) by {
                assert forall|i: int| 0 <= i < p.len() implies p[i] == '0' by {
                    if p.len() > 1 {
                        assert(p[i] == Seq::new((p.len() - 1) as nat, |j: int| '0').add(seq!['0'])[i]);
                    }
                }
            }
            assert(zero_pad(decimal(v as nat), a.len()) =~= z + seq![c]);
            assert(a =~= p.push(c));
        } else {
            assert(v / 10 == vp);
            assert(v % 10 == k);
            let dp = decimal(vp as nat);
            assert(decimal(v as nat) == dp.push(c));
            let zp = Seq::new((p.len() - dp.len()) as nat, |i: int| '0');
            assert(p == zp + dp);
            assert(zero_pad(decimal(v as nat), a.len()) =~= zp + dp.push(c));
            assert(a =~= p.push(c));
        }
    }
}

/// Parsing as an integer type reads a numeral's value.
pub(crate) proof fn lemma_parse_digits(a: Seq<char>, signed: bool, min: int, max: int)
    requires
        all_digits(a),
        a.len() >= 1,
        min <= digits_value(a) <= max,
    ensures
        parse_integer(a, signed, min, max) == Some(digits_value(a) as int),
{
    assert(is_digit(a[0]));
    assert(a != seq!['+']) by {
        if a == seq!['+'] {
            assert(a[0] == '+');
        }
    }
    assert(a != seq!['-']) by {
        if a == seq!['-'] {
            assert(a[0] == '-');
        }
    }
}

/// No character of `a`, `x`, `b` is `c`.
pub(crate) proof fn lemma_avoids_join(a: Seq<char>, x: char, b: Seq<char>, c: char)
    requires
        !a.contains(c),
        x != c,
        !b.contains(c),
    ensures
        !(a + seq![x] + b).contains(c),
{
    let s = a + seq![x] + b;
    assert forall|i: int| 0 <= i < s.len() implies s[i] != c by {
        if i < a.len() {
            assert(s[i] == a[i]);
        } else if i == a.len() {
            assert(s[i] == x);
        } else {
            assert(s[i] == b[i - a.len() - 1]);
        }
    }
}

/// A numeral holds no character that is not a digit.
pub(crate) proof fn lemma_digits_avoid(s: Seq<char>, c: char)
    requires
        all_digits(s),
        !is_digit(c),
    ensures
        !s.contains(c),
{
    assert forall|i: int| 0 <= i < s.len() implies s[i] != c by {
        assert(is_digit(s[i]));
    }
}

proof fn lemma_split_append(p: Seq<char>, q: Seq<char>, sep: char)
    requires
        !q.contains(sep),
    ensures
        split_on(p + q, sep) == split_on(p, sep).update(split_on(p, sep).len() - 1, split_on(p, sep).last() + q),
    decreases q.len(),
{
    lemma_split_on_nonempty(p, sep);
    let r = split_on(p, sep);
    if q.len() == 0 {
        assert(p + q =~= p);
        assert(r.last() + q =~= r.last());
        assert(r.update(r.len() - 1, r.last() + q) =~= r);
    } else {
        let q2 = q.drop_last();
        assert(!q2.contains(sep)) by {
            assert forall|i: int| 0 <= i < q2.len() implies q2[i] != sep by {
                assert(q2[i] == q[i]);
            }
        }
        assert(q.last() != sep) by {
            assert(q[q.len() - 1] == q.last());
        }
        lemma_split_append(p, q2, sep);
        assert((p + q).drop_last() =~= p + q2);
        assert((p + q).last() == q.last());
        assert(r.last() + q =~= (r.last() + q2).push(q.last()));
        assert(split_on(p + q, sep) =~= r.update(r.len() - 1, r.last() + q));
    }
}

/// A piece without the separator is split into itself.
pub(crate) proof fn lemma_split_single(a: Seq<char>, sep: char)
    requires
        !a.contains(sep),
    ensures
        split_on(a, sep) == seq![a],
{
    lemma_split_append(Seq::empty(), a, sep);
    assert(Seq::<char>::empty() + a =~= a);
    assert(Seq::<char>::empty() + a =~= a);
    assert(seq![Seq::<char>::empty()].update(0, Seq::<char>::empty() + a) =~= seq![a]);
}

/// A separator followed by a piece without it adds that piece.
pub(crate) proof fn lemma_split_then(p: Seq<char>, b: Seq<char>, sep: char)
    requires
        !b.contains(sep),
    ensures
        split_on(p + seq![sep] + b, sep) == split_on(p, sep).push(b),
{
    assert(p.push(sep).drop_last() =~= p);
    let r = split_on(p.push(sep), sep);
    assert(r == split_on(p, sep).push(Seq::<char>::empty()));
    lemma_split_append(p.push(sep), b, sep);
    assert(p + seq![sep] + b =~= p.push(sep) + b);
    assert(Seq::<char>::empty() + b =~= b);
    assert(r.update(r.len() - 1, r.last() + b) =~= split_on(p, sep).push(b));
}

/// Trailing `c`s are stripped up to the last character that is not `c`.
pub(crate) proof fn lemma_strip_one(s: Seq<char>, c: char)
    requires
        s.len() > 0,
        s.last() != c,
    ensures
        strip_trailing(s.push(c), c) == s,
{
    assert(s.push(c).drop_last() =~= s);
    assert(strip_trailing(s, c) == s);
}

/// The first `c` of `a`, `c`, `b` is the one after `a` when `a` holds none.
pub(crate) proof fn lemma_first_index_after(a: Seq<char>, b: Seq<char>, c: char)
    requires
        !a.contains(c),
    ensures
        first_index(a + seq![c] + b, c) == Some(a.len() as int),
{
    let s = a + seq![c] + b;
    let k = a.len() as int;
    assert(s[k] == c);
    assert forall|j: int| 0 <= j < k implies s[j] != c by {
        assert(s[j] == a[j]);
    }
    assert(0 <= k < s.len() && s[k] == c && forall|j: int| 0 <= j < k ==> s[j] != c);
    let w = choose|i: int| 0 <= i < s.len() && s[i] == c && forall|j: int| 0 <= j < i ==> s[j] != c;
    assert(w == k) by {
        if w < k {
            assert(s[w] == a[w]);
        } else if w > k {
            assert(s[k] != c);
        }
    }
}

// ==================== trimming and comparing ====================

/// Unicode `White_Space`, which `char::is_whitespace` and `str::trim` go by.
pub open spec fn is_white_space(c: char) -> bool {
    ||| ('\u{9}' <= c && c <= '\u{d}')
    ||| c == ' '
    ||| c == '\u{85}'
    ||| c == '\u{a0}'
    ||| c == '\u{1680}'
    ||| ('\u{2000}' <= c && c <= '\u{200a}')
    ||| c == '\u{2028}'
    ||| c == '\u{2029}'
    ||| c == '\u{202f}'
    ||| c == '\u{205f}'
    ||| c == '\u{3000}'
}

pub(crate) fn is_white_space_char(c: char) -> (r: bool)
    ensures
        r == is_white_space(c),
{
    (c >= '\u{9}' && c <= '\u{d}') || c == ' ' || c == '\u{85}' || c == '\u{a0}' || c == '\u{1680}'
        || (c >= '\u{2000}' && c <= '\u{200a}') || c == '\u{2028}' || c == '\u{2029}' || c == '\u{202f}'
        || c == '\u{205f}' || c == '\u{3000}'
}

pub open spec fn trim_start(s: Seq<char>) -> Seq<char>
    decreases s.len(),
{
    if s.len() > 0 && is_white_space(s[0]) {
        trim_start(s.skip(1))
    } else {
        s
    }
}

pub open spec fn trim_end(s: Seq<char>) -> Seq<char>
    decreases s.len(),
{
    if s.len() > 0 && is_white_space(s.last()) {
        trim_end(s.drop_last())
    } else {
        s
    }
}

/// `str::trim`: white space removed at both ends.
pub open spec fn trim(s: Seq<char>) -> Seq<char> {
    trim_end(trim_start(s))
}

/// `s` without white space at either end.
pub(crate) fn trim_chars(s: &Vec<char>) -> (res: Vec<char>)
    ensures
        res@ == trim(s@),
{
    let mut a: usize = 0;
    assert(s@.skip(0) =~= s@);
    while a < s.len() && is_white_space_char(s[a])
        invariant
            a <= s.len(),
            trim_start(s@) == trim_start(s@.skip(a as int)),
        decreases s.len() - a,
    {
        assert(s@.skip(a as int).skip(1) =~= s@.skip(a + 1));
        a = a + 1;
    }
    let ghost t = s@.skip(a as int);
    assert(trim_start(s@) == t);
    let mut b: usize = s.len();
    assert(t.take((b - a) as int) =~= t);
    while b > a && is_white_space_char(s[b - 1])
        invariant
            a <= b <= s.len(),
            t == s@.skip(a as int),
            trim_end(t) == trim_end(t.take((b - a) as int)),
        decreases b,
    {
        assert(t.take((b - a) as int).drop_last() =~= t.take((b - 1 - a) as int));
        b = b - 1;
    }
    assert(s@.subrange(a as int, b as int) =~= t.take((b - a) as int));
    slice_chars(s, a, b)
}

/// ASCII letters lowered; other characters kept.
pub open spec fn ascii_lower(c: char) -> char {
    if 'A' <= c && c <= 'Z' {
        ((c as int) + 32) as char
    } else {
        c
    }
}

pub open spec fn lowered(s: Seq<char>) -> Seq<char> {
    s.map_values(|c: char| ascii_lower(c))
}

pub(crate) fn lower_chars(s: &Vec<char>) -> (res: Vec<char>)
    ensures
        res@ == lowered(s@),
{
    let mut out: Vec<char> = Vec::new();
    let mut i: usize = 0;
    while i < s.len()
        invariant
            i <= s.len(),
            out@ == lowered(s@.take(i as int)),
        decreases s.len() - i,
    {
        let c = s[i];
        let l = if c >= 'A' && c <= 'Z' {
            (((c as u32) + 32) as u8) as char
        } else {
            c
        };
        out.push(l);
        i = i + 1;
        assert(out@ =~= lowered(s@.take(i as int)));
    }
    assert(s@.take(s.len() as int) =~= s@);
    out
}

/// The two sequences of characters are equal.
pub(crate) fn chars_eq(a: &Vec<char>, b: &Vec<char>) -> (res: bool)
    ensures
        res == (a@ == b@),
{
    if a.len() != b.len() {
        return false;
    }
    let mut i: usize = 0;
    while i < a.len()
        invariant
            i <= a.len(),
            a.len() == b.len(),
            forall|j: int| 0 <= j < i ==> a@[j] == b@[j],
        decreases a.len() - i,
    {
        if a[i] != b[i] {
            return false;
        }
        i = i + 1;
    }
    assert(a@ =~= b@);
    true
}

/// The two strings are equal.
pub fn str_eq(a: &str, b: &str) -> (res: bool)
    ensures
        res == (a@ == b@),
{
    chars_eq(&chars_of(a), &chars_of(b))
}

/// `s` begins with `prefix`.
pub(crate) fn starts_with_chars(s: &Vec<char>, prefix: &Vec<char>) -> (res: bool)
    ensures
        res == (prefix@.len() <= s@.len() && s@.take(prefix@.len() as int) == prefix@),
{
    if prefix.len() > s.len() {
        return false;
    }
    let head = slice_chars(s, 0, prefix.len());
    assert(head@ =~= s@.take(prefix@.len() as int));
    chars_eq(&head, prefix)
}

/// The pieces joined with `sep` between them.
pub open spec fn joined(pieces: Seq<Seq<char>>, sep: Seq<char>) -> Seq<char>
    decreases pieces.len(),
{
    if pieces.len() == 0 {
        seq![]
    } else if pieces.len() == 1 {
        pieces[0]
    } else {
        joined(pieces.drop_last(), sep) + sep + pieces.last()
    }
}

/// Appends the strings, with `sep` between them.
pub(crate) fn push_joined(out: &mut Vec<char>, pieces: &Vec<String>, sep: &str)
    ensures
        final(out)@ == old(out)@ + joined(pieces@.map_values(|p: String| p@), sep@),
{
    let sep_chars = chars_of(sep);
    let ghost start = out@;
    let ghost views = pieces@.map_values(|p: String| p@);
    let mut i: usize = 0;
    assert(views.take(0) =~= Seq::<Seq<char>>::empty());
    while i < pieces.len()
        invariant
            i <= pieces.len(),
            sep_chars@ == sep@,
            views == pieces@.map_values(|p: String| p@),
            out@ == start + joined(views.take(i as int), sep@),
        decreases pieces.len() - i,
    {
        let ghost before = out@;
        if i > 0 {
            push_all(out, &sep_chars);
        }
        let piece = chars_of(pieces[i].as_str());
        push_all(out, &piece);
        assert(views.take(i + 1).drop_last() =~= views.take(i as int));
        assert(views.take(i + 1).last() == pieces@[i as int]@);
        if i == 0 {
            assert(views.take(1) =~= seq![pieces@[0]@]);
        }
        i = i + 1;
        assert(out@ =~= start + joined(views.take(i as int), sep@));
    }
    assert(views.take(pieces.len() as int) =~= views);
}

/// Appends all characters of `more`.
pub(crate) fn push_all(out: &mut Vec<char>, more: &Vec<char>)
    ensures
        final(out)@ == old(out)@ + more@,
{
    let ghost start = out@;
    let mut i: usize = 0;
    while i < more.len()
        invariant
            i <= more.len(),
            out@ == start + more@.take(i as int),
        decreases more.len() - i,
    {
        out.push(more[i]);
        i = i + 1;
        assert(out@ =~= start + more@.take(i as int));
    }
    assert(more@.take(more.len() as int) =~= more@);
}

/// Appends the characters of a string slice.
pub(crate) fn push_str(out: &mut Vec<char>, s: &str)
    ensures
        final(out)@ == old(out)@ + s@,
{
    let cs = chars_of(s);
    push_all(out, &cs);
}

} // verus!
