//! Verified text utilities: the line grammar of the beatmap format.
//!
//! Everything here is specified against `Seq<char>` views, so the section
//! router, the key/value reader and the numeric field readers have exact
//! functional contracts.

use vstd::prelude::*;

verus! {

/// Character-wise string equality.
pub fn str_eq(a: &str, b: &str) -> (r: bool)
    ensures
        r == (a@ == b@),
{
    let na: usize = a.unicode_len();
    let nb: usize = b.unicode_len();
    if na != nb {
        return false;
    }
    let mut i: usize = 0;
    while i < na
        invariant
            na == a@.len(),
            nb == b@.len(),
            na == nb,
            0 <= i <= na,
            forall|k: int| 0 <= k < i ==> a@[k] == b@[k],
        decreases na - i,
    {
        if a.get_char(i) != b.get_char(i) {
            proof {
                if a@ == b@ {
                    assert(a@[i as int] == b@[i as int]);
                }
            }
            return false;
        }
        i = i + 1;
    }
    proof {
        assert(a@ =~= b@);
    }
    true
}

/// Does `s` begin with `p`?
pub fn has_prefix(s: &str, p: &str) -> (r: bool)
    ensures
        r == (s@.len() >= p@.len() && s@.subrange(0, p@.len() as int) == p@),
{
    let n: usize = s.unicode_len();
    let np: usize = p.unicode_len();
    if n < np {
        return false;
    }
    let mut i: usize = 0;
    while i < np
        invariant
            n == s@.len(),
            np == p@.len(),
            np <= n,
            0 <= i <= np,
            forall|k: int| 0 <= k < i ==> s@[k] == p@[k],
        decreases np - i,
    {
        if s.get_char(i) != p.get_char(i) {
            proof {
                if s@.subrange(0, np as int) == p@ {
                    assert(s@.subrange(0, np as int)[i as int] == p@[i as int]);
                    assert(s@[i as int] == p@[i as int]);
                }
            }
            return false;
        }
        i = i + 1;
    }
    proof {
        assert(s@.subrange(0, np as int) =~= p@);
    }
    true
}

/// Index of the first occurrence of `sep` in `s` at or after `i`, or the
/// length of `s` when there is none.
pub open spec fn find_from(s: Seq<char>, sep: char, i: int) -> int
    recommends
        0 <= i <= s.len(),
    decreases s.len() - i,
    when 0 <= i <= s.len()
{
    if i >= s.len() {
        s.len() as int
    } else if s[i] == sep {
        i
    } else {
        find_from(s, sep, i + 1)
    }
}

pub proof fn lemma_find_from_range(s: Seq<char>, sep: char, i: int)
    requires
        0 <= i <= s.len(),
    ensures
        i <= find_from(s, sep, i) <= s.len(),
        find_from(s, sep, i) < s.len() ==> s[find_from(s, sep, i)] == sep,
        forall|k: int| i <= k < find_from(s, sep, i) ==> s[k] != sep,
    decreases s.len() - i,
{
    if i >= s.len() {
    } else if s[i] == sep {
    } else {
        lemma_find_from_range(s, sep, i + 1);
    }
}

/// `find_from` is determined by the first separator position.
pub proof fn lemma_find_from_at(s: Seq<char>, sep: char, i: int, j: int)
    requires
        0 <= i <= j <= s.len(),
        forall|k: int| i <= k < j ==> s[k] != sep,
        j < s.len() ==> s[j] == sep,
    ensures
        find_from(s, sep, i) == j,
    decreases j - i,
{
    if i >= s.len() {
    } else if s[i] == sep {
        assert(i == j);
    } else {
        lemma_find_from_at(s, sep, i + 1, j);
    }
}

/// The pieces of `s` between occurrences of `sep`; always at least one
/// piece, and empty pieces are kept.
pub open spec fn spec_split(s: Seq<char>, sep: char) -> Seq<Seq<char>>
    decreases s.len(),
{
    let j = find_from(s, sep, 0);
    if 0 <= j < s.len() {
        seq![s.subrange(0, j)] + spec_split(s.subrange(j + 1, s.len() as int), sep)
    } else {
        seq![s]
    }
}

pub proof fn lemma_split_len(s: Seq<char>, sep: char)
    ensures
        spec_split(s, sep).len() >= 1,
{
    let j = find_from(s, sep, 0);
    if 0 <= j < s.len() {
    } else {
    }
}

/// Split a string on a separator character.
pub fn split_str(s: &str, sep: char) -> (r: Vec<String>)
    ensures
        r@.map_values(|t: String| t@) == spec_split(s@, sep),
        r@.len() >= 1,
{
    let n: usize = s.unicode_len();
    let mut parts: Vec<String> = Vec::new();
    proof {
        assert(s@.subrange(0, n as int) =~= s@);
        assert(parts@.map_values(|t: String| t@) =~= Seq::<Seq<char>>::empty());
    }
    let mut start: usize = 0;
    let mut i: usize = 0;
    while i < n
        invariant
            n == s@.len(),
            0 <= start <= i <= n,
            forall|k: int| start <= k < i ==> s@[k] != sep,
            spec_split(s@, sep) =~= parts@.map_values(|t: String| t@) + spec_split(
                s@.subrange(start as int, n as int),
                sep,
            ),
        decreases n - i,
    {
        if s.get_char(i) == sep {
            let piece: String = s.substring_char(start, i).to_owned();
            proof {
                let tail = s@.subrange(start as int, n as int);
                lemma_find_from_at(tail, sep, 0, i - start);
                assert(tail.subrange(0, i - start) =~= s@.subrange(start as int, i as int));
                assert(tail.subrange(i - start + 1, tail.len() as int) =~= s@.subrange(
                    i as int + 1,
                    n as int,
                ));
                let old_map = parts@.map_values(|t: String| t@);
                assert((parts@ + seq![piece]).map_values(|t: String| t@) =~= old_map + seq![
                    piece@,
                ]);
                assert((old_map + seq![piece@]) + spec_split(
                    s@.subrange(i as int + 1, n as int),
                    sep,
                ) =~= old_map + (seq![piece@] + spec_split(s@.subrange(i as int + 1, n as int), sep)));
            }
            parts.push(piece);
            start = i + 1;
        }
        i = i + 1;
    }
    let last: String = s.substring_char(start, n).to_owned();
    proof {
        let tail = s@.subrange(start as int, n as int);
        lemma_find_from_at(tail, sep, 0, n - start);
        assert(spec_split(tail, sep) =~= seq![tail]);
        let old_map = parts@.map_values(|t: String| t@);
        assert((parts@ + seq![last]).map_values(|t: String| t@) =~= old_map + seq![last@]);
        assert(old_map + seq![tail] =~= spec_split(s@, sep));
    }
    parts.push(last);
    proof {
        lemma_split_len(s@, sep);
    }
    parts
}

/// Is `c` an ASCII decimal digit?
pub open spec fn spec_is_digit(c: char) -> bool {
    48 <= c as u32 <= 57
}

/// Numeric value of a digit character.
pub open spec fn digit_val(c: char) -> int {
    c as u32 as int - 48
}

/// Every character of `s` is a decimal digit.
pub open spec fn all_digits(s: Seq<char>) -> bool {
    forall|k: int| 0 <= k < s.len() ==> spec_is_digit(#[trigger] s[k])
}

/// The number denoted by a digit string, most significant digit first.
pub open spec fn digits_val(s: Seq<char>) -> int
    decreases s.len(),
{
    if s.len() == 0 {
        0
    } else {
        digits_val(s.drop_last()) * 10 + digit_val(s.last())
    }
}

pub proof fn lemma_digits_val_nonneg(s: Seq<char>)
    requires
        all_digits(s),
    ensures
        digits_val(s) >= 0,
    decreases s.len(),
{
    if s.len() > 0 {
        assert(all_digits(s.drop_last()));
        lemma_digits_val_nonneg(s.drop_last());
        assert(digits_val(s.drop_last()) * 10 >= 0) by (nonlinear_arith)
            requires
                digits_val(s.drop_last()) >= 0,
        ;
    }
}

proof fn lemma_sat_digit_step(v: int, d: int)
    requires
        v >= 0,
        0 <= d <= 9,
    ensures
        crate::fx::clip(crate::fx::clip(v) * 10 + d) == crate::fx::clip(v * 10 + d),
{
    if v > i64::MAX as int {
        assert(v * 10 >= v) by (nonlinear_arith)
            requires
                v >= 0,
        ;
    }
}

/// Read the digit run `s[from..to]` as a saturated non-negative number.
/// Yields nothing when the run is empty or holds a non-digit.
pub fn parse_digits(s: &str, from: usize, to: usize) -> (r: Option<i64>)
    requires
        from <= to <= s@.len(),
    ensures
        match r {
            Some(v) => {
                &&& all_digits(s@.subrange(from as int, to as int))
                &&& to > from
                &&& v as int == crate::fx::clip(digits_val(s@.subrange(from as int, to as int)))
                &&& v >= 0
            },
            None => !(all_digits(s@.subrange(from as int, to as int)) && to > from),
        },
{
    if from == to {
        return None;
    }
    let mut acc: i64 = 0;
    let mut i: usize = from;
    proof {
        assert(s@.subrange(from as int, from as int) =~= Seq::<char>::empty());
    }
    while i < to
        invariant
            from <= i <= to <= s@.len(),
            all_digits(s@.subrange(from as int, i as int)),
            acc as int == crate::fx::clip(digits_val(s@.subrange(from as int, i as int))),
            acc >= 0,
        decreases to - i,
    {
        let c: char = s.get_char(i);
        let u: u32 = c as u32;
        if u < 48 || u > 57 {
            proof {
                let full = s@.subrange(from as int, to as int);
                assert(full[i - from] == s@[i as int]);
                assert(!spec_is_digit(full[i - from]));
            }
            return None;
        }
        let d: i64 = (u - 48) as i64;
        let wide: i128 = (acc as i128) * 10 + (d as i128);
        let next: i64 = if wide > i64::MAX as i128 {
            i64::MAX
        } else {
            wide as i64
        };
        proof {
            let pre = s@.subrange(from as int, i as int);
            let post = s@.subrange(from as int, i as int + 1);
            assert(post.drop_last() =~= pre);
            assert(post.last() == s@[i as int]);
            lemma_digits_val_nonneg(pre);
            lemma_sat_digit_step(digits_val(pre), digit_val(s@[i as int]));
        }
        acc = next;
        i = i + 1;
    }
    proof {
        assert(s@.subrange(from as int, i as int) =~= s@.subrange(from as int, to as int));
    }
    Some(acc)
}

/// A signed whole number: an optional sign, then at least one digit.
pub open spec fn spec_parse_int(s: Seq<char>) -> Option<int> {
    if s.len() >= 2 && (s[0] == '-' || s[0] == '+') && all_digits(s.subrange(1, s.len() as int)) {
        if s[0] == '-' {
            Some(-digits_val(s.subrange(1, s.len() as int)))
        } else {
            Some(digits_val(s.subrange(1, s.len() as int)))
        }
    } else if s.len() >= 1 && all_digits(s) {
        Some(digits_val(s))
    } else {
        None
    }
}

/// A value saturated into the `i64` range, its magnitude saturated first.
pub open spec fn sat_val(m: int) -> int {
    if m >= 0 {
        crate::fx::clip(m)
    } else {
        -crate::fx::clip(-m)
    }
}

/// Read a whole number field. Yields the saturated value of exactly the
/// strings that the signed-digits grammar admits.
pub fn parse_int(s: &str) -> (r: Option<i64>)
    ensures
        r is Some <==> spec_parse_int(s@) is Some,
        r matches Some(v) ==> v as int == sat_val(spec_parse_int(s@).unwrap()),
{
    let n: usize = s.unicode_len();
    if n == 0 {
        return None;
    }
    let c0: char = s.get_char(0);
    if c0 == '-' || c0 == '+' {
        let mag: Option<i64> = parse_digits(s, 1, n);
        match mag {
            Some(v) => {
                proof {
                    lemma_digits_val_nonneg(s@.subrange(1, n as int));
                }
                if c0 == '-' {
                    Some(-v)
                } else {
                    Some(v)
                }
            },
            None => None,
        }
    } else {
        let mag: Option<i64> = parse_digits(s, 0, n);
        match mag {
            Some(v) => {
                proof {
                    assert(s@.subrange(0, n as int) =~= s@);
                    lemma_digits_val_nonneg(s@);
                }
                Some(v)
            },
            None => None,
        }
    }
}

/// Value of a fraction-digit run read from position `i` on, weighted by
/// `place` (10000 for the first digit); digits past the fifth contribute
/// nothing.
pub open spec fn frac_val_from(s: Seq<char>, i: int, place: int) -> int
    decreases s.len() - i,
    when 0 <= i <= s.len()
{
    if i >= s.len() || place <= 0 {
        0
    } else {
        digit_val(s[i]) * place + frac_val_from(s, i + 1, place / 10)
    }
}

/// Fixed-point value of the digits after the decimal dot.
pub open spec fn frac_val(s: Seq<char>) -> int {
    frac_val_from(s, 0, 10000)
}

/// An unsigned decimal: digits, optionally a dot and more digits, with at
/// least one digit on one side. The value is in fixed-point units.
pub open spec fn spec_fx_body(s: Seq<char>) -> Option<int> {
    let d = find_from(s, '.', 0);
    let ip = s.subrange(0, d);
    let fp = if d < s.len() {
        s.subrange(d + 1, s.len() as int)
    } else {
        Seq::<char>::empty()
    };
    if all_digits(ip) && all_digits(fp) && (ip.len() >= 1 || fp.len() >= 1) {
        Some(digits_val(ip) * (crate::fx::SCALE as int) + frac_val(fp))
    } else {
        None
    }
}

/// A signed decimal in fixed-point units.
pub open spec fn spec_parse_fx(s: Seq<char>) -> Option<int> {
    if s.len() >= 1 && (s[0] == '-' || s[0] == '+') {
        match spec_fx_body(s.subrange(1, s.len() as int)) {
            Some(m) => Some(
                if s[0] == '-' {
                    -m
                } else {
                    m
                },
            ),
            None => None,
        }
    } else {
        spec_fx_body(s)
    }
}

proof fn lemma_sat_scale_step(a: int, f: int)
    requires
        a >= 0,
        0 <= f <= 100000,
    ensures
        crate::fx::clip(crate::fx::clip(a) * (crate::fx::SCALE as int) + f) == crate::fx::clip(
            a * (crate::fx::SCALE as int) + f,
        ),
{
    if a > i64::MAX as int {
        assert(a * (crate::fx::SCALE as int) >= a) by (nonlinear_arith)
            requires
                a >= 0,
        ;
    }
}

proof fn lemma_frac_val_bound(s: Seq<char>, i: int, place: int)
    requires
        0 <= i <= s.len(),
        all_digits(s),
        0 <= place <= 10000,
    ensures
        0 <= frac_val_from(s, i, place) <= 10 * place,
    decreases s.len() - i,
{
    if i >= s.len() || place <= 0 {
    } else {
        lemma_frac_val_bound(s, i + 1, place / 10);
        assert(0 <= digit_val(s[i]) * place <= 9 * place) by (nonlinear_arith)
            requires
                0 <= digit_val(s[i]) <= 9,
                place >= 0,
        ;
        assert(frac_val_from(s, i + 1, place / 10) <= 10 * (place / 10));
        assert(10 * (place / 10) <= place) by (nonlinear_arith)
            requires
                place >= 0,
        ;
    }
}

/// Read the fraction digits `s[fs..n]` (already known to be digits) as a
/// fixed-point fraction.
fn read_frac(s: &str, fs: usize, n: usize) -> (r: i64)
    requires
        fs <= n <= s@.len(),
        all_digits(s@.subrange(fs as int, n as int)),
    ensures
        r as int == frac_val(s@.subrange(fs as int, n as int)),
        0 <= r <= 100000,
{
    proof {
        reveal_with_fuel(frac_val_from, 7);
    }
    let ghost fp = s@.subrange(fs as int, n as int);
    proof {
        lemma_frac_val_bound(s@.subrange(fs as int, n as int), 0, 10000);
    }
    let mut total: i64 = 0;
    let mut i: usize = 0;
    let mut place: i64 = 10000;
    let len: usize = n - fs;
    while i < len && place > 0
        invariant
            fs <= n <= s@.len(),
            fp == s@.subrange(fs as int, n as int),
            all_digits(fp),
            len == n - fs,
            0 <= i <= len,
            place == (if i == 0 {
                10000int
            } else if i == 1 {
                1000int
            } else if i == 2 {
                100int
            } else if i == 3 {
                10int
            } else if i == 4 {
                1int
            } else {
                0int
            }),
            frac_val(fp) == total + frac_val_from(fp, i as int, place as int),
            0 <= total,
            0 <= frac_val(fp) <= 100000,
        decreases len - i,
    {
        let c: char = s.get_char(fs + i);
        proof {
            assert(fp[i as int] == s@[fs + i]);
            assert(spec_is_digit(fp[i as int]));
            lemma_frac_val_bound(fp, i as int + 1, place as int / 10);
            assert(digit_val(fp[i as int]) * (place as int) <= 9 * (place as int))
                by (nonlinear_arith)
                requires
                    0 <= digit_val(fp[i as int]) <= 9,
                    place as int >= 0,
            ;
            assert(digit_val(fp[i as int]) * (place as int) >= 0) by (nonlinear_arith)
                requires
                    0 <= digit_val(fp[i as int]),
                    place as int >= 0,
            ;
            assert(frac_val_from(fp, i as int, place as int) == digit_val(fp[i as int]) * (
            place as int) + frac_val_from(fp, i as int + 1, place as int / 10));
        }
        let d: i64 = ((c as u32) - 48) as i64;
        total = total + d * place;
        i = i + 1;
        place = place / 10;
    }
    proof {
        if i < len {
            assert(place == 0);
            assert(frac_val_from(fp, i as int, 0) == 0);
        } else {
            assert(frac_val_from(fp, i as int, place as int) == 0);
        }
    }
    total
}

/// Read a decimal field into a saturated fixed-point value. Yields exactly
/// the strings that the signed-decimal grammar admits.
pub fn parse_fx(s: &str) -> (r: Option<i64>)
    ensures
        r is Some <==> spec_parse_fx(s@) is Some,
        r matches Some(v) ==> v as int == sat_val(spec_parse_fx(s@).unwrap()),
{
    let n: usize = s.unicode_len();
    if n == 0 {
        proof {
            assert(s@.subrange(0, 0) =~= Seq::<char>::empty());
        }
        return None;
    }
    let c0: char = s.get_char(0);
    let signed: bool = c0 == '-' || c0 == '+';
    let start: usize = if signed {
        1
    } else {
        0
    };
    let ghost body = s@.subrange(start as int, n as int);
    proof {
        if !signed {
            assert(body =~= s@);
        }
    }
    // find the dot inside the body
    let mut dot: usize = start;
    while dot < n && s.get_char(dot) != '.'
        invariant
            start <= dot <= n <= s@.len(),
            forall|k: int| start <= k < dot ==> s@[k] != '.',
        decreases n - dot,
    {
        dot = dot + 1;
    }
    proof {
        assert forall|k: int| 0 <= k < dot - start implies body[k] != '.' by {
            assert(body[k] == s@[start + k]);
        }
        if dot < n {
            assert(body[dot - start] == s@[dot as int]);
        }
        lemma_find_from_at(body, '.', 0, dot - start);
        assert(body.subrange(0, dot - start) =~= s@.subrange(start as int, dot as int));
        if dot < n {
            assert(body.subrange(dot - start + 1, body.len() as int) =~= s@.subrange(
                dot as int + 1,
                n as int,
            ));
        }
    }
    // integer part
    let ip_val: i64 = if dot == start {
        proof {
            assert(s@.subrange(start as int, dot as int) =~= Seq::<char>::empty());
        }
        0
    } else {
        match parse_digits(s, start, dot) {
            Some(v) => v,
            None => {
                return None;
            },
        }
    };
    // fraction part: bounds and digits
    let fs: usize = if dot < n {
        dot + 1
    } else {
        n
    };
    let ghost fp = if dot < n {
        s@.subrange(dot as int + 1, n as int)
    } else {
        Seq::<char>::empty()
    };
    proof {
        if dot >= n {
            assert(s@.subrange(fs as int, n as int) =~= Seq::<char>::empty());
        }
    }
    let mut frac_ok: bool = true;
    let mut k: usize = fs;
    while k < n
        invariant
            fs <= k <= n <= s@.len(),
            n == s@.len(),
            frac_ok <==> (forall|j: int| fs <= j < k ==> spec_is_digit(#[trigger] s@[j])),
        decreases n - k,
    {
        let c: char = s.get_char(k);
        let u: u32 = c as u32;
        if u < 48 || u > 57 {
            frac_ok = false;
        }
        k = k + 1;
    }
    proof {
        assert(fp =~= s@.subrange(fs as int, n as int));
        if frac_ok {
            assert forall|j: int| 0 <= j < fp.len() implies spec_is_digit(#[trigger] fp[j]) by {
                assert(fp[j] == s@[fs + j]);
            }
        } else {
            let j = choose|j: int| fs <= j < n && !spec_is_digit(#[trigger] s@[j]);
            assert(fp[j - fs] == s@[j]);
            assert(!all_digits(fp));
        }
    }
    if !frac_ok {
        return None;
    }
    if dot == start && fs == n {
        // no digit on either side
        return None;
    }
    let fval: i64 = read_frac(s, fs, n);
    proof {
        lemma_sat_scale_step((if dot == start {
            0int
        } else {
            digits_val(s@.subrange(start as int, dot as int))
        }), fval as int);
        if dot != start {
            lemma_digits_val_nonneg(s@.subrange(start as int, dot as int));
        }
        assert((ip_val as int) * (crate::fx::SCALE as int) + (fval as int) <= (i64::MAX as int) * (
        crate::fx::SCALE as int) + 100000) by (nonlinear_arith)
            requires
                0 <= ip_val as int <= i64::MAX as int,
                0 <= fval as int <= 100000,
        ;
    }
    let wide: i128 = (ip_val as i128) * (crate::fx::SCALE as i128) + (fval as i128);
    let mag: i64 = if wide > i64::MAX as i128 {
        i64::MAX
    } else {
        wide as i64
    };
    if signed && c0 == '-' {
        Some(-mag)
    } else {
        Some(mag)
    }
}

/// The value of a field that must fit an `i32`: out-of-range or malformed
/// fields count as zero.
pub open spec fn spec_int32_or_zero(s: Seq<char>) -> int {
    match spec_parse_int(s) {
        Some(m) => if -2147483648 <= m <= 2147483647 {
            m
        } else {
            0
        },
        None => 0,
    }
}

/// Read an `i32` field, zero on anything malformed or out of range.
pub fn parse_int32_or_zero(s: &str) -> (r: i32)
    ensures
        r as int == spec_int32_or_zero(s@),
{
    match parse_int(s) {
        Some(v) => {
            if -2147483648 <= v && v <= 2147483647 {
                v as i32
            } else {
                0
            }
        },
        None => 0,
    }
}

/// The fixed-point value of a decimal field, zero when malformed.
pub open spec fn spec_fx_or_zero(s: Seq<char>) -> int {
    match spec_parse_fx(s) {
        Some(m) => sat_val(m),
        None => 0,
    }
}

/// Read a decimal field as a fixed-point value, zero when malformed.
pub fn parse_fx_or_zero(s: &str) -> (r: i64)
    ensures
        r as int == spec_fx_or_zero(s@),
{
    match parse_fx(s) {
        Some(v) => v,
        None => 0,
    }
}

/// The piece at index `i`, or the empty string past the end.
pub open spec fn piece_at(parts: Seq<Seq<char>>, i: int) -> Seq<char> {
    if 0 <= i < parts.len() {
        parts[i]
    } else {
        Seq::<char>::empty()
    }
}

/// The nonempty pieces of a sequence, in order.
pub open spec fn spec_nonempty_pieces(parts: Seq<Seq<char>>) -> Seq<Seq<char>>
    decreases parts.len(),
{
    if parts.len() == 0 {
        Seq::<Seq<char>>::empty()
    } else {
        let p = spec_nonempty_pieces(parts.drop_last());
        if parts[parts.len() - 1].len() > 0 {
            p.push(parts[parts.len() - 1])
        } else {
            p
        }
    }
}

proof fn lemma_nonempty_pieces_step(parts: Seq<Seq<char>>, j: int)
    requires
        0 <= j < parts.len(),
    ensures
        spec_nonempty_pieces(parts.take(j + 1)) == (if parts[j].len() > 0 {
            spec_nonempty_pieces(parts.take(j)).push(parts[j])
        } else {
            spec_nonempty_pieces(parts.take(j))
        }),
{
    let t = parts.take(j + 1);
    assert(t.drop_last() =~= parts.take(j));
    assert(t[t.len() - 1] == parts[j]);
}

/// Index of the first whitespace character in `s` at or after `i`, or the
/// length of `s` when there is none.
pub open spec fn find_ws_from(s: Seq<char>, i: int) -> int
    decreases s.len() - i,
    when 0 <= i <= s.len()
{
    if i >= s.len() {
        s.len() as int
    } else if spec_is_space(s[i]) {
        i
    } else {
        find_ws_from(s, i + 1)
    }
}

pub proof fn lemma_find_ws_at(s: Seq<char>, i: int, j: int)
    requires
        0 <= i <= j <= s.len(),
        forall|k: int| i <= k < j ==> !spec_is_space(#[trigger] s[k]),
        j < s.len() ==> spec_is_space(s[j]),
    ensures
        find_ws_from(s, i) == j,
    decreases j - i,
{
    if i < j {
        lemma_find_ws_at(s, i + 1, j);
    }
}

/// The pieces of `s` between whitespace characters; empty pieces are kept.
pub open spec fn spec_split_ws(s: Seq<char>) -> Seq<Seq<char>>
    decreases s.len(),
{
    let j = find_ws_from(s, 0);
    if 0 <= j < s.len() {
        seq![s.subrange(0, j)] + spec_split_ws(s.subrange(j + 1, s.len() as int))
    } else {
        seq![s]
    }
}

/// Split a string at every whitespace character.
fn split_on_ws(s: &str) -> (r: Vec<String>)
    ensures
        r@.map_values(|t: String| t@) == spec_split_ws(s@),
        r@.len() >= 1,
{
    let n: usize = s.unicode_len();
    let mut parts: Vec<String> = Vec::new();
    proof {
        assert(s@.subrange(0, n as int) =~= s@);
        assert(parts@.map_values(|t: String| t@) =~= Seq::<Seq<char>>::empty());
    }
    let mut start: usize = 0;
    let mut i: usize = 0;
    while i < n
        invariant
            n == s@.len(),
            0 <= start <= i <= n,
            forall|k: int| start <= k < i ==> !spec_is_space(#[trigger] s@[k]),
            spec_split_ws(s@) =~= parts@.map_values(|t: String| t@) + spec_split_ws(
                s@.subrange(start as int, n as int),
            ),
        decreases n - i,
    {
        if is_space_char(s.get_char(i)) {
            let piece: String = s.substring_char(start, i).to_owned();
            proof {
                let tail = s@.subrange(start as int, n as int);
                assert forall|k: int| 0 <= k < i - start implies !spec_is_space(
                    #[trigger] tail[k],
                ) by {
                    assert(tail[k] == s@[start + k]);
                }
                assert(tail[i - start] == s@[i as int]);
                lemma_find_ws_at(tail, 0, i - start);
                assert(tail.subrange(0, i - start) =~= s@.subrange(start as int, i as int));
                assert(tail.subrange(i - start + 1, tail.len() as int) =~= s@.subrange(
                    i as int + 1,
                    n as int,
                ));
                let old_map = parts@.map_values(|t: String| t@);
                assert((parts@ + seq![piece]).map_values(|t: String| t@) =~= old_map + seq![
                    piece@,
                ]);
                assert((old_map + seq![piece@]) + spec_split_ws(
                    s@.subrange(i as int + 1, n as int),
                ) =~= old_map + (seq![piece@] + spec_split_ws(s@.subrange(i as int + 1, n as int))));
            }
            parts.push(piece);
            start = i + 1;
        }
        i = i + 1;
    }
    let last: String = s.substring_char(start, n).to_owned();
    proof {
        let tail = s@.subrange(start as int, n as int);
        assert forall|k: int| 0 <= k < n - start implies !spec_is_space(#[trigger] tail[k]) by {
            assert(tail[k] == s@[start + k]);
        }
        lemma_find_ws_at(tail, 0, n - start);
        assert(spec_split_ws(tail) =~= seq![tail]);
        let old_map = parts@.map_values(|t: String| t@);
        assert((parts@ + seq![last]).map_values(|t: String| t@) =~= old_map + seq![last@]);
        assert(old_map + seq![tail] =~= spec_split_ws(s@));
    }
    parts.push(last);
    parts
}

/// Split a line on whitespace into its nonempty words.
pub fn split_words(s: &str) -> (r: Vec<String>)
    ensures
        r@.map_values(|t: String| t@) == spec_nonempty_pieces(spec_split_ws(s@)),
{
    let pieces: Vec<String> = split_on_ws(s);
    let ghost parts = spec_split_ws(s@);
    let mut out: Vec<String> = Vec::new();
    proof {
        assert(parts.take(0) =~= Seq::<Seq<char>>::empty());
        assert(out@.map_values(|t: String| t@) =~= spec_nonempty_pieces(parts.take(0)));
    }
    let m: usize = pieces.len();
    let mut i: usize = 0;
    while i < m
        invariant
            0 <= i <= m == pieces@.len(),
            parts == pieces@.map_values(|t: String| t@),
            out@.map_values(|t: String| t@) == spec_nonempty_pieces(parts.take(i as int)),
        decreases m - i,
    {
        proof {
            lemma_nonempty_pieces_step(parts, i as int);
            assert(parts[i as int] == pieces@[i as int]@);
        }
        let piece: &String = &pieces[i];
        if piece.as_str().unicode_len() > 0 {
            let copied: String = piece.as_str().to_owned();
            proof {
                let old_map = out@.map_values(|t: String| t@);
                assert((out@ + seq![copied]).map_values(|t: String| t@) =~= old_map + seq![
                    copied@,
                ]);
                assert(old_map.push(copied@) =~= old_map + seq![copied@]);
            }
            out.push(copied);
        }
        i = i + 1;
    }
    proof {
        assert(parts.take(m as int) =~= parts);
    }
    out
}

/// Does the string contain the character anywhere?
pub fn contains_char(s: &str, c: char) -> (r: bool)
    ensures
        r == exists|k: int| 0 <= k < s@.len() && s@[k] == c,
{
    let n: usize = s.unicode_len();
    let mut i: usize = 0;
    while i < n
        invariant
            0 <= i <= n == s@.len(),
            forall|k: int| 0 <= k < i ==> s@[k] != c,
        decreases n - i,
    {
        if s.get_char(i) == c {
            return true;
        }
        i = i + 1;
    }
    false
}

/// Is `c` an ASCII word character (letter, digit or underscore)?
pub open spec fn spec_is_word(c: char) -> bool {
    (48 <= c as u32 <= 57) || (65 <= c as u32 <= 90) || (97 <= c as u32 <= 122) || c as u32 == 95
}

/// Is `c` horizontal whitespace (space, tab or carriage return)?
pub open spec fn spec_is_space(c: char) -> bool {
    c as u32 == 32 || c as u32 == 9 || c as u32 == 13
}

fn is_word_char(c: char) -> (r: bool)
    ensures
        r == spec_is_word(c),
{
    let u: u32 = c as u32;
    (48 <= u && u <= 57) || (65 <= u && u <= 90) || (97 <= u && u <= 122) || u == 95
}

fn is_space_char(c: char) -> (r: bool)
    ensures
        r == spec_is_space(c),
{
    let u: u32 = c as u32;
    u == 32 || u == 9 || u == 13
}

/// First index `c >= i` such that `s[c]` is a colon preceded by a word
/// character, or the length of `s` when there is none.
pub open spec fn find_kv_colon(s: Seq<char>, i: int) -> int
    decreases s.len() - i,
    when 0 <= i <= s.len()
{
    if i >= s.len() {
        s.len() as int
    } else if s[i] == ':' && i > 0 && spec_is_word(s[i - 1]) {
        i
    } else {
        find_kv_colon(s, i + 1)
    }
}

proof fn lemma_find_kv_colon_at(s: Seq<char>, i: int, j: int)
    requires
        0 <= i <= j <= s.len(),
        forall|k: int| i <= k < j ==> !(s[k] == ':' && k > 0 && spec_is_word(#[trigger] s[k - 1])),
        j < s.len() ==> (s[j] == ':' && j > 0 && spec_is_word(s[j - 1])),
    ensures
        find_kv_colon(s, i) == j,
    decreases j - i,
{
    if i >= s.len() {
    } else if s[i] == ':' && i > 0 && spec_is_word(s[i - 1]) {
        assert(i == j);
    } else {
        lemma_find_kv_colon_at(s, i + 1, j);
    }
}

/// Start of the word-character run that ends just before `j`.
pub open spec fn run_start(s: Seq<char>, j: int) -> int
    decreases j,
    when 0 <= j <= s.len()
{
    if j <= 0 || !spec_is_word(s[j - 1]) {
        j
    } else {
        run_start(s, j - 1)
    }
}

/// First index `>= i` holding a non-whitespace character, or the length.
pub open spec fn skip_ws(s: Seq<char>, i: int) -> int
    decreases s.len() - i,
    when 0 <= i <= s.len()
{
    if i >= s.len() || !spec_is_space(s[i]) {
        i
    } else {
        skip_ws(s, i + 1)
    }
}

/// The `Key: value` reading of a line: the first colon preceded by a word
/// character splits it; the key is the word run before that colon, the value
/// is the rest of the line with leading whitespace dropped.
pub open spec fn spec_key_value(s: Seq<char>) -> Option<(Seq<char>, Seq<char>)> {
    let c = find_kv_colon(s, 0);
    if c < s.len() {
        Some(
            (
                s.subrange(run_start(s, c), c),
                s.subrange(skip_ws(s, c + 1), s.len() as int),
            ),
        )
    } else {
        None
    }
}

/// Read a `Key: value` line; yields nothing when the line has no such shape.
pub fn match_key_value(line: &str) -> (r: Option<(String, String)>)
    ensures
        r is Some <==> spec_key_value(line@) is Some,
        r matches Some(kv) ==> spec_key_value(line@) matches Some(sv) && kv.0@ == sv.0 && kv.1@
            == sv.1,
{
    let n: usize = line.unicode_len();
    let mut c: usize = 0;
    while c < n && !(line.get_char(c) == ':' && c > 0 && is_word_char(line.get_char(c - 1)))
        invariant
            0 <= c <= n == line@.len(),
            forall|k: int|
                0 <= k < c ==> !(line@[k] == ':' && k > 0 && spec_is_word(#[trigger] line@[k - 1])),
        decreases n - c,
    {
        c = c + 1;
    }
    if c >= n {
        proof {
            lemma_find_kv_colon_at(line@, 0, n as int);
        }
        return None;
    }
    proof {
        lemma_find_kv_colon_at(line@, 0, c as int);
    }
    // scan back over the word run
    let mut k: usize = c;
    while k > 0 && is_word_char(line.get_char(k - 1))
        invariant
            0 <= k <= c <= n == line@.len(),
            run_start(line@, c as int) == run_start(line@, k as int),
        decreases k,
    {
        k = k - 1;
    }
    // skip whitespace after the colon
    let mut w: usize = c + 1;
    while w < n && is_space_char(line.get_char(w))
        invariant
            c as int + 1 <= w <= n == line@.len(),
            skip_ws(line@, c as int + 1) == skip_ws(line@, w as int),
        decreases n - w,
    {
        w = w + 1;
    }
    let key: String = line.substring_char(k, c).to_owned();
    let value: String = line.substring_char(w, n).to_owned();
    Some((key, value))
}

/// The section name of a header line `[Name]`, where the name is a nonempty
/// run of word characters.
pub open spec fn spec_section_header(s: Seq<char>) -> Option<Seq<char>> {
    if s.len() >= 3 && s[0] == '[' && s[s.len() - 1] == ']' && (forall|k: int|
        1 <= k < s.len() - 1 ==> spec_is_word(#[trigger] s[k])) {
        Some(s.subrange(1, s.len() - 1))
    } else {
        None
    }
}

/// Read a `[Name]` section-header line.
pub fn match_section_header(line: &str) -> (r: Option<String>)
    ensures
        r is Some <==> spec_section_header(line@) is Some,
        r matches Some(name) ==> spec_section_header(line@) matches Some(sv) && name@ == sv,
{
    let n: usize = line.unicode_len();
    if n < 3 {
        return None;
    }
    if line.get_char(0) != '[' || line.get_char(n - 1) != ']' {
        return None;
    }
    let mut i: usize = 1;
    while i < n - 1
        invariant
            1 <= i <= n - 1,
            n == line@.len(),
            3 <= n,
            forall|k: int| 1 <= k < i ==> spec_is_word(#[trigger] line@[k]),
        decreases n - i,
    {
        if !is_word_char(line.get_char(i)) {
            return None;
        }
        i = i + 1;
    }
    Some(line.substring_char(1, n - 1).to_owned())
}

/// One line stripped of a trailing carriage return.
pub open spec fn strip_cr(l: Seq<char>) -> Seq<char> {
    if l.len() > 0 && l[l.len() - 1] == '\r' {
        l.subrange(0, l.len() - 1)
    } else {
        l
    }
}

/// The lines of a text: pieces between newline characters, a final empty
/// piece dropped, carriage returns stripped.
pub open spec fn spec_lines(s: Seq<char>) -> Seq<Seq<char>> {
    if s.len() == 0 {
        Seq::<Seq<char>>::empty()
    } else {
        let p = spec_split(s, '\n');
        let q = if p.last().len() == 0 {
            p.drop_last()
        } else {
            p
        };
        q.map_values(|l: Seq<char>| strip_cr(l))
    }
}

/// Split a text into its lines.
pub fn lines_of(s: &str) -> (r: Vec<String>)
    ensures
        r@.map_values(|t: String| t@) == spec_lines(s@),
{
    let n: usize = s.unicode_len();
    let mut out: Vec<String> = Vec::new();
    if n == 0 {
        proof {
            assert(out@.map_values(|t: String| t@) =~= spec_lines(s@));
        }
        return out;
    }
    let mut pieces: Vec<String> = split_str(s, '\n');
    let ghost p = spec_split(s@, '\n');
    let last_len: usize = pieces[pieces.len() - 1].as_str().unicode_len();
    proof {
        assert(p[p.len() - 1] == pieces@.map_values(|t: String| t@)[p.len() - 1]);
    }
    if last_len == 0 {
        let _dropped: Option<String> = pieces.pop();
        proof {
            assert(pieces@.map_values(|t: String| t@) =~= p.drop_last());
        }
    }
    let ghost q = pieces@.map_values(|t: String| t@);
    let m: usize = pieces.len();
    let mut i: usize = 0;
    while i < m
        invariant
            0 <= i <= m == pieces@.len(),
            q == pieces@.map_values(|t: String| t@),
            out@.len() == i,
            forall|j: int| 0 <= j < i ==> out@.map_values(|t: String| t@)[j] == strip_cr(q[j]),
        decreases m - i,
    {
        let piece: &String = &pieces[i];
        let pl: usize = piece.as_str().unicode_len();
        let stripped: String = if pl > 0 && piece.as_str().get_char(pl - 1) == '\r' {
            piece.as_str().substring_char(0, pl - 1).to_owned()
        } else {
            piece.as_str().to_owned()
        };
        proof {
            assert(q[i as int] == pieces@.map_values(|t: String| t@)[i as int]);
            if pl > 0 && piece@[pl - 1] == '\r' {
                assert(stripped@ =~= strip_cr(q[i as int]));
            } else {
                assert(stripped@ =~= strip_cr(q[i as int]));
            }
            let ghost prev = out@.map_values(|t: String| t@);
            assert((out@ + seq![stripped]).map_values(|t: String| t@) =~= prev + seq![stripped@]);
        }
        out.push(stripped);
        i = i + 1;
    }
    proof {
        assert(out@.map_values(|t: String| t@) =~= q.map_values(|l: Seq<char>| strip_cr(l)));
        assert(spec_lines(s@) == q.map_values(|l: Seq<char>| strip_cr(l)));
    }
    out
}

} // verus!
