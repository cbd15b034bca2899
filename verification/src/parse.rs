//! Byte-level parsing primitives for the textual counter formats under
//! `/proc`: ASCII decimal numbers, fixed-point numbers with two fractional
//! digits, splitting on a separator byte, and ASCII whitespace trimming.

use vstd::prelude::*;

verus! {

/// An ASCII decimal digit.
pub open spec fn is_digit(b: u8) -> bool {
    48 <= b <= 57
}

/// Every byte of `s` is an ASCII decimal digit.
pub open spec fn all_digits(s: Seq<u8>) -> bool {
    forall|i: int| 0 <= i < s.len() ==> is_digit(#[trigger] s[i])
}

/// The number denoted by a sequence of ASCII decimal digits,
/// most significant digit first.
pub open spec fn digits_val(s: Seq<u8>) -> nat
    decreases s.len(),
{
    if s.len() == 0 {
        0
    } else {
        (digits_val(s.drop_last()) * 10 + (s.last() - 48)) as nat
    }
}

/// `s` denotes a decimal number that fits in a `u64`.
pub open spec fn valid_u64(s: Seq<u8>) -> bool {
    &&& s.len() > 0
    &&& all_digits(s)
    &&& digits_val(s) <= u64::MAX
}

/// Reads a decimal `u64` from ASCII digits; errs on an empty input, a
/// non-digit byte, or a value over `u64::MAX`.
pub fn parse_u64(s: &[u8]) -> (r: Option<u64>)
    ensures
        r is Some <==> valid_u64(s@),
        r is Some ==> r->Some_0 == digits_val(s@),
{
    if s.len() == 0 {
        return None;
    }
    let mut acc: u64 = 0;
    let mut i: usize = 0;
    while i < s.len()
        invariant
            0 <= i <= s@.len(),
            all_digits(s@.take(i as int)),
            acc == digits_val(s@.take(i as int)),
        decreases s@.len() - i,
    {
        let b = s[i];
        if b < 48 || b > 57 {
            proof {
                assert(!is_digit(s@[i as int]));
            }
            return None;
        }
        let d: u64 = (b - 48) as u64;
        if acc > (u64::MAX - d) / 10 {
            proof {
                if all_digits(s@) {
                    assert(digits_val(s@.take(i + 1)) > u64::MAX) by {
                        assert(s@.take(i + 1).drop_last() =~= s@.take(i as int));
                        assert(s@.take(i + 1).last() == s@[i as int]);
                        assert(acc * 10 + d > u64::MAX) by (nonlinear_arith)
                            requires
                                acc > (u64::MAX - d) / 10,
                                d < 10,
                        ;
                    }
                    lemma_digits_val_monotone(s@, i + 1);
                }
            }
            return None;
        }
        proof {
            assert(acc * 10 + d <= u64::MAX) by (nonlinear_arith)
                requires
                    acc <= (u64::MAX - d) / 10,
                    d < 10,
            ;
            assert(s@.take(i + 1).drop_last() =~= s@.take(i as int));
            assert(s@.take(i + 1).last() == s@[i as int]);
        }
        acc = acc * 10 + d;
        i = i + 1;
    }
    proof {
        assert(s@.take(s@.len() as int) =~= s@);
    }
    Some(acc)
}

/// The number a field of a token sequence denotes, or zero when the field
/// is absent.
pub open spec fn field_or_zero(toks: Seq<Seq<u8>>, i: int) -> nat {
    if 0 <= i < toks.len() {
        digits_val(toks[i])
    } else {
        0
    }
}

/// The views of a sequence of byte vectors.
pub open spec fn views(r: Seq<Vec<u8>>) -> Seq<Seq<u8>> {
    r.map_values(|t: Vec<u8>| t@)
}

/// Index of the first occurrence of `b` in `s`.
pub open spec fn spec_find(s: Seq<u8>, b: u8) -> Option<int>
    decreases s.len(),
{
    if s.len() == 0 {
        None
    } else if s[0] == b {
        Some(0)
    } else {
        match spec_find(s.skip(1), b) {
            None => None,
            Some(i) => Some(i + 1),
        }
    }
}

/// `spec_find` returns the first occurrence: the byte there matches and no
/// earlier byte does; `None` means no byte matches at all.
pub proof fn lemma_find_first(s: Seq<u8>, b: u8)
    ensures
        match spec_find(s, b) {
            Some(i) => 0 <= i < s.len() && s[i] == b && forall|j: int| 0 <= j < i ==> s[j] != b,
            None => forall|j: int| 0 <= j < s.len() ==> s[j] != b,
        },
    decreases s.len(),
{
    if s.len() > 0 && s[0] != b {
        lemma_find_first(s.skip(1), b);
        let u = s.skip(1);
        match spec_find(u, b) {
            Some(i) => {
                assert(s[i + 1] == u[i]);
                assert forall|j: int| 0 <= j < i + 1 implies s[j] != b by {
                    if j > 0 {
                        assert(s[j] == u[j - 1]);
                    }
                }
            },
            None => {
                assert forall|j: int| 0 <= j < s.len() implies s[j] != b by {
                    if j > 0 {
                        assert(s[j] == u[j - 1]);
                    }
                }
            },
        }
    }
}

/// Finds the first occurrence of `b` in `s` at or after `from`.
pub fn find_byte_from(s: &[u8], b: u8, from: usize) -> (r: Option<usize>)
    requires
        from <= s@.len(),
    ensures
        match r {
            Some(i) => from <= i < s@.len() && s@[i as int] == b && forall|j: int|
                from <= j < i ==> s@[j] != b,
            None => forall|j: int| from <= j < s@.len() ==> s@[j] != b,
        },
{
    let mut i = from;
    while i < s.len()
        invariant
            from <= i <= s@.len(),
            forall|j: int| from <= j < i ==> s@[j] != b,
        decreases s@.len() - i,
    {
        if s[i] == b {
            return Some(i);
        }
        i = i + 1;
    }
    None
}

/// Index of the first occurrence of the two-byte pattern `a b` in `s`.
pub open spec fn spec_find2(s: Seq<u8>, a: u8, b: u8) -> Option<int>
    decreases s.len(),
{
    if s.len() < 2 {
        None
    } else if s[0] == a && s[1] == b {
        Some(0)
    } else {
        match spec_find2(s.skip(1), a, b) {
            None => None,
            Some(i) => Some(i + 1),
        }
    }
}

/// `spec_find2` returns the first occurrence of the pattern, or `None`
/// when the pattern occurs nowhere.
pub proof fn lemma_find2_first(s: Seq<u8>, a: u8, b: u8)
    ensures
        match spec_find2(s, a, b) {
            Some(i) => 0 <= i && i + 1 < s.len() && s[i] == a && s[i + 1] == b && forall|j: int|
                #![trigger s[j]]
                0 <= j < i ==> !(s[j] == a && s[j + 1] == b),
            None => forall|j: int|
                #![trigger s[j]]
                0 <= j && j + 1 < s.len() ==> !(s[j] == a && s[j + 1] == b),
        },
    decreases s.len(),
{
    if s.len() >= 2 && !(s[0] == a && s[1] == b) {
        lemma_find2_first(s.skip(1), a, b);
        let u = s.skip(1);
        match spec_find2(u, a, b) {
            Some(i) => {
                assert(s[i + 1] == u[i] && s[i + 2] == u[i + 1]);
                assert forall|j: int| #![trigger s[j]] 0 <= j < i + 1 implies !(s[j] == a && s[j
                    + 1] == b) by {
                    if j > 0 {
                        assert(s[j] == u[j - 1] && s[j + 1] == u[j]);
                    }
                }
            },
            None => {
                assert forall|j: int| #![trigger s[j]] 0 <= j && j + 1 < s.len() implies !(s[j]
                    == a && s[j + 1] == b) by {
                    if j > 0 {
                        assert(s[j] == u[j - 1] && s[j + 1] == u[j]);
                    }
                }
            },
        }
    }
}

/// Finds the first occurrence of the two-byte pattern `a b` in `s`.
pub fn find2(s: &[u8], a: u8, b: u8) -> (r: Option<usize>)
    ensures
        match r {
            Some(i) => spec_find2(s@, a, b) == Some(i as int) && i + 1 < s@.len() && s@[i as int]
                == a && s@[i + 1] == b,
            None => spec_find2(s@, a, b) is None,
        },
{
    proof {
        lemma_find2_first(s@, a, b);
    }
    if s.len() < 2 {
        return None;
    }
    let n = s.len();
    let mut i: usize = 0;
    while i < n - 1
        invariant
            0 <= i,
            i + 1 <= s@.len(),
            n == s@.len(),
            n >= 2,
            forall|j: int| #![trigger s@[j]] 0 <= j < i ==> !(s@[j] == a && s@[j + 1] == b),
        decreases s@.len() - i,
    {
        if s[i] == a && s[i + 1] == b {
            proof {
                lemma_find2_first(s@, a, b);
                match spec_find2(s@, a, b) {
                    Some(k) => {
                        if k < i {
                            assert(s@[k] == a && s@[k + 1] == b);
                            assert(false);
                        }
                        if i < k {
                            assert(s@[i as int] == a && s@[i as int + 1] == b);
                            assert(false);
                        }
                        assert(k == i);
                    },
                    None => {
                        assert(s@[i as int] == a && s@[i as int + 1] == b);
                        assert(false);
                    },
                }
            }
            return Some(i);
        }
        i = i + 1;
    }
    proof {
        lemma_find2_first(s@, a, b);
        match spec_find2(s@, a, b) {
            Some(k) => {
                assert(s@[k] == a && s@[k + 1] == b);
                assert(false);
            },
            None => {},
        }
    }
    None
}

/// Splitting on a separator byte: the pieces between occurrences of `sep`,
/// in order, separators not included. An empty input is one empty piece.
pub open spec fn spec_split(s: Seq<u8>, sep: u8) -> Seq<Seq<u8>>
    decreases s.len(),
{
    if s.len() == 0 {
        seq![Seq::empty()]
    } else if s[0] == sep {
        seq![Seq::<u8>::empty()] + spec_split(s.skip(1), sep)
    } else {
        let rest = spec_split(s.skip(1), sep);
        seq![seq![s[0]] + rest[0]] + rest.skip(1)
    }
}

/// A split has at least one piece.
pub proof fn lemma_split_len(s: Seq<u8>, sep: u8)
    ensures
        spec_split(s, sep).len() >= 1,
    decreases s.len(),
{
    if s.len() > 0 {
        lemma_split_len(s.skip(1), sep);
    }
}

/// If the first separator of `t` stands at `i`, the split is the piece
/// before `i` followed by the split of what stands after `i`.
pub proof fn lemma_split_at_first(t: Seq<u8>, sep: u8, i: int)
    requires
        0 <= i < t.len(),
        t[i] == sep,
        forall|j: int| 0 <= j < i ==> t[j] != sep,
    ensures
        spec_split(t, sep) == seq![t.take(i)] + spec_split(t.skip(i + 1), sep),
    decreases i,
{
    lemma_split_len(t.skip(1), sep);
    if i == 0 {
        assert(t.take(0) =~= Seq::<u8>::empty());
        assert(t.skip(1) =~= t.skip(i + 1));
        assert(spec_split(t, sep) =~= seq![t.take(0)] + spec_split(t.skip(i + 1), sep));
    } else {
        let u = t.skip(1);
        assert forall|j: int| 0 <= j < i - 1 implies u[j] != sep by {
            assert(u[j] == t[j + 1]);
        }
        assert(u[i - 1] == t[i]);
        lemma_split_at_first(u, sep, i - 1);
        let rest = spec_split(u, sep);
        assert(rest == seq![u.take(i - 1)] + spec_split(u.skip(i), sep));
        assert(rest[0] == u.take(i - 1));
        assert(seq![t[0]] + u.take(i - 1) =~= t.take(i));
        assert(rest.skip(1) =~= spec_split(u.skip(i), sep));
        assert(u.skip(i) =~= t.skip(i + 1));
        assert(spec_split(t, sep) =~= seq![t.take(i)] + spec_split(t.skip(i + 1), sep));
    }
}

/// A piece with no separator in it splits into itself alone.
pub proof fn lemma_split_no_sep(t: Seq<u8>, sep: u8)
    requires
        forall|j: int| 0 <= j < t.len() ==> t[j] != sep,
    ensures
        spec_split(t, sep) == seq![t],
    decreases t.len(),
{
    if t.len() == 0 {
        assert(spec_split(t, sep) =~~= seq![t]);
    } else {
        let u = t.skip(1);
        assert forall|j: int| 0 <= j < u.len() implies u[j] != sep by {
            assert(u[j] == t[j + 1]);
        }
        lemma_split_no_sep(u, sep);
        let rest = spec_split(u, sep);
        assert(rest[0] == u);
        assert(seq![t[0]] + u =~= t);
        assert(rest.skip(1) =~= Seq::<Seq<u8>>::empty());
        assert(spec_split(t, sep) =~= seq![t]);
    }
}

/// Splits `s` on the separator byte `sep`.
pub fn split_bytes(s: &[u8], sep: u8) -> (r: Vec<Vec<u8>>)
    ensures
        views(r@) == spec_split(s@, sep),
{
    let mut r: Vec<Vec<u8>> = Vec::new();
    let mut start: usize = 0;
    let n = s.len();
    proof {
        assert(s@.skip(0) =~= s@);
        assert(views(r@) + spec_split(s@, sep) =~= spec_split(s@, sep));
    }
    loop
        invariant_except_break
            spec_split(s@, sep) == views(r@) + spec_split(s@.skip(start as int), sep),
        invariant
            start <= n == s@.len(),
        ensures
            views(r@) == spec_split(s@, sep),
        decreases s@.len() - start,
    {
        match find_byte_from(s, sep, start) {
            Some(i) => {
                let tok = vstd::slice::slice_to_vec(vstd::slice::slice_subrange(s, start, i));
                proof {
                    let t = s@.skip(start as int);
                    assert(t[i - start] == s@[i as int]);
                    assert forall|j: int| 0 <= j < i - start implies t[j] != sep by {
                        assert(t[j] == s@[start + j]);
                    }
                    lemma_split_at_first(t, sep, i - start);
                    assert(t.take(i - start) =~= s@.subrange(start as int, i as int));
                    assert(t.skip(i - start + 1) =~= s@.skip(i + 1));
                    assert(views(r@.push(tok)) =~= views(r@).push(tok@));
                    assert(views(r@) + spec_split(s@.skip(start as int), sep) =~= views(
                        r@.push(tok),
                    ) + spec_split(s@.skip(i + 1), sep));
                }
                r.push(tok);
                start = i + 1;
            },
            None => {
                let tok = vstd::slice::slice_to_vec(
                    vstd::slice::slice_subrange(s, start, s.len()),
                );
                proof {
                    let t = s@.skip(start as int);
                    lemma_split_no_sep(t, sep);
                    assert(tok@ =~= t);
                    assert(views(r@.push(tok)) =~= views(r@).push(tok@));
                    assert(views(r@) + spec_split(s@.skip(start as int), sep) =~= views(
                        r@.push(tok),
                    ));
                }
                r.push(tok);
                break;
            },
        }
    }
    r
}

/// An ASCII whitespace byte: space, tab, line feed, or carriage return.
pub open spec fn is_space(b: u8) -> bool {
    b == 32 || b == 9 || b == 10 || b == 13
}

/// `s` with leading ASCII whitespace removed.
pub open spec fn spec_trim_front(s: Seq<u8>) -> Seq<u8>
    decreases s.len(),
{
    if s.len() > 0 && is_space(s[0]) {
        spec_trim_front(s.skip(1))
    } else {
        s
    }
}

/// `s` with trailing ASCII whitespace removed.
pub open spec fn spec_trim_back(s: Seq<u8>) -> Seq<u8>
    decreases s.len(),
{
    if s.len() > 0 && is_space(s.last()) {
        spec_trim_back(s.drop_last())
    } else {
        s
    }
}

/// `s` with whitespace removed on both sides.
pub open spec fn spec_trim(s: Seq<u8>) -> Seq<u8> {
    spec_trim_back(spec_trim_front(s))
}

proof fn lemma_trim_front_skip(s: Seq<u8>, lo: int)
    requires
        0 <= lo <= s.len(),
        forall|j: int| 0 <= j < lo ==> is_space(s[j]),
        lo < s.len() ==> !is_space(s[lo]),
    ensures
        spec_trim_front(s) == s.skip(lo),
    decreases lo,
{
    if lo == 0 {
        assert(s.skip(0) =~= s);
    } else {
        let u = s.skip(1);
        assert forall|j: int| 0 <= j < lo - 1 implies is_space(u[j]) by {
            assert(u[j] == s[j + 1]);
        }
        lemma_trim_front_skip(u, lo - 1);
        assert(u.skip(lo - 1) =~= s.skip(lo));
    }
}

proof fn lemma_trim_back_take(s: Seq<u8>, hi: int)
    requires
        0 <= hi <= s.len(),
        forall|j: int| hi <= j < s.len() ==> is_space(s[j]),
        hi > 0 ==> !is_space(s[hi - 1]),
    ensures
        spec_trim_back(s) == s.take(hi),
    decreases s.len() - hi,
{
    if hi == s.len() {
        assert(s.take(hi) =~= s);
    } else {
        let u = s.drop_last();
        assert forall|j: int| hi <= j < u.len() implies is_space(u[j]) by {
            assert(u[j] == s[j]);
        }
        lemma_trim_back_take(u, hi);
        assert(u.take(hi) =~= s.take(hi));
    }
}

/// Removes ASCII whitespace from both ends of `s`.
pub fn trim_bytes<'a>(s: &'a [u8]) -> (r: &'a [u8])
    ensures
        r@ == spec_trim(s@),
{
    let mut lo: usize = 0;
    while lo < s.len() && (s[lo] == 32 || s[lo] == 9 || s[lo] == 10 || s[lo] == 13)
        invariant
            0 <= lo <= s@.len(),
            forall|j: int| 0 <= j < lo ==> is_space(s@[j]),
        decreases s@.len() - lo,
    {
        lo = lo + 1;
    }
    let mut hi: usize = s.len();
    while hi > lo && (s[hi - 1] == 32 || s[hi - 1] == 9 || s[hi - 1] == 10 || s[hi - 1] == 13)
        invariant
            lo <= hi <= s@.len(),
            forall|j: int| hi <= j < s@.len() ==> is_space(s@[j]),
        decreases hi,
    {
        hi = hi - 1;
    }
    proof {
        lemma_trim_front_skip(s@, lo as int);
        let t = s@.skip(lo as int);
        assert forall|j: int| hi - lo <= j < t.len() implies is_space(t[j]) by {
            assert(t[j] == s@[lo + j]);
        }
        if hi > lo {
            assert(t[hi - lo - 1] == s@[hi - 1]);
        }
        lemma_trim_back_take(t, hi - lo);
        assert(t.take(hi - lo) =~= s@.subrange(lo as int, hi as int));
    }
    vstd::slice::slice_subrange(s, lo, hi)
}

/// Byte-for-byte equality of two slices.
pub fn eq_bytes(a: &[u8], b: &[u8]) -> (r: bool)
    ensures
        r == (a@ == b@),
{
    if a.len() != b.len() {
        proof {
            assert(a@ != b@);
        }
        return false;
    }
    let mut i: usize = 0;
    while i < a.len()
        invariant
            0 <= i <= a@.len(),
            a@.len() == b@.len(),
            forall|j: int| 0 <= j < i ==> a@[j] == b@[j],
        decreases a@.len() - i,
    {
        if a[i] != b[i] {
            proof {
                assert(a@ != b@);
            }
            return false;
        }
        i = i + 1;
    }
    proof {
        assert(a@ =~= b@);
    }
    true
}

/// Whether `s` begins with `prefix`.
pub fn starts_with(s: &[u8], prefix: &[u8]) -> (r: bool)
    ensures
        r == (s@.len() >= prefix@.len() && s@.take(prefix@.len() as int) == prefix@),
{
    if s.len() < prefix.len() {
        return false;
    }
    let head = vstd::slice::slice_subrange(s, 0, prefix.len());
    proof {
        assert(head@ =~= s@.take(prefix@.len() as int));
    }
    eq_bytes(head, prefix)
}

/// Removes `suffix` from the end of `s`, if it stands there.
pub fn strip_suffix<'a>(s: &'a [u8], suffix: &[u8]) -> (r: Option<&'a [u8]>)
    ensures
        match r {
            Some(t) => s@.len() >= suffix@.len() && s@.skip(
                s@.len() - suffix@.len(),
            ) == suffix@ && t@ == s@.take(s@.len() - suffix@.len()),
            None => !(s@.len() >= suffix@.len() && s@.skip(s@.len() - suffix@.len()) == suffix@),
        },
{
    if s.len() < suffix.len() {
        return None;
    }
    let tail = vstd::slice::slice_subrange(s, s.len() - suffix.len(), s.len());
    proof {
        assert(tail@ =~= s@.skip(s@.len() - suffix@.len()));
    }
    if eq_bytes(tail, suffix) {
        let head = vstd::slice::slice_subrange(s, 0, s.len() - suffix.len());
        proof {
            assert(head@ =~= s@.take(s@.len() - suffix@.len()));
        }
        Some(head)
    } else {
        None
    }
}

/// `s` denotes a non-negative fixed-point number with exactly two fractional
/// digits (the shape the kernel uses for uptime seconds and load averages),
/// and its value in hundredths fits in a `u64`.
pub open spec fn valid_centi(s: Seq<u8>) -> bool {
    match spec_find(s, 46) {
        Some(i) => {
            &&& i > 0
            &&& all_digits(s.take(i))
            &&& s.len() == i + 3
            &&& all_digits(s.skip(i + 1))
            &&& digits_val(s.take(i)) * 100 + digits_val(s.skip(i + 1)) <= u64::MAX
        },
        None => false,
    }
}

/// The value of such a number, in hundredths.
pub open spec fn centi_val(s: Seq<u8>) -> nat {
    match spec_find(s, 46) {
        Some(i) => digits_val(s.take(i)) * 100 + digits_val(s.skip(i + 1)),
        None => 0,
    }
}

/// Reads a fixed-point number of the shape `digits.dd` as a count of
/// hundredths; errs when the shape or the range is wrong.
pub fn parse_centi(s: &[u8]) -> (r: Option<u64>)
    ensures
        r is Some <==> valid_centi(s@),
        r is Some ==> r->Some_0 == centi_val(s@),
{
    proof {
        lemma_find_first(s@, 46);
    }
    match find_byte_from(s, 46, 0) {
        Some(i) => {
            proof {
                match spec_find(s@, 46) {
                    Some(k) => {
                        assert(k == i);
                    },
                    None => {
                        assert(false);
                    },
                }
            }
            let int_part = vstd::slice::slice_subrange(s, 0, i);
            proof {
                assert(int_part@ =~= s@.take(i as int));
            }
            if s.len() - i != 3 {
                return None;
            }
            let frac_part = vstd::slice::slice_subrange(s, i + 1, s.len());
            proof {
                assert(frac_part@ =~= s@.skip(i + 1));
            }
            let iv = match parse_u64(int_part) {
                Some(v) => v,
                None => {
                    return None;
                },
            };
            let fv = match parse_u64(frac_part) {
                Some(v) => v,
                None => {
                    return None;
                },
            };
            proof {
                assert(frac_part@.len() == 2);
                assert(digits_val(frac_part@) < 100) by {
                    let fp = frac_part@;
                    assert(is_digit(fp[0]) && is_digit(fp[1]));
                    assert(fp.drop_last().drop_last() =~= Seq::<u8>::empty());
                    assert(digits_val(fp.drop_last().drop_last()) == 0);
                    assert(fp.drop_last().last() == fp[0]);
                    assert(digits_val(fp.drop_last()) < 10);
                    assert(fp.last() == fp[1]);
                }
            }
            if iv > (u64::MAX - fv) / 100 {
                proof {
                    assert(iv * 100 + fv > u64::MAX) by (nonlinear_arith)
                        requires
                            iv > (u64::MAX - fv) / 100,
                            fv < 100,
                    ;
                }
                return None;
            }
            proof {
                assert(iv * 100 + fv <= u64::MAX) by (nonlinear_arith)
                    requires
                        iv <= (u64::MAX - fv) / 100,
                        fv < 100,
                ;
            }
            Some(iv * 100 + fv)
        },
        None => {
            proof {
                match spec_find(s@, 46) {
                    Some(k) => {
                        assert(false);
                    },
                    None => {},
                }
            }
            None
        },
    }
}

/// Extending a digit string can only grow the number it denotes:
/// the value of a prefix never exceeds the value of the whole.
pub proof fn lemma_digits_val_monotone(s: Seq<u8>, i: int)
    requires
        0 <= i <= s.len(),
        all_digits(s),
    ensures
        digits_val(s.take(i)) <= digits_val(s),
    decreases s.len() - i,
{
    if i < s.len() {
        lemma_digits_val_monotone(s, i + 1);
        assert(s.take(i + 1).drop_last() =~= s.take(i));
        assert(digits_val(s.take(i + 1)) == digits_val(s.take(i)) * 10 + (s[i] - 48));
        assert(digits_val(s.take(i)) * 10 >= digits_val(s.take(i))) by (nonlinear_arith);
    } else {
        assert(s.take(i) =~= s);
    }
}

} // verus!
