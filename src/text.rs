use vstd::prelude::*;

verus! {

/// The decimal digit character for `d` in `0..10`.
pub open spec fn digit_char(d: int) -> char {
    ((48 + d) as u8) as char
}

/// The decimal digits of `n`, most significant first, without leading zeros.
pub open spec fn decimal_text(n: nat) -> Seq<char>
    decreases n,
{
    if n < 10 {
        seq![digit_char(n as int)]
    } else {
        decimal_text(n / 10).push(digit_char((n % 10) as int))
    }
}

/// A signed integer as decimal text, with a leading `-` when negative.
pub open spec fn integer_text(n: int) -> Seq<char> {
    if n < 0 {
        seq!['-'] + decimal_text((-n) as nat)
    } else {
        decimal_text(n as nat)
    }
}

/// A length given in millimetres as decimal metres, in the shortest form:
/// no fraction when it is whole, else up to three fraction digits with
/// trailing zeros dropped (`5012300` reads `5012.3`).
pub open spec fn metres_text(mm: nat) -> Seq<char> {
    let whole = decimal_text(mm / 1000);
    let r = (mm % 1000) as int;
    if r == 0 {
        whole
    } else if r % 100 == 0 {
        whole + seq!['.', digit_char(r / 100)]
    } else if r % 10 == 0 {
        whole + seq!['.', digit_char(r / 100), digit_char((r / 10) % 10)]
    } else {
        whole + seq!['.', digit_char(r / 100), digit_char((r / 10) % 10), digit_char(r % 10)]
    }
}

fn digit(d: u64) -> (c: char)
    requires
        d < 10,
    ensures
        c == digit_char(d as int),
{
    ((48 + d) as u8) as char
}

/// Appends the decimal digits of `n`.
pub fn push_decimal(out: &mut Vec<char>, n: u64)
    ensures
        final(out)@ == old(out)@ + decimal_text(n as nat),
    decreases n,
{
    if n >= 10 {
        push_decimal(out, n / 10);
    }
    out.push(digit(n % 10));
    proof {
        if n >= 10 {
            assert(decimal_text(n as nat) == decimal_text((n / 10) as nat).push(digit_char((n % 10) as int)));
        }
    }
}

/// Appends `n` as signed decimal text.
pub fn push_integer(out: &mut Vec<char>, n: i64)
    ensures
        final(out)@ == old(out)@ + integer_text(n as int),
{
    if n < 0 {
        out.push('-');
        let m: u64 = (0i128 - n as i128) as u64;
        push_decimal(out, m);
        assert(final(out)@ == old(out)@ + integer_text(n as int));
    } else {
        push_decimal(out, n as u64);
    }
}

/// Appends a millimetre length as decimal metres.
pub fn push_metres(out: &mut Vec<char>, mm: u64)
    ensures
        final(out)@ == old(out)@ + metres_text(mm as nat),
{
    let ghost start = out@;
    push_decimal(out, mm / 1000);
    let r: u64 = mm % 1000;
    if r != 0 {
        out.push('.');
        out.push(digit(r / 100));
        if r % 100 != 0 {
            out.push(digit((r / 10) % 10));
            if r % 10 != 0 {
                out.push(digit(r % 10));
            }
        }
    }
    assert(final(out)@ =~= start + metres_text(mm as nat));
}

/// Appends the characters of `s`.
pub fn push_str(out: &mut Vec<char>, s: &str)
    ensures
        final(out)@ == old(out)@ + s@,
{
    let n = s.unicode_len();
    let mut i: usize = 0;
    while i < n
        invariant
            n == s@.len(),
            i <= n,
            out@ == old(out)@ + s@.subrange(0, i as int),
        decreases n - i,
    {
        let c = s.get_char(i);
        out.push(c);
        i = i + 1;
        assert(out@ =~= old(out)@ + s@.subrange(0, i as int));
    }
    assert(s@.subrange(0, n as int) =~= s@);
}

/// Relies on std's `String: FromIterator<char>`: the string holds the
/// characters in order.
#[verifier::external_body]
pub(crate) fn string_from_chars(v: &Vec<char>) -> (r: String)
    ensures
        r@ == v@,
{
    v.iter().collect()
}

pub open spec fn is_digit(c: char) -> bool {
    '0' <= c && c <= '9'
}

/// Every character of `s` is a digit, `.` or `-`.
pub open spec fn numeric_chars(s: Seq<char>) -> bool {
    forall|i: int| 0 <= i < s.len() ==> is_digit(#[trigger] s[i]) || s[i] == '.' || s[i] == '-'
}

proof fn lemma_digit_char(a: int, b: int)
    requires
        0 <= a < 10,
        0 <= b < 10,
    ensures
        is_digit(digit_char(a)),
        digit_char(a) == digit_char(b) ==> a == b,
{
}

proof fn lemma_decimal_digits(n: nat)
    ensures
        decimal_text(n).len() >= 1,
        n >= 10 ==> decimal_text(n).len() >= 2,
        forall|i: int| 0 <= i < decimal_text(n).len() ==> is_digit(#[trigger] decimal_text(n)[i]),
    decreases n,
{
    lemma_digit_char((n % 10) as int, 0);
    if n >= 10 {
        lemma_decimal_digits(n / 10);
        let p = decimal_text(n / 10);
        assert forall|i: int| 0 <= i < decimal_text(n).len() implies is_digit(#[trigger] decimal_text(n)[i]) by {
            if i < p.len() {
                assert(decimal_text(n)[i] == p[i]);
            }
        }
    }
}

proof fn lemma_decimal_injective(a: nat, b: nat)
    requires
        decimal_text(a) == decimal_text(b),
    ensures
        a == b,
    decreases a,
{
    lemma_decimal_digits(a);
    lemma_decimal_digits(b);
    if a < 10 && b < 10 {
        assert(decimal_text(a) == seq![digit_char(a as int)]);
        assert(decimal_text(b) == seq![digit_char(b as int)]);
        assert(decimal_text(a)[0] == digit_char(a as int));
        assert(decimal_text(b)[0] == digit_char(b as int));
        lemma_digit_char(a as int, b as int);
    } else if a >= 10 && b >= 10 {
        let ta = decimal_text(a);
        let tb = decimal_text(b);
        assert(ta == decimal_text(a / 10).push(digit_char((a % 10) as int)));
        assert(tb == decimal_text(b / 10).push(digit_char((b % 10) as int)));
        assert(ta.last() == digit_char((a % 10) as int));
        assert(tb.last() == digit_char((b % 10) as int));
        lemma_digit_char((a % 10) as int, (b % 10) as int);
        assert(ta.drop_last() =~= decimal_text(a / 10));
        assert(tb.drop_last() =~= decimal_text(b / 10));
        lemma_decimal_injective(a / 10, b / 10);
        assert(a == 10 * (a / 10) + a % 10);
        assert(b == 10 * (b / 10) + b % 10);
    } else if a < 10 {
        assert(decimal_text(a) == seq![digit_char(a as int)]);
        assert(decimal_text(a).len() == 1);
    } else {
        assert(decimal_text(b) == seq![digit_char(b as int)]);
        assert(decimal_text(b).len() == 1);
    }
}

pub proof fn lemma_integer_text(a: int, b: int)
    ensures
        numeric_chars(integer_text(a)),
        integer_text(a) == integer_text(b) ==> a == b,
{
    lemma_decimal_digits((if a < 0 { -a } else { a }) as nat);
    lemma_decimal_digits((if b < 0 { -b } else { b }) as nat);
    let ta = integer_text(a);
    if a < 0 {
        let d = decimal_text((-a) as nat);
        assert forall|i: int| 0 <= i < ta.len() implies is_digit(#[trigger] ta[i]) || ta[i] == '.' || ta[i] == '-' by {
            if i > 0 {
                assert(ta[i] == d[i - 1]);
            }
        }
    }
    if integer_text(a) == integer_text(b) {
        if a < 0 && b < 0 {
            assert(integer_text(a).drop_first() =~= decimal_text((-a) as nat));
            assert(integer_text(b).drop_first() =~= decimal_text((-b) as nat));
            lemma_decimal_injective((-a) as nat, (-b) as nat);
        } else if a >= 0 && b >= 0 {
            lemma_decimal_injective(a as nat, b as nat);
        } else if a < 0 {
            assert(integer_text(a)[0] == '-');
            assert(is_digit(decimal_text(b as nat)[0]));
        } else {
            assert(integer_text(b)[0] == '-');
            assert(is_digit(decimal_text(a as nat)[0]));
        }
    }
}

/// The fraction part of `metres_text`.
pub open spec fn fraction_text(r: int) -> Seq<char> {
    if r == 0 {
        Seq::empty()
    } else if r % 100 == 0 {
        seq!['.', digit_char(r / 100)]
    } else if r % 10 == 0 {
        seq!['.', digit_char(r / 100), digit_char((r / 10) % 10)]
    } else {
        seq!['.', digit_char(r / 100), digit_char((r / 10) % 10), digit_char(r % 10)]
    }
}

proof fn lemma_fraction_injective(a: int, b: int)
    requires
        0 <= a < 1000,
        0 <= b < 1000,
        fraction_text(a) == fraction_text(b),
    ensures
        a == b,
{
    let fa = fraction_text(a);
    let fb = fraction_text(b);
    if fa.len() >= 2 {
        assert(fa[1] == fb[1]);
        lemma_digit_char(a / 100, b / 100);
    }
    if fa.len() >= 3 {
        assert(fa[2] == fb[2]);
        lemma_digit_char((a / 10) % 10, (b / 10) % 10);
    }
    if fa.len() >= 4 {
        assert(fa[3] == fb[3]);
        lemma_digit_char(a % 10, b % 10);
    }
}

pub proof fn lemma_metres_text(a: nat, b: nat)
    ensures
        numeric_chars(metres_text(a)),
        metres_text(a) == metres_text(b) ==> a == b,
{
    let wa = decimal_text(a / 1000);
    let wb = decimal_text(b / 1000);
    let fa = fraction_text((a % 1000) as int);
    let fb = fraction_text((b % 1000) as int);
    assert(metres_text(a) =~= wa + fa);
    assert(metres_text(b) =~= wb + fb);
    lemma_decimal_digits(a / 1000);
    lemma_decimal_digits(b / 1000);
    let r = (a % 1000) as int;
    lemma_digit_char(r / 100, 0);
    lemma_digit_char((r / 10) % 10, 0);
    lemma_digit_char(r % 10, 0);
    assert forall|i: int| 0 <= i < (wa + fa).len() implies is_digit(#[trigger] (wa + fa)[i]) || (wa + fa)[i]
        == '.' || (wa + fa)[i] == '-' by {
        if i < wa.len() {
            assert((wa + fa)[i] == wa[i]);
        } else {
            assert((wa + fa)[i] == fa[i - wa.len()]);
        }
    }
    if metres_text(a) == metres_text(b) {
        let s = wa + fa;
        if wa.len() < wb.len() {
            assert(s[wa.len() as int] == wb[wa.len() as int]);
            if fa.len() == 0 {
                assert(s.len() == wa.len());
            } else {
                assert(s[wa.len() as int] == fa[0]);
            }
        } else if wb.len() < wa.len() {
            assert(s[wb.len() as int] == wa[wb.len() as int]);
            assert((wb + fb)[wb.len() as int] == wb[wb.len() as int]) by {
                if fb.len() == 0 {
                    assert((wb + fb).len() == wb.len());
                }
            }
            if fb.len() > 0 {
                assert((wb + fb)[wb.len() as int] == fb[0]);
            }
        }
        assert(wa.len() == wb.len()) by {
            if wa.len() != wb.len() {
                if wa.len() < wb.len() {
                    if fa.len() == 0 {
                        assert(s.len() == wa.len());
                        assert((wb + fb).len() >= wb.len());
                    }
                } else {
                    if fb.len() == 0 {
                        assert((wb + fb).len() == wb.len());
                    }
                }
            }
        }
        assert(wa =~= s.subrange(0, wa.len() as int));
        assert(wb =~= (wb + fb).subrange(0, wb.len() as int));
        assert(fa =~= s.subrange(wa.len() as int, s.len() as int));
        assert(fb =~= (wb + fb).subrange(wb.len() as int, (wb + fb).len() as int));
        lemma_decimal_injective(a / 1000, b / 1000);
        lemma_fraction_injective((a % 1000) as int, (b % 1000) as int);
    }
}

/// Cutting at the first occurrence of `sep`: when neither `x` nor `u`
/// holds `sep`, `x + [sep] + y == u + [sep] + v` forces `x == u` and
/// `y == v`.
pub proof fn lemma_split_at_separator(x: Seq<char>, y: Seq<char>, u: Seq<char>, v: Seq<char>, sep: char)
    requires
        !x.contains(sep),
        !u.contains(sep),
        x + seq![sep] + y == u + seq![sep] + v,
    ensures
        x == u,
        y == v,
{
    let s = x + seq![sep] + y;
    let t = u + seq![sep] + v;
    if x.len() < u.len() {
        assert(s[x.len() as int] == sep);
        assert(t[x.len() as int] == u[x.len() as int]);
    } else if u.len() < x.len() {
        assert(t[u.len() as int] == sep);
        assert(s[u.len() as int] == x[u.len() as int]);
    }
    assert(x =~= s.subrange(0, x.len() as int));
    assert(u =~= t.subrange(0, u.len() as int));
    assert(y =~= s.subrange(x.len() as int + 1, s.len() as int));
    assert(v =~= t.subrange(u.len() as int + 1, t.len() as int));
}

} // verus!
