//! Turning numbers and format templates into text.
//!
//! A format template is copied character by character; a `%` followed by a
//! recognized letter is replaced by the corresponding date or time
//! component.  Date components and time components are each enabled only
//! where they apply, so a date template leaves time tokens untouched and
//! vice versa.  There is no escaping: an unrecognized `%x` pair is copied
//! as it stands.

use vstd::prelude::*;

verus! {

/// Relies on `String::push`: appends the given character to the end of the
/// string.
pub assume_specification[ String::push ](s: &mut String, c: char)
    ensures
        final(s)@ == old(s)@.push(c),
;

/// The character for one decimal digit.
pub open spec fn spec_digit_char(d: int) -> char {
    if d == 0 {
        '0'
    } else if d == 1 {
        '1'
    } else if d == 2 {
        '2'
    } else if d == 3 {
        '3'
    } else if d == 4 {
        '4'
    } else if d == 5 {
        '5'
    } else if d == 6 {
        '6'
    } else if d == 7 {
        '7'
    } else if d == 8 {
        '8'
    } else {
        '9'
    }
}

/// The decimal digits of a non-negative number, most significant first.
pub open spec fn spec_dec_nat(n: nat) -> Seq<char>
    decreases n,
{
    if n < 10 {
        seq![spec_digit_char(n as int)]
    } else {
        spec_dec_nat(n / 10) + seq![spec_digit_char((n % 10) as int)]
    }
}

/// `k` copies of `c` (none if `k` is negative).
pub open spec fn spec_repeat_char(c: char, k: int) -> Seq<char> {
    Seq::new(if k < 0 { 0nat } else { k as nat }, |i: int| c)
}

/// The decimal digits of `n`, left-padded with zeroes to width `w`.
pub open spec fn spec_zero_pad_nat(n: nat, w: int) -> Seq<char> {
    let ds = spec_dec_nat(n);
    if ds.len() >= w {
        ds
    } else {
        spec_repeat_char('0', w - ds.len()) + ds
    }
}

/// A possibly negative number, zero-padded to total width `w`; a minus sign
/// counts toward the width, as in Rust's `{:0w}` formatting.
pub open spec fn spec_int_pad(n: int, w: int) -> Seq<char> {
    if n < 0 {
        seq!['-'] + spec_zero_pad_nat((-n) as nat, w - 1)
    } else {
        spec_zero_pad_nat(n as nat, w)
    }
}

/// The character for one decimal digit.
fn digit_char(d: u64) -> (c: char)
    requires
        d < 10,
    ensures
        c == spec_digit_char(d as int),
{
    if d == 0 {
        '0'
    } else if d == 1 {
        '1'
    } else if d == 2 {
        '2'
    } else if d == 3 {
        '3'
    } else if d == 4 {
        '4'
    } else if d == 5 {
        '5'
    } else if d == 6 {
        '6'
    } else if d == 7 {
        '7'
    } else if d == 8 {
        '8'
    } else {
        '9'
    }
}

/// Appends the decimal digits of `n` to `out`.
fn push_u64_dec(out: &mut String, n: u64)
    ensures
        final(out)@ == old(out)@ + spec_dec_nat(n as nat),
    decreases n,
{
    if n < 10 {
        let c = digit_char(n);
        out.push(c);
        proof {
            assert(old(out)@.push(c) =~= old(out)@ + spec_dec_nat(n as nat));
        }
    } else {
        push_u64_dec(out, n / 10);
        let c = digit_char(n % 10);
        out.push(c);
        proof {
            assert((old(out)@ + spec_dec_nat((n / 10) as nat)).push(c) =~= old(out)@
                + spec_dec_nat(n as nat));
        }
    }
}

/// Appends `n` in decimal to `out`, zero-padded to total width `width`.
pub fn push_int_padded(out: &mut String, n: i64, width: usize)
    ensures
        final(out)@ == old(out)@ + spec_int_pad(n as int, width as int),
{
    let ghost pre = out@;
    let neg = n < 0;
    let mag: u64 = if n < 0 {
        let wide: i128 = -(n as i128);
        wide as u64
    } else {
        n as u64
    };
    proof {
        assert(mag as int == if n < 0 {
            -(n as int)
        } else {
            n as int
        });
    }
    let mut digits = String::new();
    push_u64_dec(&mut digits, mag);
    let dl = digits.as_str().unicode_len();
    let target: usize = if neg {
        if width > 0 {
            out.push('-');
            width - 1
        } else {
            out.push('-');
            0
        }
    } else {
        width
    };
    let ghost signed = out@;
    let mut zeros: usize = if dl < target {
        target - dl
    } else {
        0
    };
    let ghost z0 = zeros as int;
    while zeros > 0
        invariant
            0 <= zeros <= z0,
            out@ == signed + spec_repeat_char('0', z0 - zeros),
        decreases zeros,
    {
        out.push('0');
        proof {
            assert((signed + spec_repeat_char('0', z0 - zeros)).push('0') =~= signed
                + spec_repeat_char('0', z0 - zeros + 1));
        }
        zeros = zeros - 1;
    }
    out.append(digits.as_str());
    proof {
        let w = width as int;
        let ds = spec_dec_nat(mag as nat);
        let t = target as int;
        assert(Seq::<char>::empty() + ds =~= ds);
        assert(digits@ == ds);
        assert(dl == ds.len());
        assert(out@ == signed + spec_repeat_char('0', z0) + ds);
        if neg {
            assert(signed == pre.push('-'));
            assert(z0 == if ds.len() >= t {
                0int
            } else {
                t - ds.len()
            });
            assert(pre.push('-') + spec_repeat_char('0', z0) + ds =~= pre + (seq!['-']
                + spec_zero_pad_nat(mag as nat, w - 1)));
        } else {
            assert(signed == pre);
            assert(pre + spec_repeat_char('0', z0) + ds =~= pre + spec_zero_pad_nat(
                mag as nat,
                w,
            ));
        }
    }
}

/// Substitutes date and time tokens in a template.  `date` carries the
/// year, zero-padded month and day, month name, epoch name and weekday
/// name; `time` carries the zero-padded hour, minute and second.  A token
/// whose group is absent, or an unrecognized token, is copied literally.
pub open spec fn spec_subst(
    tmpl: Seq<char>,
    date: Option<(Seq<char>, Seq<char>, Seq<char>, Seq<char>, Seq<char>, Seq<char>)>,
    time: Option<(Seq<char>, Seq<char>, Seq<char>)>,
) -> Seq<char>
    decreases tmpl.len(),
{
    if tmpl.len() == 0 {
        Seq::empty()
    } else if tmpl.len() >= 2 && tmpl[0] == '%' && date is Some && tmpl[1] == 'Y' {
        (date->0).0 + spec_subst(tmpl.skip(2), date, time)
    } else if tmpl.len() >= 2 && tmpl[0] == '%' && date is Some && tmpl[1] == 'm' {
        (date->0).1 + spec_subst(tmpl.skip(2), date, time)
    } else if tmpl.len() >= 2 && tmpl[0] == '%' && date is Some && tmpl[1] == 'd' {
        (date->0).2 + spec_subst(tmpl.skip(2), date, time)
    } else if tmpl.len() >= 2 && tmpl[0] == '%' && date is Some && tmpl[1] == 'B' {
        (date->0).3 + spec_subst(tmpl.skip(2), date, time)
    } else if tmpl.len() >= 2 && tmpl[0] == '%' && date is Some && tmpl[1] == 'E' {
        (date->0).4 + spec_subst(tmpl.skip(2), date, time)
    } else if tmpl.len() >= 2 && tmpl[0] == '%' && date is Some && tmpl[1] == 'A' {
        (date->0).5 + spec_subst(tmpl.skip(2), date, time)
    } else if tmpl.len() >= 2 && tmpl[0] == '%' && time is Some && tmpl[1] == 'H' {
        (time->0).0 + spec_subst(tmpl.skip(2), date, time)
    } else if tmpl.len() >= 2 && tmpl[0] == '%' && time is Some && tmpl[1] == 'M' {
        (time->0).1 + spec_subst(tmpl.skip(2), date, time)
    } else if tmpl.len() >= 2 && tmpl[0] == '%' && time is Some && tmpl[1] == 'S' {
        (time->0).2 + spec_subst(tmpl.skip(2), date, time)
    } else {
        seq![tmpl[0]] + spec_subst(tmpl.skip(1), date, time)
    }
}

/// The views of an optional group of date component strings.
pub open spec fn spec_date_views(d: Option<(&str, &str, &str, &str, &str, &str)>) -> Option<
    (Seq<char>, Seq<char>, Seq<char>, Seq<char>, Seq<char>, Seq<char>),
> {
    match d {
        Some(t) => Some((t.0@, t.1@, t.2@, t.3@, t.4@, t.5@)),
        None => None,
    }
}

/// The views of an optional group of time component strings.
pub open spec fn spec_time_views(t: Option<(&str, &str, &str)>) -> Option<
    (Seq<char>, Seq<char>, Seq<char>),
> {
    match t {
        Some(p) => Some((p.0@, p.1@, p.2@)),
        None => None,
    }
}

/// Executable twin of `spec_subst`, over component strings.
pub fn render_template(
    tmpl: &str,
    date: Option<(&str, &str, &str, &str, &str, &str)>,
    time: Option<(&str, &str, &str)>,
) -> (r: String)
    ensures
        r@ == spec_subst(tmpl@, spec_date_views(date), spec_time_views(time)),
{
    let ghost dv = spec_date_views(date);
    let ghost tv = spec_time_views(time);
    let n = tmpl.unicode_len();
    let mut out = String::new();
    let mut i: usize = 0;
    proof {
        assert(tmpl@.skip(0) =~= tmpl@);
    }
    while i < n
        invariant
            i <= n,
            n == tmpl@.len(),
            dv == spec_date_views(date),
            tv == spec_time_views(time),
            spec_subst(tmpl@, dv, tv) == out@ + spec_subst(tmpl@.skip(i as int), dv, tv),
        decreases n - i,
    {
        proof {
            assert(tmpl@.skip(i as int).len() == n - i);
            assert(tmpl@.skip(i as int)[0] == tmpl@[i as int]);
            if i + 1 < n {
                assert(tmpl@.skip(i as int)[1] == tmpl@[i as int + 1]);
            }
            assert(tmpl@.skip(i as int).skip(1) =~= tmpl@.skip(i as int + 1));
            if i + 2 <= n {
                assert(tmpl@.skip(i as int).skip(2) =~= tmpl@.skip(i as int + 2));
            }
        }
        let c = tmpl.get_char(i);
        let mut matched: bool = false;
        if c == '%' && i + 1 < n {
            let c2 = tmpl.get_char(i + 1);
            match date {
                Some(d) => {
                    if c2 == 'Y' {
                        out.append(d.0);
                        matched = true;
                    } else if c2 == 'm' {
                        out.append(d.1);
                        matched = true;
                    } else if c2 == 'd' {
                        out.append(d.2);
                        matched = true;
                    } else if c2 == 'B' {
                        out.append(d.3);
                        matched = true;
                    } else if c2 == 'E' {
                        out.append(d.4);
                        matched = true;
                    } else if c2 == 'A' {
                        out.append(d.5);
                        matched = true;
                    }
                },
                None => {},
            }
            if !matched {
                match time {
                    Some(t) => {
                        if c2 == 'H' {
                            out.append(t.0);
                            matched = true;
                        } else if c2 == 'M' {
                            out.append(t.1);
                            matched = true;
                        } else if c2 == 'S' {
                            out.append(t.2);
                            matched = true;
                        }
                    },
                    None => {},
                }
            }
        }
        if matched {
            proof {
                assert(out@ + spec_subst(tmpl@.skip(i as int + 2), dv, tv) =~= spec_subst(
                    tmpl@,
                    dv,
                    tv,
                ));
            }
            i = i + 2;
        } else {
            out.push(c);
            proof {
                assert(out@ + spec_subst(tmpl@.skip(i as int + 1), dv, tv) =~= spec_subst(
                    tmpl@,
                    dv,
                    tv,
                ));
            }
            i = i + 1;
        }
    }
    proof {
        assert(tmpl@.skip(n as int) =~= Seq::<char>::empty());
        assert(out@ + Seq::<char>::empty() =~= out@);
    }
    out
}

} // verus!
