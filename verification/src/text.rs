//! The text the tools produce: numbers in decimal and hexadecimal, the
//! header rows of the CSV logs, and the names of log files and folders.

use vstd::prelude::*;

verus! {

/// `String::push`: appends one character to the string.
#[verifier::external_body]
fn push_char(s: &mut String, c: char)
    ensures
        final(s)@ == old(s)@.push(c),
{
    s.push(c)
}

/// The character of decimal digit `d`.
pub open spec fn digit_char(d: int) -> char {
    (48 + d) as char
}

/// `n` in decimal, without leading zeros.
pub open spec fn decimal(n: nat) -> Seq<char>
    decreases n,
{
    if n < 10 {
        seq![digit_char(n as int)]
    } else {
        decimal(n / 10).push(digit_char((n % 10) as int))
    }
}

/// `n` in decimal, with a minus sign when negative.
pub open spec fn signed_decimal(n: int) -> Seq<char> {
    if n < 0 {
        seq!['-'] + decimal((-n) as nat)
    } else {
        decimal(n as nat)
    }
}

fn digit(d: u64) -> (c: char)
    requires
        d < 10,
    ensures
        c == digit_char(d as int),
{
    let b: u8 = 48u8 + d as u8;
    b as char
}

pub(crate) fn push_decimal(s: &mut String, n: u64)
    ensures
        final(s)@ == old(s)@ + decimal(n as nat),
    decreases n,
{
    if n >= 10 {
        push_decimal(s, n / 10);
    }
    push_char(s, digit(n % 10));
    assert(s@ =~= old(s)@ + decimal(n as nat));
}

/// `n` in decimal.
pub fn decimal_string(n: u64) -> (s: String)
    ensures
        s@ == decimal(n as nat),
{
    let mut s = String::new();
    push_decimal(&mut s, n);
    assert(s@ =~= decimal(n as nat));
    s
}

fn push_signed_decimal(s: &mut String, n: i64)
    ensures
        final(s)@ == old(s)@ + signed_decimal(n as int),
{
    if n < 0 {
        push_char(s, '-');
        let magnitude: u64 = ((-(n + 1)) as u64) + 1;
        push_decimal(s, magnitude);
        assert(s@ =~= old(s)@ + signed_decimal(n as int));
    } else {
        push_decimal(s, n as u64);
    }
}

/// `n` in decimal, with a minus sign when negative.
pub fn signed_decimal_string(n: i64) -> (s: String)
    ensures
        s@ == signed_decimal(n as int),
{
    let mut s = String::new();
    push_signed_decimal(&mut s, n);
    assert(s@ =~= signed_decimal(n as int));
    s
}

/// The lowercase hexadecimal digit of `d`.
pub open spec fn hex_digit_char(d: int) -> char {
    if d < 10 {
        (48 + d) as char
    } else {
        (87 + d) as char
    }
}

/// `b` as `0x` and two lowercase hexadecimal digits.
pub open spec fn hex_byte_text(b: u8) -> Seq<char> {
    seq!['0', 'x', hex_digit_char(b as int / 16), hex_digit_char(b as int % 16)]
}

fn hex_digit(d: u8) -> (c: char)
    requires
        d < 16,
    ensures
        c == hex_digit_char(d as int),
{
    if d < 10 {
        (48u8 + d) as char
    } else {
        (87u8 + d) as char
    }
}

/// `b` as `0x` and two lowercase hexadecimal digits, as a register dump
/// shows it.
pub fn hex_byte(b: u8) -> (s: String)
    ensures
        s@ == hex_byte_text(b),
{
    let mut s = String::new();
    push_char(&mut s, '0');
    push_char(&mut s, 'x');
    push_char(&mut s, hex_digit(b / 16));
    push_char(&mut s, hex_digit(b % 16));
    assert(s@ =~= hex_byte_text(b));
    s
}

/// Fields joined by commas.
pub open spec fn join_commas(fields: Seq<Seq<char>>) -> Seq<char>
    decreases fields.len(),
{
    if fields.len() == 0 {
        Seq::empty()
    } else if fields.len() == 1 {
        fields[0]
    } else {
        join_commas(fields.drop_last()) + seq![','] + fields.last()
    }
}

/// Column names `prefix_0`, `prefix_1`, ..., `count` of them.
pub open spec fn indexed_columns(prefix: Seq<char>, count: nat) -> Seq<Seq<char>> {
    Seq::new(count, |i: int| prefix + seq!['_'] + decimal(i as nat))
}

/// The header row of a CSV log: the column `leading` where given, then
/// `count` columns named `prefix_0`, `prefix_1`, ..., joined by commas.
pub open spec fn csv_header_text(leading: Option<Seq<char>>, prefix: Seq<char>, count: nat) -> Seq<char> {
    match leading {
        Some(l) => join_commas(seq![l] + indexed_columns(prefix, count)),
        None => join_commas(indexed_columns(prefix, count)),
    }
}

pub(crate) fn append_str(s: &mut String, t: &str)
    ensures
        final(s)@ == old(s)@ + t@,
{
    s.append(t);
}

/// The header row of a CSV log, without the line break: the column
/// `leading` where given, then `prefix_0` ... `prefix_{count-1}`.
pub fn csv_header(leading: Option<&str>, prefix: &str, count: usize) -> (h: String)
    ensures
        h@ == csv_header_text(
            match leading {
                Some(l) => Some(l@),
                None => None,
            },
            prefix@,
            count as nat,
        ),
{
    let ghost lead: Seq<Seq<char>> = match leading {
        Some(l) => seq![l@],
        None => Seq::empty(),
    };
    let ghost cols = indexed_columns(prefix@, count as nat);
    let mut h = String::new();
    let mut first = true;
    match leading {
        Some(l) => {
            append_str(&mut h, l);
            first = false;
        },
        None => {},
    }
    assert(h@ =~= join_commas(lead + cols.take(0)));
    let mut i: usize = 0;
    while i < count
        invariant
            0 <= i <= count,
            cols == indexed_columns(prefix@, count as nat),
            first == (lead.len() + i == 0),
            lead.len() <= 1,
            h@ == join_commas(lead + cols.take(i as int)),
        decreases count - i,
    {
        let ghost before = lead + cols.take(i as int);
        if !first {
            push_char(&mut h, ',');
        }
        append_str(&mut h, prefix);
        push_char(&mut h, '_');
        push_decimal(&mut h, i as u64);
        first = false;
        proof {
            let after = lead + cols.take(i + 1);
            assert(after.drop_last() =~= before);
            assert(after.last() == cols[i as int]);
            assert(cols[i as int] =~= prefix@ + seq!['_'] + decimal(i as nat));
            if before.len() == 0 {
                assert(after =~= seq![cols[i as int]]);
            }
        }
        i += 1;
    }
    assert(cols.take(count as int) =~= cols);
    proof {
        match leading {
            Some(l) => assert(lead + cols =~= seq![l@] + indexed_columns(prefix@, count as nat)),
            None => assert(lead + cols =~= indexed_columns(prefix@, count as nat)),
        }
    }
    h
}

/// Whether `c` is one of the characters that cannot stand inside a file
/// name: `/`, `\` or `:`.
pub open spec fn is_path_separator(c: char) -> bool {
    c == '/' || c == '\\' || c == ':'
}

/// `name` with every `/`, `\` and `:` replaced by `_`.
pub open spec fn sanitized(name: Seq<char>) -> Seq<char> {
    name.map_values(|c: char| if is_path_separator(c) { '_' } else { c })
}

/// An interface name made safe to use inside a file name: every `/`, `\`
/// and `:` becomes `_`.
pub fn sanitize_interface_name(name: &str) -> (s: String)
    ensures
        s@ == sanitized(name@),
{
    let n = name.unicode_len();
    let mut s = String::new();
    let mut i: usize = 0;
    while i < n
        invariant
            n == name@.len(),
            0 <= i <= n,
            s@ == sanitized(name@.take(i as int)),
        decreases n - i,
    {
        let c = name.get_char(i);
        if c == '/' || c == '\\' || c == ':' {
            push_char(&mut s, '_');
        } else {
            push_char(&mut s, c);
        }
        i += 1;
        assert(s@ =~= sanitized(name@.take(i as int)));
    }
    assert(name@.take(n as int) =~= name@);
    s
}

/// A sanitized name holds no separator, has the length of the original,
/// and is left as it is by a second sanitizing.
pub proof fn law_sanitizing_removes_separators(name: Seq<char>)
    ensures
        sanitized(name).len() == name.len(),
        forall|i: int| 0 <= i < name.len() ==> !is_path_separator(#[trigger] sanitized(name)[i]),
        sanitized(sanitized(name)) == sanitized(name),
        forall|i: int| 0 <= i < name.len() && !is_path_separator(name[i]) ==> #[trigger] sanitized(name)[i] == name[i],
{
    assert(sanitized(sanitized(name)) =~= sanitized(name));
}

/// The folder for one start's IMU logs: the base folder, then the start's
/// timestamp.
pub open spec fn imu_log_dir_text(base: Seq<char>, timestamp: Seq<char>) -> Seq<char> {
    base + seq!['/'] + timestamp
}

/// The folder for one start's IMU logs.
pub fn imu_log_dir(base: &str, timestamp: &str) -> (d: String)
    ensures
        d@ == imu_log_dir_text(base@, timestamp@),
{
    let mut d = String::new();
    append_str(&mut d, base);
    push_char(&mut d, '/');
    append_str(&mut d, timestamp);
    assert(d@ =~= imu_log_dir_text(base@, timestamp@));
    d
}

/// The file that holds the IMU parameters read on `interface`, inside
/// `log_dir`.
pub open spec fn imu_parameters_path_text(log_dir: Seq<char>, interface: Seq<char>) -> Seq<char> {
    log_dir + "/imu_parameters_"@ + sanitized(interface) + ".json"@
}

/// The file that holds the IMU parameters read on `interface`.
pub fn imu_parameters_path(log_dir: &str, interface: &str) -> (p: String)
    ensures
        p@ == imu_parameters_path_text(log_dir@, interface@),
{
    let mut p = String::new();
    append_str(&mut p, log_dir);
    append_str(&mut p, "/imu_parameters_");
    let safe = sanitize_interface_name(interface);
    append_str(&mut p, safe.as_str());
    append_str(&mut p, ".json");
    assert(p@ =~= imu_parameters_path_text(log_dir@, interface@));
    p
}

/// The folder for one run's network logs, named by its Unix time.
pub open spec fn nn_log_dir_text(unix_seconds: int) -> Seq<char> {
    "nn_logs_"@ + signed_decimal(unix_seconds)
}

/// The folder for one run's network logs.
pub fn nn_log_dir_name(unix_seconds: i64) -> (d: String)
    ensures
        d@ == nn_log_dir_text(unix_seconds as int),
{
    let mut d = String::new();
    append_str(&mut d, "nn_logs_");
    push_signed_decimal(&mut d, unix_seconds);
    assert(d@ =~= nn_log_dir_text(unix_seconds as int));
    d
}


/// `digits` with `0`s put in front up to `width` characters.
pub open spec fn zero_padded(digits: Seq<char>, width: nat) -> Seq<char> {
    if digits.len() < width {
        Seq::new((width - digits.len()) as nat, |i: int| '0') + digits
    } else {
        digits
    }
}

/// A calendar year as a `%Y` field shows it: four digits, zero-padded, for
/// years 0 to 9999; other years carry a sign before their (at least four)
/// digits.
pub open spec fn year_text(year: int) -> Seq<char> {
    if 0 <= year <= 9999 {
        zero_padded(decimal(year as nat), 4)
    } else if year < 0 {
        seq!['-'] + zero_padded(decimal((-year) as nat), 4)
    } else {
        seq!['+'] + zero_padded(decimal(year as nat), 4)
    }
}

/// A value below 100 as two decimal digits.
pub open spec fn two_digits(v: int) -> Seq<char> {
    seq![digit_char(v / 10), digit_char(v % 10)]
}

/// A local time as `%Y%m%d_%H%M%S` shows it. A leap second, which the
/// clock carries as a nanosecond count of a second or more, shows as
/// second 60.
pub open spec fn log_timestamp_text(year: int, month: int, day: int, hour: int, minute: int, second: int, nanosecond: int) -> Seq<char> {
    year_text(year) + two_digits(month) + two_digits(day) + seq!['_'] + two_digits(hour)
        + two_digits(minute) + two_digits(second + nanosecond / 1_000_000_000)
}

fn push_zero_padded(s: &mut String, n: u64, width: usize)
    ensures
        final(s)@ == old(s)@ + zero_padded(decimal(n as nat), width as nat),
{
    let digits = decimal_string(n);
    let len = digits.as_str().unicode_len();
    if len < width {
        let mut k: usize = 0;
        while k < width - len
            invariant
                len < width,
                0 <= k <= width - len,
                s@ == old(s)@ + Seq::new(k as nat, |i: int| '0'),
            decreases width - len - k,
        {
            push_char(s, '0');
            k += 1;
            assert(s@ =~= old(s)@ + Seq::new(k as nat, |i: int| '0'));
        }
    }
    append_str(s, digits.as_str());
    assert(s@ =~= old(s)@ + zero_padded(decimal(n as nat), width as nat));
}

fn push_two_digits(s: &mut String, v: u32)
    requires
        v < 100,
    ensures
        final(s)@ == old(s)@ + two_digits(v as int),
{
    push_char(s, digit((v / 10) as u64));
    push_char(s, digit((v % 10) as u64));
    assert(s@ =~= old(s)@ + two_digits(v as int));
}

/// The timestamp that names a log folder, `%Y%m%d_%H%M%S`, from the parts
/// of a local time.
pub fn log_timestamp(year: i32, month: u32, day: u32, hour: u32, minute: u32, second: u32, nanosecond: u32) -> (t: String)
    requires
        1 <= month <= 12,
        1 <= day <= 31,
        hour < 24,
        minute < 60,
        second < 60,
        nanosecond < 2_000_000_000,
    ensures
        t@ == log_timestamp_text(year as int, month as int, day as int, hour as int, minute as int, second as int, nanosecond as int),
{
    let mut t = String::new();
    let y = year as i64;
    if 0 <= y && y <= 9999 {
        push_zero_padded(&mut t, y as u64, 4);
    } else if y < 0 {
        push_char(&mut t, '-');
        push_zero_padded(&mut t, (-y) as u64, 4);
    } else {
        push_char(&mut t, '+');
        push_zero_padded(&mut t, y as u64, 4);
    }
    assert(t@ =~= year_text(year as int));
    push_two_digits(&mut t, month);
    push_two_digits(&mut t, day);
    push_char(&mut t, '_');
    push_two_digits(&mut t, hour);
    push_two_digits(&mut t, minute);
    push_two_digits(&mut t, second + nanosecond / 1_000_000_000);
    assert(t@ =~= log_timestamp_text(year as int, month as int, day as int, hour as int, minute as int, second as int, nanosecond as int));
    t
}


/// Number of decimal digits of small numbers.
pub proof fn lemma_decimal_len(n: nat)
    ensures
        decimal(n).len() >= 1,
        n < 10 ==> decimal(n).len() == 1,
        10 <= n < 100 ==> decimal(n).len() == 2,
        100 <= n < 1000 ==> decimal(n).len() == 3,
        1000 <= n < 10000 ==> decimal(n).len() == 4,
    decreases n,
{
    if n >= 10 {
        lemma_decimal_len(n / 10);
    }
}

/// A log timestamp of a year from 0 to 9999 is fifteen characters: eight
/// digits of date, an underscore, six digits of time.
pub proof fn law_timestamp_fixed_width(year: int, month: int, day: int, hour: int, minute: int, second: int, nanosecond: int)
    requires
        0 <= year <= 9999,
        1 <= month <= 12,
        1 <= day <= 31,
        0 <= hour < 24,
        0 <= minute < 60,
        0 <= second < 60,
        0 <= nanosecond < 2_000_000_000,
    ensures
        log_timestamp_text(year, month, day, hour, minute, second, nanosecond).len() == 15,
        log_timestamp_text(year, month, day, hour, minute, second, nanosecond)[8] == '_',
{
    lemma_decimal_len(year as nat);
    let y = year_text(year);
    assert(y.len() == 4);
    let t = log_timestamp_text(year, month, day, hour, minute, second, nanosecond);
    assert(t[8] == '_');
}

/// Distinct bytes show as distinct text, and each shows as four
/// characters: `0x` and two hexadecimal digits.
pub proof fn law_hex_byte_is_faithful(a: u8, b: u8)
    ensures
        hex_byte_text(a).len() == 4,
        hex_byte_text(a)[0] == '0' && hex_byte_text(a)[1] == 'x',
        hex_byte_text(a) == hex_byte_text(b) ==> a == b,
{
    if hex_byte_text(a) == hex_byte_text(b) {
        assert(hex_byte_text(a)[2] == hex_byte_text(b)[2]);
        assert(hex_byte_text(a)[3] == hex_byte_text(b)[3]);
        assert(hex_digit_char(a as int / 16) as int == hex_digit_char(b as int / 16) as int);
        assert(hex_digit_char(a as int % 16) as int == hex_digit_char(b as int % 16) as int);
    }
}


/// Whether `c` is a decimal digit.
pub open spec fn is_digit(c: char) -> bool {
    '0' <= c <= '9'
}

/// The number that a string of decimal digits denotes.
pub open spec fn digits_value(s: Seq<char>) -> int
    decreases s.len(),
{
    if s.len() == 0 {
        0
    } else {
        digits_value(s.drop_last()) * 10 + (s.last() as int - 48)
    }
}

/// `decimal(n)` is `n` in plain decimal: digits only, denoting `n`, and
/// with no leading zero unless `n` is zero itself.
pub proof fn law_decimal_is_plain(n: nat)
    ensures
        decimal(n).len() >= 1,
        forall|i: int| 0 <= i < decimal(n).len() ==> is_digit(#[trigger] decimal(n)[i]),
        digits_value(decimal(n)) == n,
        n > 0 ==> decimal(n)[0] != '0',
        n == 0 ==> decimal(n) == seq!['0'],
    decreases n,
{
    if n >= 10 {
        law_decimal_is_plain(n / 10);
        let d = decimal(n);
        assert(d.drop_last() == decimal(n / 10));
        assert(d.last() as int == 48 + n % 10);
        assert forall|i: int| 0 <= i < d.len() implies is_digit(#[trigger] d[i]) by {
            if i < d.len() - 1 {
                assert(d[i] == decimal(n / 10)[i]);
            }
        }
        assert(d[0] == decimal(n / 10)[0]);
        assert(digits_value(d) == digits_value(d.drop_last()) * 10 + (d.last() as int - 48));
        assert((n / 10) * 10 + n % 10 == n);
    } else {
        let d = decimal(n);
        assert(d[0] as int == 48 + n);
        assert(d.drop_last() =~= Seq::<char>::empty());
        assert(digits_value(d.drop_last()) == 0);
        assert(digits_value(d) == digits_value(d.drop_last()) * 10 + (d.last() as int - 48));
    }
}

/// Column `k` of a CSV header is the prefix, `_`, and `k` in plain decimal
/// (no leading zero, no padding), and the row is those columns, after the
/// leading one where there is one, joined by commas.
pub proof fn law_csv_columns_are_plain_indices(leading: Option<Seq<char>>, prefix: Seq<char>, count: nat)
    ensures
        indexed_columns(prefix, count).len() == count,
        forall|k: int| 0 <= k < count ==> {
            let c = #[trigger] indexed_columns(prefix, count)[k];
            let digits = c.subrange(prefix.len() as int + 1, c.len() as int);
            &&& c.len() > prefix.len() + 1
            &&& c.subrange(0, prefix.len() as int) == prefix
            &&& c[prefix.len() as int] == '_'
            &&& digits == decimal(k as nat)
            &&& digits_value(digits) == k
            &&& (k > 0 ==> digits[0] != '0')
            &&& forall|i: int| 0 <= i < digits.len() ==> is_digit(#[trigger] digits[i])
        },
        csv_header_text(leading, prefix, count) == match leading {
            Some(l) => join_commas(seq![l] + indexed_columns(prefix, count)),
            None => join_commas(indexed_columns(prefix, count)),
        },
{
    assert forall|k: int| 0 <= k < count implies {
        let c = #[trigger] indexed_columns(prefix, count)[k];
        let digits = c.subrange(prefix.len() as int + 1, c.len() as int);
        &&& c.len() > prefix.len() + 1
        &&& c.subrange(0, prefix.len() as int) == prefix
        &&& c[prefix.len() as int] == '_'
        &&& digits == decimal(k as nat)
        &&& digits_value(digits) == k
        &&& (k > 0 ==> digits[0] != '0')
        &&& forall|i: int| 0 <= i < digits.len() ==> is_digit(#[trigger] digits[i])
    } by {
        law_decimal_is_plain(k as nat);
        let c = indexed_columns(prefix, count)[k];
        assert(c == prefix + seq!['_'] + decimal(k as nat));
        assert(c.subrange(0, prefix.len() as int) =~= prefix);
        assert(c.subrange(prefix.len() as int + 1, c.len() as int) =~= decimal(k as nat));
    }
}

} // verus!
