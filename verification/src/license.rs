//! License inspection: dates, remaining-validity bands, and the
//! classification of a license-file read.
//!
//! A license file names an expiration date in `YYYY/MM/DD` form.  The
//! inspector extracts it, measures the days left against "today", and
//! renders one of four severity bands.  The date source (the parser of the
//! calendar crate, and the clock) is trusted at its boundary; every
//! computation on dates is verified.

use vstd::prelude::*;
use vstd::arithmetic::div_mod::lemma_div_decreases;
use vstd::string::StringExecFns;
use crate::error::{spec_error_message, SSHError};
use crate::text::{
    chars_string, find_char_from, lemma_scan_to_eq, push_all, scan_to, spec_starts_with,
    spec_trim, str_chars, subvec, trim_vec,
};

verus! {

/// A calendar date on the proleptic Gregorian calendar.
#[derive(Clone, Copy, Debug, PartialEq, Eq, Structural)]
pub struct Date {
    pub year: i32,
    pub month: u8,
    pub day: u8,
}

/// A leap year of the proleptic Gregorian calendar.
pub open spec fn spec_is_leap(y: int) -> bool {
    y % 4 == 0 && (y % 100 != 0 || y % 400 == 0)
}

/// Days in one month of one year.
pub open spec fn spec_days_in_month(y: int, m: int) -> int {
    if m == 2 {
        if spec_is_leap(y) {
            29
        } else {
            28
        }
    } else if m == 4 || m == 6 || m == 9 || m == 11 {
        30
    } else {
        31
    }
}

impl Date {
    /// A valid date within the range the date source can represent.
    pub open spec fn wf(&self) -> bool {
        &&& -262143 <= self.year <= 262142
        &&& 1 <= self.month <= 12
        &&& 1 <= self.day <= spec_days_in_month(self.year as int, self.month as int)
    }
}

/// The day index of a civil date: days since 1970-01-01, negative before
/// it.  Months are rebased so the leap day falls at the end of the counted
/// year, the year is shifted by 320000 to keep every division
/// non-negative, and the era arithmetic of the 146097-day Gregorian cycle
/// does the rest.
pub open spec fn spec_day_number(y: int, m: int, d: int) -> int {
    let yy = (if m <= 2 {
        y - 1
    } else {
        y
    }) + 320000;
    let era = yy / 400;
    let yoe = yy - era * 400;
    let mp = if m > 2 {
        m - 3
    } else {
        m + 9
    };
    let doy = (153 * mp + 2) / 5 + d - 1;
    let doe = yoe * 365 + yoe / 4 - yoe / 100 + doy;
    era * 146097 + doe - 117597068
}

/// The day after a date: the next day of the month, the first day of the
/// next month, or New Year.
pub open spec fn spec_next_date(d: Date) -> Date {
    if d.day < spec_days_in_month(d.year as int, d.month as int) {
        Date { year: d.year, month: d.month, day: (d.day + 1) as u8 }
    } else if d.month < 12 {
        Date { year: d.year, month: (d.month + 1) as u8, day: 1 }
    } else {
        Date { year: (d.year + 1) as i32, month: 1, day: 1 }
    }
}

/// The day index counts calendar days one by one: whenever a date's
/// successor is still representable, its index is the next one.
pub proof fn lemma_day_number_succ(d: Date)
    requires
        d.wf(),
        d.year < 262142 || !(d.month == 12 && d.day == 31),
    ensures
        spec_next_date(d).wf(),
        spec_day_number(
            spec_next_date(d).year as int,
            spec_next_date(d).month as int,
            spec_next_date(d).day as int,
        ) == spec_day_number(d.year as int, d.month as int, d.day as int) + 1,
{
    let y = d.year as int;
    let m = d.month as int;
    if d.day < spec_days_in_month(y, m) {
    } else if m == 1 {
    } else if m == 2 {
        let yy = y - 1 + 320000;
        assert((yy + 1) % 4 == y % 4);
        assert((yy + 1) % 100 == y % 100);
        assert((yy + 1) % 400 == y % 400);
    } else if m == 12 {
    } else {
    }
}

/// Days from `today` to `exp`; negative when `exp` lies in the past.
pub open spec fn spec_days_until(exp: Date, today: Date) -> int {
    spec_day_number(exp.year as int, exp.month as int, exp.day as int) - spec_day_number(
        today.year as int,
        today.month as int,
        today.day as int,
    )
}

/// Computes the day index of a date.
pub fn day_number(dt: &Date) -> (r: i64)
    requires
        dt.wf(),
    ensures
        r as int == spec_day_number(dt.year as int, dt.month as int, dt.day as int),
{
    let y: i64 = dt.year as i64;
    let m: u64 = dt.month as u64;
    let d: u64 = dt.day as u64;
    let yy: u64 = ((if m <= 2 {
        y - 1
    } else {
        y
    }) + 320000) as u64;
    let era: u64 = yy / 400;
    let yoe: u64 = yy - era * 400;
    let mp: u64 = if m > 2 {
        m - 3
    } else {
        m + 9
    };
    let doy: u64 = (153 * mp + 2) / 5 + (d - 1);
    let doe: u64 = yoe * 365 + yoe / 4 - yoe / 100 + doy;
    (era * 146097 + doe) as i64 - 117597068
}

/// Measures the days from `today` to `exp`.
pub fn days_until(exp: &Date, today: &Date) -> (r: i64)
    requires
        exp.wf(),
        today.wf(),
    ensures
        r as int == spec_days_until(*exp, *today),
{
    let a = day_number(exp);
    let b = day_number(today);
    a - b
}

/// The character for one decimal digit.
pub open spec fn spec_digit(d: int) -> char {
    (48 + d) as char
}

/// The decimal digits of a non-negative number, most significant first.
pub open spec fn spec_digits(n: int) -> Seq<char>
    decreases n,
{
    if n < 10 {
        seq![spec_digit(n)]
    } else {
        spec_digits(n / 10).push(spec_digit(n % 10))
    }
}

/// Writes a non-negative number in decimal.
pub fn format_u64(n: u64) -> (r: Vec<char>)
    ensures
        r@ == spec_digits(n as int),
    decreases n,
{
    if n < 10 {
        let mut v: Vec<char> = Vec::new();
        v.push(((48 + n) as u8) as char);
        proof {
            assert(v@ =~= seq![spec_digit(n as int)]);
        }
        v
    } else {
        proof {
            lemma_div_decreases(n as int, 10);
        }
        let mut v = format_u64(n / 10);
        v.push(((48 + n % 10) as u8) as char);
        proof {
            assert(v@ =~= spec_digits((n as int) / 10).push(spec_digit((n as int) % 10)));
        }
        v
    }
}

/// A number zero-padded to two decimal digits.
pub open spec fn spec_pad2(n: int) -> Seq<char> {
    seq![spec_digit(n / 10), spec_digit(n % 10)]
}

fn pad2(n: u8) -> (r: Vec<char>)
    requires
        n < 100,
    ensures
        r@ == spec_pad2(n as int),
{
    let mut v: Vec<char> = Vec::new();
    v.push(((48 + n / 10) as u8) as char);
    v.push(((48 + n % 10) as u8) as char);
    proof {
        assert(v@ =~= spec_pad2(n as int));
    }
    v
}

/// A number zero-padded to four decimal digits.
pub open spec fn spec_pad4(n: int) -> Seq<char> {
    seq![
        spec_digit(n / 1000),
        spec_digit((n / 100) % 10),
        spec_digit((n / 10) % 10),
        spec_digit(n % 10),
    ]
}

fn pad4(n: u32) -> (r: Vec<char>)
    requires
        n < 10000,
    ensures
        r@ == spec_pad4(n as int),
{
    let mut v: Vec<char> = Vec::new();
    v.push(((48 + n / 1000) as u8) as char);
    v.push(((48 + (n / 100) % 10) as u8) as char);
    v.push(((48 + (n / 10) % 10) as u8) as char);
    v.push(((48 + n % 10) as u8) as char);
    proof {
        assert(v@ =~= spec_pad4(n as int));
    }
    v
}

/// A date written `YYYY-MM-DD`: the year zero-padded to four digits, wider
/// when it does not fit, with a leading minus sign before the common era.
pub open spec fn spec_format_date(dt: Date) -> Seq<char> {
    let y = dt.year as int;
    let ya = if y < 0 {
        -y
    } else {
        y
    };
    let ys = if ya < 10000 {
        spec_pad4(ya)
    } else {
        spec_digits(ya)
    };
    (if y < 0 {
        seq!['-']
    } else {
        Seq::empty()
    }) + ys + seq!['-'] + spec_pad2(dt.month as int) + seq!['-'] + spec_pad2(dt.day as int)
}

/// Writes a date as `YYYY-MM-DD`.
pub fn format_date(dt: &Date) -> (r: Vec<char>)
    requires
        dt.wf(),
    ensures
        r@ == spec_format_date(*dt),
{
    let mut v: Vec<char> = Vec::new();
    if dt.year < 0 {
        v.push('-');
    }
    let ya: u32 = if dt.year < 0 {
        (-(dt.year as i64)) as u32
    } else {
        dt.year as u32
    };
    let ys = if ya < 10000 {
        pad4(ya)
    } else {
        format_u64(ya as u64)
    };
    crate::text::push_all(&mut v, &ys);
    v.push('-');
    let ms = pad2(dt.month);
    crate::text::push_all(&mut v, &ms);
    v.push('-');
    let ds = pad2(dt.day);
    crate::text::push_all(&mut v, &ds);
    proof {
        assert(v@ =~= spec_format_date(*dt));
    }
    v
}

/// The rendered severity of a license: expired, expiring within 30 days,
/// within 90 days, or fine, always naming the date and the day count.
pub open spec fn spec_license_status(exp: Date, today: Date) -> Seq<char> {
    let days = spec_days_until(exp, today);
    let date = spec_format_date(exp);
    if days < 0 {
        "[EXPIRED] "@ + date + " ("@ + spec_digits(-days) + " days overdue) [Countdown: "@
            + spec_digits(-days) + " days overdue]"@
    } else if days <= 30 {
        "[WARNING] Expires "@ + date + " [Countdown: "@ + spec_digits(days) + " days remaining]"@
    } else if days <= 90 {
        "[NOTICE] Expires "@ + date + " [Countdown: "@ + spec_digits(days) + " days remaining]"@
    } else {
        "[OK] Valid until "@ + date + " [Countdown: "@ + spec_digits(days) + " days remaining]"@
    }
}

/// Classifies the remaining validity of a license expiring at `exp`, seen
/// from `today`, into its severity band, rendered for the operator.
pub fn analyze_expiration_date(exp: &Date, today: &Date) -> (r: String)
    requires
        exp.wf(),
        today.wf(),
    ensures
        r@ == spec_license_status(*exp, *today),
{
    let days = days_until(exp, today);
    let date = format_date(exp);
    let mut v: Vec<char> = Vec::new();
    if days < 0 {
        let od = format_u64((-days) as u64);
        push_all(&mut v, &str_chars("[EXPIRED] "));
        push_all(&mut v, &date);
        push_all(&mut v, &str_chars(" ("));
        push_all(&mut v, &od);
        push_all(&mut v, &str_chars(" days overdue) [Countdown: "));
        push_all(&mut v, &od);
        push_all(&mut v, &str_chars(" days overdue]"));
    } else {
        let rd = format_u64(days as u64);
        if days <= 30 {
            push_all(&mut v, &str_chars("[WARNING] Expires "));
        } else if days <= 90 {
            push_all(&mut v, &str_chars("[NOTICE] Expires "));
        } else {
            push_all(&mut v, &str_chars("[OK] Valid until "));
        }
        push_all(&mut v, &date);
        push_all(&mut v, &str_chars(" [Countdown: "));
        push_all(&mut v, &rd);
        push_all(&mut v, &str_chars(" days remaining]"));
    }
    proof {
        assert(v@ =~= spec_license_status(*exp, *today));
    }
    chars_string(&v)
}

/// Repeated leading `//` markers removed, as license lines quote their
/// expiry behind comment slashes.
pub open spec fn spec_strip_slashes(s: Seq<char>) -> Seq<char>
    decreases s.len(),
    via spec_strip_slashes_decreases
{
    if spec_starts_with(s, "//"@) {
        spec_strip_slashes(s.skip(2))
    } else {
        s
    }
}

#[via_fn]
proof fn spec_strip_slashes_decreases(s: Seq<char>) {
    reveal_strlit("//");
}

fn strip_slashes(s: &Vec<char>) -> (r: Vec<char>)
    ensures
        r@ == spec_strip_slashes(s@),
{
    proof {
        reveal_strlit("//");
        assert(s@.skip(0) =~= s@);
    }
    let mut off: usize = 0;
    while off < s.len() && off + 1 < s.len() && s[off] == '/' && s[off + 1] == '/'
        invariant
            off <= s@.len(),
            spec_strip_slashes(s@) == spec_strip_slashes(s@.skip(off as int)),
        decreases s.len() - off,
    {
        proof {
            reveal_strlit("//");
            assert(s@.skip(off as int).subrange(0, 2) =~= "//"@);
            assert(spec_starts_with(s@.skip(off as int), "//"@));
            assert(s@.skip(off as int).skip(2) =~= s@.skip(off + 2 as int));
        }
        off = off + 2;
    }
    proof {
        reveal_strlit("//");
        let rest = s@.skip(off as int);
        assert(!spec_starts_with(rest, "//"@)) by {
            if spec_starts_with(rest, "//"@) {
                assert(rest.subrange(0, 2)[0] == '/');
                assert(rest.subrange(0, 2)[1] == '/');
            }
        }
        assert(s@.skip(off as int) =~= s@.subrange(off as int, s@.len() as int));
    }
    subvec(s, off, s.len())
}

/// The date token of a license line: strip comment slashes, trim, and take
/// what stands between the first colon and the next (or the end), trimmed.
/// Without any colon there is no token.
pub open spec fn spec_date_token(out: Seq<char>) -> Option<Seq<char>> {
    let t = spec_trim(spec_strip_slashes(out));
    let j = scan_to(t, ':', 0);
    if j < t.len() {
        Some(spec_trim(t.subrange(j + 1, scan_to(t, ':', j + 1))))
    } else {
        None
    }
}

fn date_token(out: &Vec<char>) -> (r: Option<Vec<char>>)
    ensures
        match r {
            Some(v) => spec_date_token(out@) == Some(v@),
            None => spec_date_token(out@) is None,
        },
{
    let stripped = strip_slashes(out);
    let t = trim_vec(&stripped);
    let j = match find_char_from(&t, 0, ':') {
        Some(j) => j,
        None => {
            proof {
                lemma_scan_to_eq(t@, ':', 0, t@.len() as int);
            }
            return None;
        },
    };
    proof {
        lemma_scan_to_eq(t@, ':', 0, j as int);
    }
    let k = match find_char_from(&t, j + 1, ':') {
        Some(k) => k,
        None => t.len(),
    };
    proof {
        lemma_scan_to_eq(t@, ':', j + 1, k as int);
    }
    let piece = subvec(&t, j + 1, k);
    Some(trim_vec(&piece))
}

/// What the calendar crate's `%Y/%m/%d` parser makes of a text: a function
/// of the characters alone.
pub uninterp spec fn parsed_ymd(s: Seq<char>) -> Option<(int, int, int)>;

/// Relies on chrono's `NaiveDate::parse_from_str` with format `%Y/%m/%d`
/// and its `Datelike` accessors: the parse depends on the text alone, and
/// a `NaiveDate` is always a valid calendar date with a year chrono keeps
/// within ±262143.
#[verifier::external_body]
pub fn parse_slash_date(s: &str) -> (r: Option<Date>)
    ensures
        match r {
            Some(d) => parsed_ymd(s@) == Some(
                (d.year as int, d.month as int, d.day as int),
            ) && d.wf(),
            None => parsed_ymd(s@) is None,
        },
{
    match chrono::NaiveDate::parse_from_str(s, "%Y/%m/%d") {
        Ok(d) => Some(
            Date {
                year: chrono::Datelike::year(&d),
                month: chrono::Datelike::month(&d) as u8,
                day: chrono::Datelike::day(&d) as u8,
            },
        ),
        Err(_) => None,
    }
}

/// Relies on chrono's `Local::now`: the clock and the machine's time zone
/// decide the value, so nothing is claimed beyond a valid calendar date.
#[verifier::external_body]
pub fn today_local() -> (r: Date)
    ensures
        r.wf(),
{
    let d = chrono::NaiveDateTime::date(&chrono::DateTime::naive_local(&chrono::Local::now()));
    Date {
        year: chrono::Datelike::year(&d),
        month: chrono::Datelike::month(&d) as u8,
        day: chrono::Datelike::day(&d) as u8,
    }
}

/// An extracted license expiry: the parsed date, if any, and the raw
/// trimmed text it came from.
#[derive(Debug)]
pub struct LicenseInfo {
    pub expiration_date: Option<Date>,
    pub status: String,
}

/// The per-product summary handed to the display layer.
#[derive(Debug, Clone)]
pub struct SoftwareInfo {
    pub priint_comet_2017_expiry: String,
}

/// The displayable outcome of one license check.  Every failure mode is a
/// status string, never a propagated error, and the raw remote output is
/// kept for the operator.
#[derive(Debug)]
pub struct LicenseCheckResult {
    pub host: String,
    pub status: String,
    pub error: Option<String>,
    pub debug_log: String,
}

/// Inspects one host's license file.
#[derive(Debug)]
pub struct LicenseChecker {
    host: String,
}

impl LicenseChecker {
    /// The host this checker reports on.
    pub closed spec fn spec_host(&self) -> Seq<char> {
        self.host@
    }

    pub fn new(host: String) -> (r: Self)
        ensures
            r.spec_host() == host@,
    {
        LicenseChecker { host }
    }

    /// The result reported when the connectivity probe itself failed: the
    /// check never propagates, it renders.
    pub fn probe_failure(&self, error: &SSHError) -> (r: LicenseCheckResult)
        ensures
            r.host@ == self.spec_host(),
            r.status@ == "[ERROR] SSH Connection Failed"@,
            r.error matches Some(m) && m@ == "SSH connection error: "@ + spec_error_message(
                *error,
            ),
            r.debug_log@ == "SSH connection failed to "@ + self.spec_host() + "\nError: "@
                + spec_error_message(*error),
    {
        let msg = error.message();
        let mut e: Vec<char> = str_chars("SSH connection error: ");
        push_all(&mut e, &str_chars(msg.as_str()));
        let mut d: Vec<char> = str_chars("SSH connection failed to ");
        push_all(&mut d, &str_chars(self.host.as_str()));
        push_all(&mut d, &str_chars("\nError: "));
        push_all(&mut d, &str_chars(msg.as_str()));
        LicenseCheckResult {
            host: self.host.clone(),
            status: String::from_str("[ERROR] SSH Connection Failed"),
            error: Some(chars_string(&e)),
            debug_log: chars_string(&d),
        }
    }

    /// Classifies the outcome of the license-file read: a failed read, an
    /// empty read, a line without a date token, an unparsable token, or a
    /// parsed date folded into its severity band against `today`.
    pub fn assess_license_read(&self, read: &Result<String, SSHError>, today: &Date) -> (r:
        LicenseCheckResult)
        requires
            today.wf(),
        ensures
            r.host@ == self.spec_host(),
            match read {
                Err(e) => r.status@ == "[ERROR] License File Not Found"@ && (
                r.error matches Some(m) && m@ == "Failed to read license file: "@
                    + spec_error_message(*e)) && r.debug_log@
                    == "Could not find or read license file"@,
                Ok(out) => r.debug_log@ == out@ && if spec_trim(out@).len() == 0 {
                    r.status@ == "[ERROR] No Expiration Info"@ && (r.error matches Some(m) && m@
                        == "License file exists but contains no expiration info"@)
                } else {
                    match spec_date_token(out@) {
                        None => r.status@ == "[ERROR] Invalid License Format"@ && (
                        r.error matches Some(m) && m@
                            == "Could not find expiration date in license file"@),
                        Some(tok) => match parsed_ymd(tok) {
                            None => r.status@ == "[ERROR] Invalid Date Format"@ && (
                            r.error matches Some(m) && m@ == "Could not parse expiration date"@),
                            Some((y, mo, dy)) => r.status@ == spec_license_status(
                                Date { year: y as i32, month: mo as u8, day: dy as u8 },
                                *today,
                            ) && r.error is None,
                        },
                    }
                },
            },
    {
        match read {
            Err(e) => {
                let msg = e.message();
                let mut m: Vec<char> = str_chars("Failed to read license file: ");
                push_all(&mut m, &str_chars(msg.as_str()));
                LicenseCheckResult {
                    host: self.host.clone(),
                    status: String::from_str("[ERROR] License File Not Found"),
                    error: Some(chars_string(&m)),
                    debug_log: String::from_str("Could not find or read license file"),
                }
            },
            Ok(out) => {
                let chars = str_chars(out.as_str());
                let trimmed = trim_vec(&chars);
                if trimmed.len() == 0 {
                    LicenseCheckResult {
                        host: self.host.clone(),
                        status: String::from_str("[ERROR] No Expiration Info"),
                        error: Some(
                            String::from_str("License file exists but contains no expiration info"),
                        ),
                        debug_log: out.clone(),
                    }
                } else {
                    match date_token(&chars) {
                        None => LicenseCheckResult {
                            host: self.host.clone(),
                            status: String::from_str("[ERROR] Invalid License Format"),
                            error: Some(
                                String::from_str("Could not find expiration date in license file"),
                            ),
                            debug_log: out.clone(),
                        },
                        Some(tok) => {
                            let tok_s = chars_string(&tok);
                            match parse_slash_date(tok_s.as_str()) {
                                None => LicenseCheckResult {
                                    host: self.host.clone(),
                                    status: String::from_str("[ERROR] Invalid Date Format"),
                                    error: Some(String::from_str("Could not parse expiration date")),
                                    debug_log: out.clone(),
                                },
                                Some(d) => LicenseCheckResult {
                                    host: self.host.clone(),
                                    status: analyze_expiration_date(&d, today),
                                    error: None,
                                    debug_log: out.clone(),
                                },
                            }
                        },
                    }
                }
            },
        }
    }

    /// Extracts what one license read yields: the raw trimmed text, and
    /// the parsed expiration date when the date token parses.
    pub fn parse_license_output(&self, output: &str) -> (r: LicenseInfo)
        ensures
            r.status@ == spec_trim(output@),
            match r.expiration_date {
                Some(d) => d.wf() && (spec_date_token(output@) matches Some(tok) && parsed_ymd(tok)
                    == Some((d.year as int, d.month as int, d.day as int))),
                None => match spec_date_token(output@) {
                    Some(tok) => parsed_ymd(tok) is None,
                    None => true,
                },
            },
    {
        let chars = str_chars(output);
        let trimmed = trim_vec(&chars);
        let expiration_date = match date_token(&chars) {
            Some(tok) => {
                let tok_s = chars_string(&tok);
                parse_slash_date(tok_s.as_str())
            },
            None => None,
        };
        LicenseInfo { expiration_date, status: chars_string(&trimmed) }
    }
}

/// Folds a finished license check into the per-product summary.
pub fn software_info_from_license(check: &LicenseCheckResult) -> (r: SoftwareInfo)
    ensures
        r.priint_comet_2017_expiry@ == check.status@,
{
    SoftwareInfo { priint_comet_2017_expiry: check.status.clone() }
}

} // verus!
