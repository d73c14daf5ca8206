//! What is shown of a response: its status, its body and the errors of a request.
use vstd::prelude::*;

use crate::text::str_result_view;

verus! {

/// The decimal digits.
pub open spec fn digits() -> Seq<char> {
    seq!['0', '1', '2', '3', '4', '5', '6', '7', '8', '9']
}

/// The decimal numeral of `n`, without leading zeros.
pub open spec fn decimal(n: nat) -> Seq<char>
    decreases n,
{
    if n < 10 {
        seq![digits()[n as int]]
    } else {
        decimal(n / 10).push(digits()[(n % 10) as int])
    }
}

fn digit_char(d: u64) -> (c: char)
    requires
        d < 10,
    ensures
        c == digits()[d as int],
{
    if d == 0 {
        '0'
    } else if d == 1 {
        '1'
    } else if d == 2 {
        '2'
    } else if d == 3 {
        '3'
    } else if d == 4 {
        '4'
    } else if d == 5 {
        '5'
    } else if d == 6 {
        '6'
    } else if d == 7 {
        '7'
    } else if d == 8 {
        '8'
    } else {
        '9'
    }
}

/// The decimal numeral of `n`.
pub fn decimal_string(n: u64) -> (s: String)
    ensures
        s@ == decimal(n as nat),
    decreases n,
{
    if n < 10 {
        let mut s = String::new();
        s.push(digit_char(n));
        s
    } else {
        let mut s = decimal_string(n / 10);
        s.push(digit_char(n % 10));
        s
    }
}

/// The standard reason phrase of the status `code`, as
/// `reqwest::StatusCode::canonical_reason` gives it: a function of the code.
pub uninterp spec fn status_reason(code: u16) -> Option<Seq<char>>;

/// `StatusCode::canonical_reason` of the status `code` (which `StatusCode`
/// holds only from 100 to 999).
#[verifier::external_body]
fn canonical_reason(code: u16) -> (r: Option<String>)
    requires
        100 <= code <= 999,
    ensures
        match r {
            Some(s) => status_reason(code) == Some(s@),
            None => status_reason(code) is None,
        },
{
    match reqwest::StatusCode::from_u16(code) {
        Ok(status) => status.canonical_reason().map(String::from),
        Err(_) => None,
    }
}

/// The status line of a response: the code, a space, and its reason phrase or `Unknown`.
pub open spec fn spec_status_text(code: u16) -> Seq<char> {
    decimal(code as nat) + " "@ + match status_reason(code) {
        Some(reason) => reason,
        None => "Unknown"@,
    }
}

/// The status line of a response with the status `code` (100 to 999, as
/// HTTP status codes are): `200 OK`, or `799 Unknown` for a code without a
/// standard reason.
pub fn status_text(code: u16) -> (s: String)
    requires
        100 <= code <= 999,
    ensures
        s@ == spec_status_text(code),
{
    let mut s = decimal_string(code as u64);
    s.append(" ");
    match canonical_reason(code) {
        Some(reason) => s.append(reason.as_str()),
        None => s.append("Unknown"),
    }
    s
}

/// The colour a status is shown in.
#[derive(Clone, Copy, Debug, PartialEq, Eq, Structural)]
pub enum StatusColor {
    Green,
    Red,
    Yellow,
}

/// A success status: 200 to 299.
pub open spec fn spec_is_success(code: u16) -> bool {
    200 <= code < 300
}

/// Whether the status `code` is a success (200 to 299).
pub fn is_success_status(code: u16) -> (b: bool)
    ensures
        b == spec_is_success(code),
{
    200 <= code && code < 300
}

/// The colour of a status: green for success, red for client (400 to 499)
/// and server (500 to 599) errors, yellow otherwise.
pub open spec fn spec_status_color(code: u16) -> StatusColor {
    if spec_is_success(code) {
        StatusColor::Green
    } else if 400 <= code < 600 {
        StatusColor::Red
    } else {
        StatusColor::Yellow
    }
}

/// The colour a status is shown in.
pub fn status_color(code: u16) -> (c: StatusColor)
    ensures
        c == spec_status_color(code),
{
    if is_success_status(code) {
        StatusColor::Green
    } else if (400 <= code && code < 500) || (500 <= code && code < 600) {
        StatusColor::Red
    } else {
        StatusColor::Yellow
    }
}

/// What is shown for a failed request: a hint for a timeout, else the error's text.
pub open spec fn spec_request_error_message(is_timeout: bool, error_text: Seq<char>) -> Seq<char> {
    if is_timeout {
        "Request timed out. Increase [config] timeout or check the server."@
    } else {
        error_text
    }
}

/// What is shown for a failed request whose error is a timeout when
/// `is_timeout`, and reads `error_text`.
pub fn request_error_message(is_timeout: bool, error_text: String) -> (s: String)
    ensures
        s@ == spec_request_error_message(is_timeout, error_text@),
{
    if is_timeout {
        String::from_str("Request timed out. Increase [config] timeout or check the server.")
    } else {
        error_text
    }
}

/// The pretty form that `serde_json::to_string_pretty` writes for the JSON
/// value that `serde_json::from_str` reads from `text`; none when `from_str`
/// refuses the text or `to_string_pretty` fails. A function of the text alone.
pub uninterp spec fn json_pretty_text(text: Seq<char>) -> Option<Seq<char>>;

/// `serde_json::to_string_pretty` of the `serde_json::Value` that
/// `serde_json::from_str` reads from `text` (the reading converts the text
/// into the value the call takes); `None` when either refuses.
#[verifier::external_body]
fn pretty_json(text: &str) -> (r: Option<String>)
    ensures
        match r {
            Some(p) => json_pretty_text(text@) == Some(p@),
            None => json_pretty_text(text@) is None,
        },
{
    match serde_json::from_str::<serde_json::Value>(text) {
        Ok(value) => serde_json::to_string_pretty(&value).ok(),
        Err(_) => None,
    }
}

/// The body text to show: the pretty form when there is one, else the text as it came.
pub fn choose_response_text(text: String, pretty: Option<String>) -> (r: String)
    ensures
        r@ == match pretty {
            Some(p) => p@,
            None => text@,
        },
{
    match pretty {
        Some(p) => p,
        None => text,
    }
}

/// The body text of a response as it is shown: pretty-printed when it is
/// JSON that `serde_json` reads and writes back, else as it came.
pub fn format_response_text(text: String) -> (r: String)
    ensures
        r@ == match json_pretty_text(text@) {
            Some(p) => p,
            None => text@,
        },
{
    let pretty = pretty_json(text.as_str());
    choose_response_text(text, pretty)
}

/// What a response comes to: the body text as it is shown, as the result for
/// a success status (200 to 299) and as the error for any other.
pub open spec fn spec_response_outcome(status: u16, text: Seq<char>) -> Result<Seq<char>, Seq<char>> {
    let shown = match json_pretty_text(text) {
        Some(p) => p,
        None => text,
    };
    if spec_is_success(status) {
        Ok(shown)
    } else {
        Err(shown)
    }
}

/// The outcome of a response with `status` and body `text`: its shown body
/// text, `Ok` for a success and `Err` otherwise.
pub fn response_outcome(status: u16, text: String) -> (r: Result<String, String>)
    ensures
        str_result_view(r) == spec_response_outcome(status, text@),
{
    let shown = format_response_text(text);
    if is_success_status(status) {
        Ok(shown)
    } else {
        Err(shown)
    }
}

/// `x / d` rounded to the nearest integer, halves going to the even one.
pub open spec fn round_half_even(x: nat, d: nat) -> nat
    recommends
        d > 0,
{
    let q = x / d;
    let r = x % d;
    if 2 * r > d || (2 * r == d && q % 2 == 1) {
        q + 1
    } else {
        q
    }
}

/// The distance between neighbouring `f64` values around an integer `s`
/// below 2^64: 1 below 2^53, then doubling with each further bit.
pub open spec fn f64_spacing(s: nat) -> nat {
    if s < 0x20_0000_0000_0000 {
        1
    } else if s < 0x40_0000_0000_0000 {
        2
    } else if s < 0x80_0000_0000_0000 {
        4
    } else if s < 0x100_0000_0000_0000 {
        8
    } else if s < 0x200_0000_0000_0000 {
        16
    } else if s < 0x400_0000_0000_0000 {
        32
    } else if s < 0x800_0000_0000_0000 {
        64
    } else if s < 0x1000_0000_0000_0000 {
        128
    } else if s < 0x2000_0000_0000_0000 {
        256
    } else if s < 0x4000_0000_0000_0000 {
        512
    } else if s < 0x8000_0000_0000_0000 {
        1024
    } else {
        2048
    }
}

/// The value of `s as f64` for an integer `s` below 2^64: `s` rounded to the
/// nearest multiple of the spacing, halves going to the even multiple.
pub open spec fn f64_value(s: nat) -> nat {
    round_half_even(s, f64_spacing(s)) * f64_spacing(s)
}

/// Hundredths written with two decimals: `105` is `1.05`.
pub open spec fn fixed_two(h: nat) -> Seq<char> {
    decimal(h / 100) + "."@ + seq![digits()[((h % 100) / 10) as int], digits()[(h % 10) as int]]
}

/// A body size as it is shown: bytes below 1024, else kibibytes below 1024 KB,
/// else mebibytes, each with two decimals as `{:.2}` prints the `f64` quotient
/// (rounded to the nearest hundredth, halves to even).
pub open spec fn spec_format_body_size(size: nat) -> Seq<char> {
    if size >= 1024 * 1024 {
        fixed_two(round_half_even(100 * f64_value(size), 1024 * 1024)) + " MB"@
    } else if size >= 1024 {
        fixed_two(round_half_even(100 * f64_value(size), 1024)) + " KB"@
    } else {
        decimal(size) + " bytes"@
    }
}

fn round_half_even_exec(x: u128, d: u128) -> (r: u128)
    requires
        0 < d <= 0x1_0000_0000,
        x < 0x8000_0000_0000_0000_0000_0000_0000_0000,
    ensures
        r == round_half_even(x as nat, d as nat),
{
    let q = x / d;
    let r = x % d;
    assert(q <= x) by (nonlinear_arith)
        requires
            q == x / d,
            d > 0,
    ;
    if 2 * r > d || (2 * r == d && q % 2 == 1) {
        q + 1
    } else {
        q
    }
}

fn f64_spacing_exec(s: u64) -> (d: u128)
    ensures
        d == f64_spacing(s as nat),
        1 <= d <= 2048,
{
    if s < 0x20_0000_0000_0000 {
        1
    } else if s < 0x40_0000_0000_0000 {
        2
    } else if s < 0x80_0000_0000_0000 {
        4
    } else if s < 0x100_0000_0000_0000 {
        8
    } else if s < 0x200_0000_0000_0000 {
        16
    } else if s < 0x400_0000_0000_0000 {
        32
    } else if s < 0x800_0000_0000_0000 {
        64
    } else if s < 0x1000_0000_0000_0000 {
        128
    } else if s < 0x2000_0000_0000_0000 {
        256
    } else if s < 0x4000_0000_0000_0000 {
        512
    } else if s < 0x8000_0000_0000_0000 {
        1024
    } else {
        2048
    }
}

fn hundredths_of(size: u64, unit: u128) -> (h: u64)
    requires
        unit == 1024 || unit == 1024 * 1024,
    ensures
        h == round_half_even(100 * f64_value(size as nat), unit as nat),
{
    let d = f64_spacing_exec(size);
    let wide = size as u128;
    let rounded = round_half_even_exec(wide, d);
    assert((wide / d) * d <= wide) by (nonlinear_arith)
        requires
            d > 0,
    {
    }
    assert(rounded * d <= wide + d) by (nonlinear_arith)
        requires
            d > 0,
            rounded <= wide / d + 1,
            (wide / d) * d <= wide,
    {
    }
    let value = rounded * d;
    let x = 100 * value;
    let h = round_half_even_exec(x, unit);
    assert(h <= x / unit + 1);
    assert(x / unit <= x / 1024) by (nonlinear_arith)
        requires
            unit >= 1024,
    {
    }
    h as u64
}

fn push_fixed_two(s: &mut String, h: u64)
    ensures
        final(s)@ == old(s)@ + fixed_two(h as nat),
{
    let whole = decimal_string(h / 100);
    s.append(whole.as_str());
    s.append(".");
    s.push(digit_char((h % 100) / 10));
    s.push(digit_char(h % 10));
}

/// A body size as it is shown: `512 bytes`, `1.50 KB` or `2.00 MB`, the
/// decimals being those that `{:.2}` prints for the size divided as an `f64`.
pub fn format_body_size(size: usize) -> (s: String)
    ensures
        s@ == spec_format_body_size(size as nat),
{
    let size = size as u64;
    if size >= 1024 * 1024 {
        let h = hundredths_of(size, 1024 * 1024);
        let mut s = String::new();
        push_fixed_two(&mut s, h);
        s.append(" MB");
        s
    } else if size >= 1024 {
        let h = hundredths_of(size, 1024);
        let mut s = String::new();
        push_fixed_two(&mut s, h);
        s.append(" KB");
        s
    } else {
        let mut s = decimal_string(size);
        s.append(" bytes");
        s
    }
}

} // verus!
