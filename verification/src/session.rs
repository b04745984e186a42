//! What the bot decides around its session: how it follows the answers of
//! the login, what it reports, and the messages it sends to its group.

use vstd::prelude::*;
use vstd::string::StringExecFns;

verus! {

/// The answers that a login attempt can get from the server.
#[derive(Debug, Clone, Copy, PartialEq, Eq, Structural)]
pub enum LoginResponse {
    /// Logged in.
    Success,
    /// A captcha has to be solved.
    NeedCaptcha,
    /// The account is frozen.
    AccountFrozen,
    /// The device is locked: the account owner has to confirm it.
    DeviceLocked,
    /// Too many SMS codes were requested.
    TooManySMSRequest,
    /// The device lock can be passed by logging in again through it.
    DeviceLockLogin,
    /// An answer the client does not know.
    UnknownStatus,
}

/// What the bot reports when it cannot go on with a login answer.
#[derive(Debug, Clone, Copy, PartialEq, Eq, Structural)]
pub enum LoginNotice {
    AccountFrozen,
    TooManySMSRequest,
    UnknownStatus,
}

/// The next step after a login answer.
#[derive(Debug, Clone, Copy, PartialEq, Eq, Structural)]
pub enum LoginStep {
    /// The password login itself failed: report it and give up.
    GiveUp,
    /// Logged in: go on with the session.
    LoggedIn,
    /// The device is locked: end the process, so that the owner can
    /// confirm the device and start the bot again.
    ExitProcess,
    /// Log in again through the device lock, and follow its answer.
    DeviceLockLogin,
    /// Report the notice and look at the same answer again.
    Report(LoginNotice),
}

/// The step that answers a login response.
pub open spec fn login_step_spec(resp: LoginResponse) -> LoginStep {
    match resp {
        LoginResponse::Success => LoginStep::LoggedIn,
        LoginResponse::DeviceLocked => LoginStep::ExitProcess,
        LoginResponse::DeviceLockLogin => LoginStep::DeviceLockLogin,
        LoginResponse::AccountFrozen => LoginStep::Report(LoginNotice::AccountFrozen),
        LoginResponse::TooManySMSRequest => LoginStep::Report(LoginNotice::TooManySMSRequest),
        LoginResponse::NeedCaptcha | LoginResponse::UnknownStatus => LoginStep::Report(LoginNotice::UnknownStatus),
    }
}

/// The step that answers a login response.
pub fn login_step(resp: LoginResponse) -> (r: LoginStep)
    ensures
        r == login_step_spec(resp),
{
    match resp {
        LoginResponse::Success => LoginStep::LoggedIn,
        LoginResponse::DeviceLocked => LoginStep::ExitProcess,
        LoginResponse::DeviceLockLogin => LoginStep::DeviceLockLogin,
        LoginResponse::AccountFrozen => LoginStep::Report(LoginNotice::AccountFrozen),
        LoginResponse::TooManySMSRequest => LoginStep::Report(LoginNotice::TooManySMSRequest),
        LoginResponse::NeedCaptcha | LoginResponse::UnknownStatus => LoginStep::Report(LoginNotice::UnknownStatus),
    }
}

/// The step after the password login: give up when it failed, else follow
/// its answer.
pub fn password_login_step<E>(result: Result<LoginResponse, E>) -> (r: LoginStep)
    ensures
        match result {
            Ok(resp) => r == login_step_spec(resp),
            Err(_) => r == LoginStep::GiveUp,
        },
{
    match result {
        Ok(resp) => login_step(resp),
        Err(_) => LoginStep::GiveUp,
    }
}

/// The session goes on past the login only after a successful answer.
pub proof fn law_login_ends_only_on_success(resp: LoginResponse)
    ensures
        (login_step_spec(resp) == LoginStep::LoggedIn) <==> (resp == LoginResponse::Success),
        login_step_spec(resp) != LoginStep::GiveUp,
{
}

/// The line reported for a notice.
pub fn notice_text(n: LoginNotice) -> (r: &'static str)
    ensures
        n == LoginNotice::AccountFrozen ==> r@ == "account frozen"@,
        n == LoginNotice::TooManySMSRequest ==> r@ == "too many sms request"@,
        n == LoginNotice::UnknownStatus ==> r@ == "unknown login status: "@,
{
    match n {
        LoginNotice::AccountFrozen => "account frozen",
        LoginNotice::TooManySMSRequest => "too many sms request",
        LoginNotice::UnknownStatus => "unknown login status: ",
    }
}

/// The line reported after sending a group message.
pub fn send_report<T, E>(result: &Result<T, E>) -> (r: &'static str)
    ensures
        result is Ok ==> r@ == "send success"@,
        result is Err ==> r@ == "send error"@,
{
    match result {
        Ok(_) => "send success",
        Err(_) => "send error",
    }
}

/// A text element of a message.
#[derive(Debug, PartialEq, Eq)]
pub struct Text {
    pub str: Option<String>,
}

/// An element of a message.
#[derive(Debug, PartialEq, Eq)]
pub enum Elem {
    Text(Text),
}

/// A message: its elements in order.
#[derive(Debug, PartialEq, Eq)]
pub struct MessageChain {
    pub elems: Vec<Elem>,
}

/// A message that holds `msg` as its only, text, element.
pub fn make_message(msg: String) -> (r: MessageChain)
    ensures
        r.elems@ == seq![Elem::Text(Text { str: Some(msg) })],
{
    let mut elems: Vec<Elem> = Vec::new();
    elems.push(Elem::Text(Text { str: Some(msg) }));
    MessageChain { elems }
}

/// The decimal digit for `d < 10`.
pub open spec fn digit_char(d: nat) -> char {
    if d == 0 { '0' } else if d == 1 { '1' } else if d == 2 { '2' } else if d == 3 { '3' }
    else if d == 4 { '4' } else if d == 5 { '5' } else if d == 6 { '6' } else if d == 7 { '7' }
    else if d == 8 { '8' } else { '9' }
}

/// The decimal digits of `n`, most significant first, without leading zeros.
pub open spec fn digits_of(n: nat) -> Seq<char>
    decreases n,
{
    if n < 10 {
        seq![digit_char(n)]
    } else {
        digits_of(n / 10).push(digit_char(n % 10))
    }
}

/// The decimal text of an integer, with a leading '-' when it is negative.
pub open spec fn decimal_text(x: int) -> Seq<char> {
    if x < 0 {
        seq!['-'] + digits_of((-x) as nat)
    } else {
        digits_of(x as nat)
    }
}

/// Whether `c` is one of the characters '0' to '9'.
pub open spec fn is_decimal_digit(c: char) -> bool {
    '0' <= c && c <= '9'
}

/// The number that a text of decimal digits reads as, most significant
/// digit first.
pub open spec fn decimal_value(s: Seq<char>) -> int
    decreases s.len(),
{
    if s.len() == 0 {
        0
    } else {
        decimal_value(s.drop_last()) * 10 + (s.last() as int - '0' as int)
    }
}

/// `digits_of(n)` is the decimal text of `n`: at least one character, all
/// of them digits, no leading zero (but for 0 itself, which is "0"), and it
/// reads back as `n`.
pub proof fn law_digits_read_back(n: nat)
    ensures
        digits_of(n).len() >= 1,
        forall|i: int| 0 <= i < digits_of(n).len() ==> is_decimal_digit(#[trigger] digits_of(n)[i]),
        decimal_value(digits_of(n)) == n,
        n > 0 ==> digits_of(n)[0] != '0',
        n == 0 ==> digits_of(n) == seq!['0'],
    decreases n,
{
    if n >= 10 {
        law_digits_read_back(n / 10);
        let s = digits_of(n);
        let d = digit_char(n % 10);
        assert(s == digits_of(n / 10).push(d));
        assert(s.drop_last() =~= digits_of(n / 10));
        assert(s.last() == d);
        assert(d as int - '0' as int == n % 10);
        assert(decimal_value(s) == decimal_value(s.drop_last()) * 10 + (s.last() as int - '0' as int));
        assert(n == (n / 10) * 10 + n % 10);
        assert(s[0] == digits_of(n / 10)[0]);
        assert forall|i: int| 0 <= i < s.len() implies is_decimal_digit(#[trigger] s[i]) by {
            if i < s.len() - 1 {
                assert(s[i] == digits_of(n / 10)[i]);
            }
        }
    } else {
        let s = digits_of(n);
        assert(s.drop_last() =~= Seq::<char>::empty());
        assert(decimal_value(s.drop_last()) == 0);
        assert(s.last() == digit_char(n));
        assert(digit_char(n) as int - '0' as int == n);
        assert(decimal_value(s) == decimal_value(s.drop_last()) * 10 + (s.last() as int - '0' as int));
    }
}

/// The decimal text of an integer: a negative number is '-' followed by the
/// digits of its magnitude, any other number is just its digits; the digits
/// read back as the magnitude and have no leading zero.
pub proof fn law_decimal_text_reads_back(x: int)
    ensures
        x >= 0 ==> decimal_value(decimal_text(x)) == x,
        x >= 0 ==> forall|i: int| 0 <= i < decimal_text(x).len() ==> is_decimal_digit(#[trigger] decimal_text(x)[i]),
        x > 0 ==> decimal_text(x)[0] != '0',
        x < 0 ==> decimal_text(x)[0] == '-',
        x < 0 ==> decimal_value(decimal_text(x).drop_first()) == -x,
        x < 0 ==> decimal_text(x).drop_first()[0] != '0',
        x < 0 ==> forall|i: int| 1 <= i < decimal_text(x).len() ==> is_decimal_digit(#[trigger] decimal_text(x)[i]),
{
    if x < 0 {
        let m = (-x) as nat;
        law_digits_read_back(m);
        assert(decimal_text(x).drop_first() =~= digits_of(m));
        assert forall|i: int| 1 <= i < decimal_text(x).len() implies is_decimal_digit(#[trigger] decimal_text(x)[i]) by {
            assert(decimal_text(x)[i] == digits_of(m)[i - 1]);
        }
    } else {
        law_digits_read_back(x as nat);
    }
}

/// The timer text is the prefix, the decimal text of the time, and the
/// suffix; the part between them reads back as the time.
pub proof fn law_timer_text_holds_time(time: i64)
    ensures
        timer_text_spec(time) == "当前时间 "@ + decimal_text(time as int) + " 来自esp32-c3"@,
        time >= 0 ==> decimal_value(decimal_text(time as int)) == time,
        time < 0 ==> decimal_value(decimal_text(time as int).drop_first()) == -time,
{
    law_decimal_text_reads_back(time as int);
}

/// The text of one decimal digit.
fn digit_str(d: u64) -> (r: &'static str)
    requires
        d < 10,
    ensures
        r@ == seq![digit_char(d as nat)],
{
    proof {
        reveal_strlit("0");
        reveal_strlit("1");
        reveal_strlit("2");
        reveal_strlit("3");
        reveal_strlit("4");
        reveal_strlit("5");
        reveal_strlit("6");
        reveal_strlit("7");
        reveal_strlit("8");
        reveal_strlit("9");
    }
    if d == 0 { "0" } else if d == 1 { "1" } else if d == 2 { "2" } else if d == 3 { "3" }
    else if d == 4 { "4" } else if d == 5 { "5" } else if d == 6 { "6" } else if d == 7 { "7" }
    else if d == 8 { "8" } else { "9" }
}

/// Appends the decimal digits of `n`.
fn push_digits(s: &mut String, n: u64)
    ensures
        final(s)@ == old(s)@ + digits_of(n as nat),
    decreases n,
{
    if n >= 10 {
        push_digits(s, n / 10);
    }
    s.append(digit_str(n % 10));
    proof {
        if n >= 10 {
            assert(old(s)@ + digits_of(n as nat) =~= (old(s)@ + digits_of((n / 10) as nat)) + seq![digit_char((n % 10) as nat)]);
        } else {
            assert(n % 10 == n);
        }
    }
}

/// Appends the decimal text of `x`.
fn push_decimal(s: &mut String, x: i64)
    ensures
        final(s)@ == old(s)@ + decimal_text(x as int),
{
    proof {
        reveal_strlit("-");
    }
    if x < 0 {
        s.append("-");
        let magnitude: u64 = if x == i64::MIN { 9223372036854775808u64 } else { (-x) as u64 };
        push_digits(s, magnitude);
        assert(old(s)@ + decimal_text(x as int) =~= (old(s)@ + seq!['-']) + digits_of(magnitude as nat));
    } else {
        push_digits(s, x as u64);
    }
}

/// The text that the group timer sends: the current time, in nanoseconds,
/// between a fixed prefix and suffix.
pub open spec fn timer_text_spec(time: i64) -> Seq<char> {
    "当前时间 "@ + decimal_text(time as int) + " 来自esp32-c3"@
}

/// The text that the group timer sends with the current time.
pub fn timer_text(time: i64) -> (r: String)
    ensures
        r@ == timer_text_spec(time),
{
    let mut s = String::from_str("当前时间 ");
    push_decimal(&mut s, time);
    s.append(" 来自esp32-c3");
    s
}

} // verus!
