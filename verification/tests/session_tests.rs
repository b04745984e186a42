use esp_qq_bot::session::{
    login_step, make_message, notice_text, password_login_step, send_report, timer_text, Elem,
    LoginNotice, LoginResponse, LoginStep, Text,
};

#[test]
fn login_steps() {
    assert_eq!(login_step(LoginResponse::Success), LoginStep::LoggedIn);
    assert_eq!(login_step(LoginResponse::DeviceLocked), LoginStep::ExitProcess);
    assert_eq!(login_step(LoginResponse::DeviceLockLogin), LoginStep::DeviceLockLogin);
    assert_eq!(login_step(LoginResponse::AccountFrozen), LoginStep::Report(LoginNotice::AccountFrozen));
    assert_eq!(
        login_step(LoginResponse::TooManySMSRequest),
        LoginStep::Report(LoginNotice::TooManySMSRequest)
    );
    assert_eq!(login_step(LoginResponse::NeedCaptcha), LoginStep::Report(LoginNotice::UnknownStatus));
    assert_eq!(login_step(LoginResponse::UnknownStatus), LoginStep::Report(LoginNotice::UnknownStatus));
}

#[test]
fn password_login_failure_gives_up() {
    let r: Result<LoginResponse, String> = Err("no network".to_string());
    assert_eq!(password_login_step(r), LoginStep::GiveUp);
    let ok: Result<LoginResponse, String> = Ok(LoginResponse::Success);
    assert_eq!(password_login_step(ok), LoginStep::LoggedIn);
}

#[test]
fn notices() {
    assert_eq!(notice_text(LoginNotice::AccountFrozen), "account frozen");
    assert_eq!(notice_text(LoginNotice::TooManySMSRequest), "too many sms request");
    assert_eq!(notice_text(LoginNotice::UnknownStatus), "unknown login status: ");
}

#[test]
fn send_reports() {
    let ok: Result<(), ()> = Ok(());
    let err: Result<(), ()> = Err(());
    assert_eq!(send_report(&ok), "send success");
    assert_eq!(send_report(&err), "send error");
}

#[test]
fn message_holds_one_text() {
    let m = make_message("测试发送 by esp32c3".to_string());
    assert_eq!(m.elems, vec![Elem::Text(Text { str: Some("测试发送 by esp32c3".to_string()) })]);
}

#[test]
fn timer_text_formats_time() {
    assert_eq!(timer_text(1234567890), "当前时间 1234567890 来自esp32-c3");
    assert_eq!(timer_text(0), "当前时间 0 来自esp32-c3");
    assert_eq!(timer_text(-42), "当前时间 -42 来自esp32-c3");
    assert_eq!(timer_text(i64::MIN), format!("当前时间 {} 来自esp32-c3", i64::MIN));
    assert_eq!(timer_text(i64::MAX), format!("当前时间 {} 来自esp32-c3", i64::MAX));
}
