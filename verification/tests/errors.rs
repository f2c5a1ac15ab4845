use lottery::error::LotteryError;
use lottery::response::{Body, Response};

fn technical() -> LotteryError {
    LotteryError::TechnicalError(String::from("connection reset"))
}

fn missing() -> LotteryError {
    LotteryError::MissingArgument(String::from("nb"))
}

fn invalid() -> LotteryError {
    LotteryError::InvalidArgument(
        String::from("nb"),
        String::from("Parameter nb should be a positive integer"),
    )
}

#[test]
fn description_names_the_class() {
    assert_eq!(LotteryError::NoEventAvailable.description(), "No event available");
    assert_eq!(technical().description(), "Technical error");
    assert_eq!(missing().description(), "Missing argument");
    assert_eq!(invalid().description(), "Invalid argument");
}

#[test]
fn cause_is_kept_by_technical_errors_only() {
    assert_eq!(technical().cause(), Some(&String::from("connection reset")));
    assert_eq!(LotteryError::NoEventAvailable.cause(), None);
    assert_eq!(missing().cause(), None);
    assert_eq!(invalid().cause(), None);
}

#[test]
fn message_spells_the_error_out() {
    assert_eq!(LotteryError::NoEventAvailable.message(), "No event available");
    assert_eq!(technical().message(), "Technical error: connection reset");
    assert_eq!(missing().message(), "Missing argument nb");
    assert_eq!(
        invalid().message(),
        "Invalid argument nb reason : Parameter nb should be a positive integer"
    );
}

#[test]
fn message_with_empty_texts() {
    assert_eq!(LotteryError::TechnicalError(String::new()).message(), "Technical error: ");
    assert_eq!(LotteryError::MissingArgument(String::new()).message(), "Missing argument ");
    assert_eq!(
        LotteryError::InvalidArgument(String::new(), String::new()).message(),
        "Invalid argument  reason : "
    );
}

#[test]
fn status_code_by_class() {
    assert_eq!(LotteryError::NoEventAvailable.status_code(), 410);
    assert_eq!(technical().status_code(), 500);
    assert_eq!(missing().status_code(), 400);
    assert_eq!(invalid().status_code(), 400);
}

#[test]
fn errors_compare_by_class_and_texts() {
    assert_eq!(missing(), missing());
    assert_eq!(invalid(), invalid());
    assert_eq!(technical(), technical());
    assert_eq!(LotteryError::NoEventAvailable, LotteryError::NoEventAvailable);
    assert_ne!(missing(), LotteryError::MissingArgument(String::from("n")));
    assert_ne!(missing(), LotteryError::TechnicalError(String::from("nb")));
    assert_ne!(invalid(), LotteryError::InvalidArgument(String::from("nb"), String::new()));
    assert_ne!(technical(), LotteryError::NoEventAvailable);
}

#[test]
fn response_from_an_error_carries_status_and_message() {
    let response = Response::from(missing());
    assert_eq!(response.status, 400);
    match response.body {
        Body::Message(text) => assert_eq!(text, "Missing argument nb"),
        Body::Winners(_) => panic!("an error is answered with a message"),
    }
    let response = Response::from(LotteryError::NoEventAvailable);
    assert_eq!(response.status, 410);
    match response.body {
        Body::Message(text) => assert_eq!(text, "No event available"),
        Body::Winners(_) => panic!("an error is answered with a message"),
    }
    let response = Response::from(technical());
    assert_eq!(response.status, 500);
    match response.body {
        Body::Message(text) => assert_eq!(text, "Technical error: connection reset"),
        Body::Winners(_) => panic!("an error is answered with a message"),
    }
}

#[test]
fn response_with_winners_is_ok() {
    let response = Response::with_winners(Vec::new());
    assert_eq!(response.status, 200);
    assert_eq!(lottery::response::STATUS_OK, 200);
    match response.body {
        Body::Winners(winners) => assert!(winners.is_empty()),
        Body::Message(_) => panic!("winners are answered with a list"),
    }
}
