use rustify_ui::clipboard::{available, copy, paste, read, written, ClipboardError};

#[test]
fn a_build_without_the_flag_says_so_rather_than_failing_later() {
    assert!(!available());
    let mut copied = None;
    copy("anything", |answer| copied = Some(answer));
    assert_eq!(copied, Some(Err(ClipboardError::Unavailable)));

    let mut pasted = None;
    paste(|answer| pasted = Some(answer));
    assert_eq!(pasted, Some(Err(ClipboardError::Unavailable)));
}

#[test]
fn every_failure_says_what_to_do_about_it() {
    assert_eq!(
        ClipboardError::Denied.message(),
        "the browser refused the clipboard"
    );
    assert_eq!(
        ClipboardError::Unavailable.message(),
        "this build cannot reach the clipboard"
    );
}

#[test]
fn a_browser_answer_is_either_the_result_or_a_refusal() {
    assert_eq!(written(true), Ok(()));
    assert_eq!(written(false), Err(ClipboardError::Denied));
    assert_eq!(read(Some("text".to_string())), Ok("text".to_string()));
    assert_eq!(read(None), Err(ClipboardError::Denied));
}
