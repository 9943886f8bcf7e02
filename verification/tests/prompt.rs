use raytracer::prompt::{apply_reply, confirmation_step, init_prompt, outcome_confirms, ConfirmationStep, ReplyOutcome};

fn args(v: &[&str]) -> Vec<String> {
    v.iter().map(|s| s.to_string()).collect()
}

#[test]
fn init_prompt_without_arguments_uses_default() {
    let (path, file, default, quality, release) = init_prompt(&args(&["tracer"]));
    assert_eq!(path, "output/");
    assert_eq!(file, "test.jpg");
    assert_eq!(default, "test.jpg");
    assert_eq!(quality, 60);
    assert!(!release);
}

#[test]
fn init_prompt_reads_file_name_and_release_flag() {
    let (_, file, _, _, release) = init_prompt(&args(&["tracer", "scene.jpg", "--release"]));
    assert_eq!(file, "scene.jpg");
    assert!(release);
    let (_, file, _, _, release) = init_prompt(&args(&["tracer", "scene.jpg", "--debug"]));
    assert_eq!(file, "scene.jpg");
    assert!(!release);
    let (_, file, _, _, release) = init_prompt(&args(&["tracer", "scene.jpg"]));
    assert_eq!(file, "scene.jpg");
    assert!(!release);
}

#[test]
fn confirmation_is_skipped_for_release_and_default() {
    let d = "test.jpg".to_string();
    assert!(matches!(confirmation_step(&"x.jpg".to_string(), &d, true), ConfirmationStep::SkipRelease));
    assert!(matches!(confirmation_step(&d.clone(), &d, false), ConfirmationStep::SkipDefault));
    assert!(matches!(confirmation_step(&"x.jpg".to_string(), &d, false), ConfirmationStep::AskUser));
}

#[test]
fn reply_y_confirms_n_reverts_other_cancels() {
    let d = "test.jpg".to_string();
    let mut f = "x.jpg".to_string();
    let r = apply_reply(&mut f, &d, Some("y\n"));
    assert!(matches!(r, ReplyOutcome::Confirmed));
    assert!(outcome_confirms(r));
    assert_eq!(f, "x.jpg");

    let r = apply_reply(&mut f, &d, Some("no\n"));
    assert!(matches!(r, ReplyOutcome::Reverted));
    assert!(outcome_confirms(r));
    assert_eq!(f, "test.jpg");

    let mut f = "x.jpg".to_string();
    let r = apply_reply(&mut f, &d, Some("\n"));
    assert!(matches!(r, ReplyOutcome::Canceled));
    assert!(!outcome_confirms(r));
    assert_eq!(f, "x.jpg");

    let r = apply_reply(&mut f, &d, Some(""));
    assert!(matches!(r, ReplyOutcome::Canceled));
    let r = apply_reply(&mut f, &d, None);
    assert!(matches!(r, ReplyOutcome::Canceled));
    let r = apply_reply(&mut f, &d, Some("Yes"));
    assert!(matches!(r, ReplyOutcome::Canceled));
}
