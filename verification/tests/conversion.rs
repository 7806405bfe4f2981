use image_parse::convert::{Action, ConversionOutcome, Job, JPG_QUALITY};

fn failed(reason: &str) -> Result<(), String> {
    Err(reason.to_string())
}

#[test]
fn the_quality_is_ninety_five() {
    assert_eq!(JPG_QUALITY, 95);
}

#[test]
fn a_job_starts_at_the_directory_of_its_output() {
    let job: Job = Job::start("in/sub/b.png", "in", "out");
    assert_eq!(
        job,
        Job::AwaitingDirectory { source: "in/sub/b.png".to_string(), destination: "out/sub/b.jpg".to_string() }
    );
    assert_eq!(job.action(), Action::CreateDirectory { path: "out/sub/".to_string() });
    assert!(!job.is_finished());
}

#[test]
fn a_job_that_meets_no_failure_succeeds_in_three_steps() {
    let job: Job = Job::start("in/a.PNG", "in", "out");
    assert_eq!(job.action(), Action::CreateDirectory { path: "out/".to_string() });
    let job: Job = job.advance(Ok(()));
    assert_eq!(job.action(), Action::Decode { source: "in/a.PNG".to_string() });
    assert!(!job.is_finished());
    let job: Job = job.advance(Ok(()));
    assert_eq!(job.action(), Action::Encode { destination: "out/a.jpg".to_string(), quality: 95 });
    assert!(!job.is_finished());
    let job: Job = job.advance(Ok(()));
    assert!(job.is_finished());
    assert_eq!(job.action(), Action::Report { outcome: ConversionOutcome::Success });
}

#[test]
fn a_candidate_outside_the_root_ends_at_once() {
    let job: Job = Job::start("elsewhere/a.png", "in", "out");
    assert!(job.is_finished());
    assert_eq!(job, Job::Finished { outcome: ConversionOutcome::PathMappingFailure });
    assert_eq!(job.action(), Action::Report { outcome: ConversionOutcome::PathMappingFailure });
}

#[test]
fn a_directory_that_cannot_be_created_ends_the_job() {
    let job: Job = Job::start("in/a.png", "in", "out").advance(failed("permission denied"));
    assert!(job.is_finished());
    assert_eq!(
        job.action(),
        Action::Report { outcome: ConversionOutcome::DirCreateFailure("permission denied".to_string()) }
    );
}

#[test]
fn a_source_that_cannot_be_decoded_ends_the_job() {
    let job: Job = Job::start("in/a.png", "in", "out").advance(Ok(())).advance(failed("not a PNG"));
    assert!(job.is_finished());
    assert_eq!(job.action(), Action::Report { outcome: ConversionOutcome::ReadFailure("not a PNG".to_string()) });
}

#[test]
fn an_output_that_cannot_be_written_ends_the_job() {
    let job: Job =
        Job::start("in/a.png", "in", "out").advance(Ok(())).advance(Ok(())).advance(failed("disk full"));
    assert!(job.is_finished());
    assert_eq!(job.action(), Action::Report { outcome: ConversionOutcome::WriteFailure("disk full".to_string()) });
}

#[test]
fn nothing_follows_the_end() {
    let done: Job = Job::Finished { outcome: ConversionOutcome::ReadFailure("gone".to_string()) };
    assert_eq!(done.clone().advance(Ok(())), done);
    assert_eq!(done.clone().advance(failed("later")), done);
    let success: Job = Job::Finished { outcome: ConversionOutcome::Success };
    assert_eq!(success.clone().advance(failed("late")), success);
}

#[test]
fn every_job_ends_within_three_steps() {
    let candidates: Vec<&str> = vec!["in/a.png", "in/sub/b.jpg", "out/c.png", "in", "in/d.txt"];
    let reports: Vec<Vec<Result<(), String>>> = vec![
        vec![Ok(()), Ok(()), Ok(())],
        vec![failed("x"), Ok(()), Ok(())],
        vec![Ok(()), failed("y"), Ok(())],
        vec![Ok(()), Ok(()), failed("z")],
        vec![failed("x"), failed("y"), failed("z")],
    ];
    for candidate in &candidates {
        for report in &reports {
            let mut job: Job = Job::start(candidate, "in", "out");
            let mut reported: usize = 0;
            for result in report {
                if let Action::Report { .. } = job.action() {
                    reported += 1;
                    break;
                }
                job = job.advance(result.clone());
            }
            if reported == 0 {
                assert!(matches!(job.action(), Action::Report { .. }));
            }
            assert!(job.is_finished());
        }
    }
}

#[test]
fn the_source_is_decoded_from_the_candidate_as_given() {
    let job: Job = Job::start("in//weird///a.png", "in", "out").advance(Ok(()));
    assert_eq!(job.action(), Action::Decode { source: "in//weird///a.png".to_string() });
    let job: Job = job.advance(Ok(()));
    assert_eq!(job.action(), Action::Encode { destination: "out/weird/a.jpg".to_string(), quality: 95 });
}

#[test]
fn a_clone_keeps_the_reason() {
    let outcomes: Vec<ConversionOutcome> = vec![
        ConversionOutcome::Success,
        ConversionOutcome::PathMappingFailure,
        ConversionOutcome::ReadFailure("r".to_string()),
        ConversionOutcome::WriteFailure("w".to_string()),
        ConversionOutcome::DirCreateFailure("d".to_string()),
    ];
    for outcome in &outcomes {
        assert_eq!(&outcome.clone(), outcome);
        let report: Action = Action::Report { outcome: outcome.clone() };
        assert_eq!(report.clone(), report);
    }
}
