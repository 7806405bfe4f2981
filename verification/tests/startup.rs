use image_parse::discover::{discover, Discovery, Entry};
use image_parse::progress::Progress;
use image_parse::startup::{
    check_input_root, diagnostic, exit_code, parse_roots, Roots, StartupError, EXIT_FAILURE, EXIT_SUCCESS,
};

fn args(values: &[&str]) -> Vec<String> {
    values.iter().map(|value| value.to_string()).collect()
}

#[test]
fn two_arguments_give_the_roots() {
    assert_eq!(
        parse_roots(&args(&["photos", "converted"])),
        Ok(Roots { input_root: "photos".to_string(), output_root: "converted".to_string() })
    );
}

#[test]
fn further_arguments_are_ignored() {
    assert_eq!(
        parse_roots(&args(&["in", "out", "extra", "more"])),
        Ok(Roots { input_root: "in".to_string(), output_root: "out".to_string() })
    );
}

#[test]
fn a_missing_argument_is_a_usage_error() {
    assert_eq!(parse_roots(&args(&[])), Err(StartupError::Usage));
    assert_eq!(parse_roots(&args(&["in"])), Err(StartupError::Usage));
}

#[test]
fn an_input_root_that_is_a_directory_is_admitted() {
    let roots: Roots = Roots { input_root: "in".to_string(), output_root: "out".to_string() };
    assert_eq!(check_input_root(roots.clone(), true), Ok(roots));
}

#[test]
fn an_input_root_that_is_no_directory_is_refused() {
    let roots: Roots = Roots { input_root: "missing".to_string(), output_root: "out".to_string() };
    assert_eq!(check_input_root(roots, false), Err(StartupError::InvalidInputRoot("missing".to_string())));
}

#[test]
fn the_diagnostics_say_what_is_wrong() {
    assert_eq!(diagnostic(&StartupError::Usage), "Usage: image-parse <input_dir> <output_dir>");
    assert_eq!(
        diagnostic(&StartupError::InvalidInputRoot("no/such/dir".to_string())),
        "Input path is not a directory: no/such/dir"
    );
}

#[test]
fn the_exit_code_is_zero_only_after_a_completed_run() {
    assert_eq!(EXIT_SUCCESS, 0);
    assert_eq!(EXIT_FAILURE, 1);
    assert_eq!(exit_code(&Ok(())), 0);
    assert_eq!(exit_code(&Err(StartupError::Usage)), 1);
    assert_eq!(exit_code(&Err(StartupError::InvalidInputRoot("x".to_string()))), 1);
}

#[test]
fn a_run_on_a_missing_input_root_fails_before_any_work() {
    let run: Result<(), StartupError> = parse_roots(&args(&["does/not/exist", "out"]))
        .and_then(|roots| check_input_root(roots, false))
        .map(|_| ());
    assert_eq!(run, Err(StartupError::InvalidInputRoot("does/not/exist".to_string())));
    assert_eq!(exit_code(&run), 1);
    match run {
        Err(error) => assert_eq!(diagnostic(&error), "Input path is not a directory: does/not/exist"),
        Ok(_) => panic!("the run should have failed"),
    }
}

#[test]
fn a_run_on_an_empty_input_root_completes_with_nothing_to_do() {
    let run: Result<Roots, StartupError> =
        parse_roots(&args(&["empty", "out"])).and_then(|roots| check_input_root(roots, true));
    assert!(run.is_ok());
    let entries: Vec<Entry> = vec![Entry { path: "empty".to_string(), is_file: false }];
    let found: Discovery = discover(&entries);
    assert_eq!(found.len(), 0);
    let progress: Progress = Progress::new(found.len());
    assert_eq!(progress.total(), 0);
    assert_eq!(progress.completed(), 0);
    assert!(progress.is_complete());
    assert_eq!(exit_code(&run.map(|_| ())), 0);
}
