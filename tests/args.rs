use raymond::args::CommandLineArguments;

fn words(ws: &[&str]) -> Vec<String> {
    ws.iter().map(|w| w.to_string()).collect()
}

#[test]
fn default_settings() {
    let a = CommandLineArguments::default();
    assert_eq!(a.output_file, "raymond_out.ppm");
    assert_eq!(a.width, 1024);
    assert_eq!(a.height, 768);
    assert_eq!(a.oversampling_factor, 2);
}

#[test]
fn no_flags_gives_defaults() {
    let a = CommandLineArguments::from_args(&words(&["raymond"])).unwrap();
    assert_eq!(a.output_file, "raymond_out.ppm");
    assert_eq!(a.width, 1024);
    let b = CommandLineArguments::from_args(&Vec::new()).unwrap();
    assert_eq!(b.height, 768);
}

#[test]
fn short_and_long_flags() {
    let a = CommandLineArguments::from_args(&words(&[
        "raymond", "-o", "pic.ppm", "--width", "640", "-h", "+480", "--samples", "3",
    ]))
    .unwrap();
    assert_eq!(a.output_file, "pic.ppm");
    assert_eq!(a.width, 640);
    assert_eq!(a.height, 480);
    assert_eq!(a.oversampling_factor, 3);
}

#[test]
fn later_flag_wins() {
    let a = CommandLineArguments::from_args(&words(&["raymond", "-w", "10", "-w", "20"])).unwrap();
    assert_eq!(a.width, 20);
}

#[test]
fn missing_value_is_an_error() {
    let e = CommandLineArguments::from_args(&words(&["raymond", "-w"])).err().unwrap();
    assert_eq!(e, "Value expected after command line argument");
    let e = CommandLineArguments::from_args(&words(&["raymond", "--bogus"])).err().unwrap();
    assert_eq!(e, "Value expected after command line argument");
}

#[test]
fn bad_numbers_are_errors() {
    let e = CommandLineArguments::from_args(&words(&["raymond", "-w", "wide"])).err().unwrap();
    assert_eq!(e, "Could not parse width");
    let e = CommandLineArguments::from_args(&words(&["raymond", "-h", "-3"])).err().unwrap();
    assert_eq!(e, "Could not parse height");
    let e = CommandLineArguments::from_args(&words(&["raymond", "-s", ""])).err().unwrap();
    assert_eq!(e, "Could not parse oversampling factor");
    let e = CommandLineArguments::from_args(&words(&[
        "raymond",
        "-s",
        "99999999999999999999999",
    ]))
    .err()
    .unwrap();
    assert_eq!(e, "Could not parse oversampling factor");
}

#[test]
fn unknown_flag_is_an_error() {
    let e = CommandLineArguments::from_args(&words(&["raymond", "-x", "1"])).err().unwrap();
    assert_eq!(e, "Unexpected command line argument");
}
