use invaders::command::{single_command, Command, CommandError, Step};

fn args(words: &[&str]) -> Vec<String> {
    words.iter().map(|w| w.to_string()).collect()
}

fn run(words: &[&str]) -> (Result<Step, CommandError>, Vec<String>) {
    let mut a = args(words);
    let r = single_command(&mut a, "in.png".to_string(), "out.png".to_string());
    (r, a)
}

#[test]
fn stacked_commands_are_taken_one_at_a_time() {
    let (r, rest) = run(&["blur", "2.5", "invert", "rotate", "180", "brighten", "-10"]);
    let st = r.unwrap();
    assert_eq!(st.command, Command::Blur { sigma: "2.5".to_string() });
    assert_eq!(st.infile, "in.png");
    assert_eq!(st.outfile, "out.png");
    assert_eq!(rest, args(&["invert", "rotate", "180", "brighten", "-10"]));
    let mut a = rest;
    let st = single_command(&mut a, "out.png".to_string(), "out.png".to_string()).unwrap();
    assert_eq!(st.command, Command::Invert);
    let st = single_command(&mut a, "out.png".to_string(), "out.png".to_string()).unwrap();
    assert_eq!(st.command, Command::Rotate { degrees: "180".to_string() });
    let st = single_command(&mut a, "out.png".to_string(), "out.png".to_string()).unwrap();
    assert_eq!(st.command, Command::Brighten { amount: -10 });
    assert!(a.is_empty());
}

#[test]
fn crop_and_generate_parse_their_numbers() {
    let (r, rest) = run(&["crop", "10", "20", "300", "400", "grayscale"]);
    assert_eq!(r.unwrap().command, Command::Crop { x: 10, y: 20, width: 300, height: 400 });
    assert_eq!(rest, args(&["grayscale"]));
    let (r, rest) = run(&["generate", "255", "0", "17"]);
    assert_eq!(r.unwrap().command, Command::Generate { red: 255, green: 0, blue: 17 });
    assert!(rest.is_empty());
    let (r, _) = run(&["fractal"]);
    assert_eq!(r.unwrap().command, Command::Fractal);
}

#[test]
fn usage_errors_leave_arguments_alone() {
    assert_eq!(run(&[]).0, Err(CommandError::Usage));
    let (r, rest) = run(&["sharpen", "3"]);
    assert_eq!(r, Err(CommandError::Usage));
    assert_eq!(rest, args(&["sharpen", "3"]));
    let (r, rest) = run(&["crop", "1", "2", "3"]);
    assert_eq!(r, Err(CommandError::Usage));
    assert_eq!(rest.len(), 4);
    assert_eq!(run(&["blur"]).0, Err(CommandError::Usage));
}

#[test]
fn bad_numbers_are_reported() {
    let (r, rest) = run(&["generate", "300", "0", "0"]);
    assert_eq!(r, Err(CommandError::BadNumber));
    assert_eq!(rest.len(), 4);
    assert_eq!(run(&["brighten", "ten"]).0, Err(CommandError::BadNumber));
    assert_eq!(run(&["crop", "1", "-2", "3", "4"]).0, Err(CommandError::BadNumber));
}

#[test]
fn numbers_accept_a_plus_sign_and_leading_zeros() {
    assert_eq!(run(&["brighten", "+007"]).0.unwrap().command, Command::Brighten { amount: 7 });
    assert_eq!(run(&["brighten", "-2147483648"]).0.unwrap().command, Command::Brighten { amount: i32::MIN });
    assert_eq!(run(&["brighten", "2147483648"]).0, Err(CommandError::BadNumber));
    assert_eq!(run(&["brighten", "-"]).0, Err(CommandError::BadNumber));
    assert_eq!(run(&["brighten", ""]).0, Err(CommandError::BadNumber));
    assert_eq!(run(&["generate", "+1", "0", "255"]).0.unwrap().command, Command::Generate { red: 1, green: 0, blue: 255 });
    assert_eq!(run(&["generate", "-0", "0", "0"]).0, Err(CommandError::BadNumber));
    assert_eq!(run(&["generate", "256", "0", "0"]).0, Err(CommandError::BadNumber));
}
