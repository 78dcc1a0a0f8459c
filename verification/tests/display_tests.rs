use byte_ring::display::Matrix;
use byte_ring::display::commands_valid;
use byte_ring::display::create_display;
use byte_ring::display::process_commands;
use byte_ring::display::try_parse_dimensions;
use byte_ring::display::parse_dimensions;

#[test]
fn test_happy_case() {
    let mut display = create_display(4, 4, 1);
    process_commands(&mut display, vec![1, 2, 2, 2, 3]);
    let mut expected = Matrix::new(4, 4, 1);
    expected.set_colour(2, 2, 3);
    assert_eq!(display.matrix, expected);
    println!("Happy case: ");
}

#[test]
fn test_other_case() {
    let mut display = create_display(5, 5, 3);
    process_commands(&mut display, vec![1, 3, 2, 2, 1]);
    let mut expected = Matrix::new(5, 5, 3);
    expected.set_colour(3, 2, 1);
    assert_eq!(display.matrix, expected);
    println!("Other case: ");
}

#[test]
fn test_complex_case() {
    let mut display = create_display(5, 5, 3);
    process_commands(&mut display, vec![1, 3, 2, 2, 1, 1, 2, 3, 2, 2]);
    let mut expected = Matrix::new(5, 5, 3);
    expected.set_colour(3, 2, 1);
    expected.set_colour(2, 3, 2);
    assert_eq!(display.matrix, expected);
    println!("Complex case: ");
}

#[test]
fn test_more_complex_case() {
    let mut display = create_display(6, 6, 3);
    process_commands(
        &mut display,
        vec![1, 3, 3, 2, 1, 1, 4, 4, 2, 2, 1, 5, 5, 2, 1],
    );
    let mut expected = Matrix::new(6, 6, 3);
    expected.set_colour(3, 3, 1);
    expected.set_colour(4, 4, 2);
    expected.set_colour(5, 5, 1);
    assert_eq!(display.matrix, expected);
    println!("Complex case: ");
}

#[test]
fn commands_valid_accepts_good_streams() {
    let good = vec![1, 2, 2, 2, 3];
    assert!(commands_valid(&good, 4, 4));
    let unknown_commands = vec![9, 9];
    assert!(commands_valid(&unknown_commands, 4, 4));
    let empty: Vec<u64> = vec![];
    assert!(commands_valid(&empty, 4, 4));
}

#[test]
fn commands_valid_rejects_bad_streams() {
    let out_of_bounds = vec![1, 5, 5, 2, 3];
    assert!(!commands_valid(&out_of_bounds, 4, 4));
    let bad_colour = vec![1, 2, 2, 2, 5];
    assert!(!commands_valid(&bad_colour, 4, 4));
    let truncated = vec![1, 2];
    assert!(!commands_valid(&truncated, 4, 4));
}

#[test]
fn parse_dimensions_reads_two_numbers() {
    assert_eq!((4, 4), parse_dimensions("4 4"));
    assert_eq!((12, 7), parse_dimensions("  12\t7\n"));
}

#[test]
fn try_parse_dimensions_rejects_bad_lines() {
    assert_eq!(None, try_parse_dimensions(""));
    assert_eq!(None, try_parse_dimensions("4"));
    assert_eq!(None, try_parse_dimensions("4 4 4"));
    assert_eq!(None, try_parse_dimensions("a b"));
    assert_eq!(None, try_parse_dimensions("4x 4"));
    assert_eq!(None, try_parse_dimensions("99999999999 1"));
    assert_eq!(Some((4294967295, 0)), try_parse_dimensions("4294967295 0"));
}
