use help_message_builder::ColumnWidths;
use help_message_builder::Command;
use help_message_builder::HelpMessageBuilder;
use help_message_builder::Parameter;
use help_message_builder::DASHED;

#[test]
fn empty_builder_yields_empty_message() {
    let out = HelpMessageBuilder::default().build();
    assert_eq!(out, "");
}

#[test]
fn single_dashed_entry_layout() {
    // widths: short = 1 + 1, long = 4 + 2, parameter = 0 + 2, description = 9
    let out = HelpMessageBuilder::default()
        .command("h", "help", Parameter::NO, "Show help", DASHED::YES)
        .build();
    let expected = format!("{:<2}   {:<6}   {:<2}   {:<9}\n", "-h", "--help", "", "Show help");
    assert_eq!(out, expected);
    assert_eq!(out, "-h   --help        Show help\n");
}

#[test]
fn undashed_empty_short_is_blank_padded_not_dashed() {
    let out = HelpMessageBuilder::default()
        .command("", "label", Parameter::NO, "desc", DASHED::NO)
        .build();
    // short column: forced single leading space, padded to width 1; long
    // column: two forced spaces before the name, padded to width 7.
    let expected = format!("{:<1}   {:<7}   {:<2}   {:<4}\n", " ", "  label", "", "desc");
    assert_eq!(out, expected);
    assert!(!out.starts_with('-'));
    assert!(out.starts_with(' '));
}

#[test]
fn optional_parameter_renders_in_square_brackets() {
    let out = HelpMessageBuilder::default()
        .command("o", "output", Parameter::OPTIONAL(String::from("file")), "Output file", DASHED::YES)
        .build();
    let expected =
        format!("{:<2}   {:<8}   {:<6}   {:<11}\n", "-o", "--output", "[file]", "Output file");
    assert_eq!(out, expected);
}

#[test]
fn required_parameter_renders_in_angle_brackets() {
    let out = HelpMessageBuilder::default()
        .command("o", "output", Parameter::REQUIRED(String::from("file")), "Output file", DASHED::YES)
        .build();
    let expected =
        format!("{:<2}   {:<8}   {:<6}   {:<11}\n", "-o", "--output", "<file>", "Output file");
    assert_eq!(out, expected);
}

#[test]
fn widths_cover_all_entries() {
    let commands = vec![
        Command::new(
            String::from("help"),
            String::from("h"),
            String::from("Show help"),
            Parameter::NO,
            DASHED::YES,
        ),
        Command::new(
            String::from("output"),
            String::from("o"),
            String::from("Output file"),
            Parameter::REQUIRED(String::from("file")),
            DASHED::YES,
        ),
        Command::new(
            String::from(""),
            String::from("V"),
            String::from("Version"),
            Parameter::NO,
            DASHED::NO,
        ),
    ];
    let w = HelpMessageBuilder::max_width(&commands);
    assert_eq!(w.short, 1 + 1);
    assert_eq!(w.long, 6 + 2);
    assert_eq!(w.parameter, 4 + 2);
    assert_eq!(w.description, 11);
}

#[test]
fn widths_of_empty_sequence_are_the_padding_constants() {
    let commands: Vec<Command> = vec![];
    let w = HelpMessageBuilder::max_width(&commands);
    assert_eq!(w.short, 1);
    assert_eq!(w.long, 2);
    assert_eq!(w.parameter, 2);
    assert_eq!(w.description, 0);
}

#[test]
fn rows_keep_registration_order() {
    let out = HelpMessageBuilder::default()
        .command("h", "help", Parameter::NO, "Show help", DASHED::YES)
        .command("o", "output", Parameter::REQUIRED(String::from("file")), "Output file", DASHED::YES)
        .command("V", "", Parameter::NO, "Version", DASHED::NO)
        .build();
    let row1 = format!("{:<2}   {:<8}   {:<6}   {:<11}\n", "-h", "--help", "", "Show help");
    let row2 = format!("{:<2}   {:<8}   {:<6}   {:<11}\n", "-o", "--output", "<file>", "Output file");
    let row3 = format!("{:<2}   {:<8}   {:<6}   {:<11}\n", " V", "  ", "", "Version");
    assert_eq!(out, format!("{}{}{}", row1, row2, row3));
}

#[test]
fn build_is_deterministic() {
    let make = || {
        HelpMessageBuilder::default()
            .command("h", "help", Parameter::NO, "Show help", DASHED::YES)
            .command("o", "output", Parameter::OPTIONAL(String::from("n")), "Output", DASHED::YES)
            .build()
    };
    assert_eq!(make(), make());
}

#[test]
fn permuted_registration_reorders_the_same_rows() {
    let a = HelpMessageBuilder::default()
        .command("h", "help", Parameter::NO, "Show help", DASHED::YES)
        .command("o", "output", Parameter::REQUIRED(String::from("file")), "Output file", DASHED::YES)
        .command("V", "", Parameter::NO, "Version", DASHED::NO)
        .build();
    let b = HelpMessageBuilder::default()
        .command("o", "output", Parameter::REQUIRED(String::from("file")), "Output file", DASHED::YES)
        .command("V", "", Parameter::NO, "Version", DASHED::NO)
        .command("h", "help", Parameter::NO, "Show help", DASHED::YES)
        .build();
    let mut rows_a: Vec<&str> = a.lines().collect();
    let mut rows_b: Vec<&str> = b.lines().collect();
    assert_ne!(a, b);
    rows_a.sort();
    rows_b.sort();
    assert_eq!(rows_a, rows_b);
}

#[test]
fn command_new_stores_the_fields() {
    let c = Command::new(
        String::from("help"),
        String::from("h"),
        String::from("Show help"),
        Parameter::NO,
        DASHED::YES,
    );
    assert_eq!(c.long_command, "help");
    assert_eq!(c.short_command, "h");
    assert_eq!(c.description, "Show help");
    assert!(matches!(c.parameter_name, Parameter::NO));
    assert!(matches!(c.dash_status, DASHED::YES));
}

#[test]
fn get_len_is_the_parameter_text_length() {
    assert_eq!(Parameter::NO.get_len(), 0);
    assert_eq!(Parameter::OPTIONAL(String::from("ab")).get_len(), 2);
    assert_eq!(Parameter::REQUIRED(String::from("value")).get_len(), 5);
}
