use help_message_builder::ColumnWidths;
use help_message_builder::HelpMessageBuilder;
use help_message_builder::Parameter;
use help_message_builder::DASHED;

fn widths() -> ColumnWidths {
    // short = 2, long = 6, parameter = 2: indentation is 2 + 6 + 2 + 9 = 19.
    ColumnWidths { short: 2, long: 6, parameter: 2, description: 85 }
}

#[test]
fn short_field_is_returned_unchanged() {
    let out = HelpMessageBuilder::field_wrapper(&widths(), "a short description", 40);
    assert_eq!(out, "a short description");
}

#[test]
fn token_of_exactly_the_wrap_width_is_not_hyphenated() {
    let token = "a".repeat(40);
    let out = HelpMessageBuilder::field_wrapper(&widths(), &token, 40);
    assert_eq!(out, token);
}

#[test]
fn eighty_five_characters_with_breaks_every_eight_wrap_into_three_lines() {
    let field = "aaaaaaaa bbbbbbbb cccccccc dddddddd eeeeeeee ffffffff gggggggg hhhhhhhh iiiiiiii zzzz";
    assert_eq!(field.len(), 85);
    let out = HelpMessageBuilder::field_wrapper(&widths(), field, 40);
    let indent = " ".repeat(19);
    let expected = format!(
        "aaaaaaaa bbbbbbbb cccccccc dddddddd\n{}eeeeeeee ffffffff gggggggg hhhhhhhh\n{}iiiiiiii zzzz",
        indent, indent,
    );
    assert_eq!(out, expected);
    assert_eq!(out.lines().count(), 3);
    for (i, line) in out.lines().enumerate() {
        if i == 0 {
            assert!(!line.starts_with(' '));
        } else {
            assert!(line.starts_with(&indent));
            assert!(line.len() - indent.len() <= 40);
        }
    }
}

#[test]
fn unbroken_token_of_forty_five_characters_is_hyphenated_at_forty() {
    let field = "a".repeat(45);
    let out = HelpMessageBuilder::field_wrapper(&widths(), &field, 40);
    let expected = format!("{}-\n{}{}", "a".repeat(40), " ".repeat(19), "a".repeat(5));
    assert_eq!(out, expected);
}

#[test]
fn exact_width_token_after_a_break_is_still_split() {
    // the scan window after a break starts on the consumed separator, so a
    // token of exactly the wrap width sitting mid-text offers no break
    // inside the window and is hyphenated
    let field = format!("xx {} end", "b".repeat(40));
    let out = HelpMessageBuilder::field_wrapper(&widths(), &field, 40);
    let indent = " ".repeat(19);
    let expected = format!("xx\n{}{}-\n{}b end", indent, "b".repeat(39), indent);
    assert_eq!(out, expected);
}

#[test]
fn whitespace_only_field_wraps_to_blank_lines() {
    let field = " ".repeat(45);
    let out = HelpMessageBuilder::field_wrapper(&widths(), &field, 40);
    // both the first window and the remainder trim to nothing; the
    // continuation line keeps its indentation
    assert_eq!(out, format!("\n{}", " ".repeat(19)));
}

#[test]
fn break_landing_on_the_final_stretch_leaves_a_trimmed_tail() {
    let field = format!("{} x", "a".repeat(40));
    let out = HelpMessageBuilder::field_wrapper(&widths(), &field, 40);
    let expected = format!("{}\n{}x", "a".repeat(40), " ".repeat(19));
    assert_eq!(out, expected);
}

#[test]
fn hyphenated_row_inside_a_full_message() {
    let description = "a".repeat(45);
    let out = HelpMessageBuilder::default()
        .command("h", "help", Parameter::NO, &description, DASHED::YES)
        .build();
    // widths: short = 2, long = 6, parameter = 2, description = 45; the
    // wrapped block is longer than 45 characters, so no final padding.
    let expected = format!(
        "-h   --help        {}-\n{}{}\n",
        "a".repeat(40),
        " ".repeat(19),
        "a".repeat(5),
    );
    assert_eq!(out, expected);
}
