use dzsm::lock::{
    check_if_initialized, create_lock_file, initialize, lock_content, lock_file, timestamp_format,
};
use dzsm::ui::banner::{authors_line, banner_lines, centre, print_banner, terminal_width};
use dzsm::ui::prompt::{answer_from, prompt_yes_no, question};
use dzsm::ui::status::{
    print_step_concat, println_failure, println_step, println_step_concat, println_success,
};

#[test]
fn lock_file_marks_a_directory() {
    assert_eq!(lock_file(), ".dzsm.lock");
    assert_eq!(timestamp_format(), "%Y-%m-%d %H:%M:%S UTC");
    assert!(check_if_initialized(true));
    assert!(!check_if_initialized(false));
}

#[test]
fn lock_file_is_written_where_the_user_agreed() {
    assert_eq!(initialize(false, "1.2.3"), None);
    let text = initialize(true, "1.2.3").unwrap();
    let head = "Managed by DZSM v1.2.3 - DayZ Server Manager\nCreated: ";
    assert!(text.starts_with(head));
    assert!(text.ends_with(" UTC\n"));
    let created = &text[head.len()..text.len() - 1];
    assert_eq!(created.len(), "2024-05-06 07:08:09 UTC".len());
    assert_eq!(text, lock_content("1.2.3", created));
    assert!(created.starts_with("20"));
}

#[test]
fn lock_file_holds_the_version_and_the_time() {
    assert_eq!(
        lock_content("1.2.3", "2024-05-06 07:08:09 UTC"),
        "Managed by DZSM v1.2.3 - DayZ Server Manager\nCreated: 2024-05-06 07:08:09 UTC\n"
    );
    assert_eq!(lock_content("0", ""), "Managed by DZSM v0 - DayZ Server Manager\nCreated: \n");
    let text = create_lock_file("9");
    assert!(text.starts_with("Managed by DZSM v9 - DayZ Server Manager\nCreated: "));
}

#[test]
fn status_lines_are_indented_by_level() {
    assert_eq!(println_failure("no", 0), "✗ no");
    assert_eq!(println_failure("no", 3), "      ✗ no");
    assert_eq!(println_step("go", 1), "  → go");
    assert_eq!(println_success("ok", 2), "    ✓ ok");
    assert_eq!(println_step_concat("more", 1), "    more");
    assert_eq!(print_step_concat("more", 0), "  more");
}

#[test]
fn question_shows_the_default_in_capitals() {
    assert_eq!(question("Proceed with installation?", true, 1), "    Proceed with installation? (Y/n): ");
    assert_eq!(question("Go?", false, 0), "  Go? (y/N): ");
}

#[test]
fn answer_is_read_whatever_its_case_and_surroundings() {
    assert_eq!(prompt_yes_no("\n", true), Some(true));
    assert_eq!(prompt_yes_no("", false), Some(false));
    assert_eq!(prompt_yes_no(" Y \n", false), Some(true));
    assert_eq!(prompt_yes_no("YES\r\n", false), Some(true));
    assert_eq!(prompt_yes_no("n\n", true), Some(false));
    assert_eq!(prompt_yes_no("No", true), Some(false));
    assert_eq!(prompt_yes_no("maybe", true), None);
    assert_eq!(prompt_yes_no("y e s", true), None);
}

#[test]
fn answer_from_takes_lower_case_only() {
    assert_eq!(answer_from("", true), Some(true));
    assert_eq!(answer_from("yes", false), Some(true));
    assert_eq!(answer_from("no", true), Some(false));
    assert_eq!(answer_from("Y", false), None);
    assert_eq!(answer_from(" y", false), None);
}

#[test]
fn lines_are_centred() {
    assert_eq!(centre("abcd", 10), "   abcd");
    assert_eq!(centre("abcd", 11), "   abcd");
    assert_eq!(centre("abcd", 4), "abcd");
    assert_eq!(centre("abcd", 2), "abcd");
    assert_eq!(centre("ää", 6), "  ää");
    assert_eq!(centre("", 3), " ");
}

#[test]
fn authors_are_named_in_one_line() {
    assert_eq!(authors_line("Jane Doe <jane@example.com>"), "Author: Jane Doe <jane@example.com>");
    assert_eq!(authors_line("Jane : John"), "Authors: Jane, John");
    assert_eq!(authors_line(" a:b : c "), "Authors: a, b, c");
    assert_eq!(authors_line(""), "Author: ");
}

#[test]
fn banner_is_centred_line_by_line() {
    let picture = vec!["##".to_string(), "####".to_string()];
    assert_eq!(
        banner_lines(&picture, "1.0", "Jane", 40),
        vec![
            "",
            "                   ##",
            "                  ####",
            "",
            "    DZSM v1.0 - DayZ Server Manager",
            "              Author: Jane",
            "",
        ]
    );
    assert_eq!(banner_lines(&vec![], "1", "a:b", 0).len(), 5);
}

#[test]
fn banner_is_centred_in_the_terminal() {
    assert_eq!(terminal_width(Some((120, 40))), 120);
    assert_eq!(terminal_width(None), 80);
    let picture = vec!["##".to_string()];
    let lines = print_banner(&picture, "1.0", "Jane");
    assert_eq!(lines.len(), 6);
    assert_eq!(lines[1].trim_start(), "##");
    assert_eq!(lines[3].trim_start(), "DZSM v1.0 - DayZ Server Manager");
    assert_eq!(lines[4].trim_start(), "Author: Jane");
}
