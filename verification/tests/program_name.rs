use process::get_program_name_safely;
use process::program_name::strip_program_path;

#[test]
fn absent_name_yields_sentinel() {
    let r = get_program_name_safely(None);
    assert_eq!(r, "(unknown)".to_string());
}

#[test]
fn path_qualified_name_is_stripped() {
    let r = get_program_name_safely(Some(b"/usr/bin/tool".to_vec()));
    assert_eq!(r, "tool".to_string());
}

#[test]
fn bare_name_is_kept() {
    let r = get_program_name_safely(Some(b"tool".to_vec()));
    assert_eq!(r, "tool".to_string());
}

#[test]
fn trailing_separator_yields_empty() {
    let r = get_program_name_safely(Some(b"/usr/bin/".to_vec()));
    assert_eq!(r, "".to_string());
}

#[test]
fn invalid_program_bytes_still_yield_text() {
    let r = get_program_name_safely(Some(vec![0xFFu8, 0xFEu8]));
    assert_eq!(r, "\u{FFFD}\u{FFFD}".to_string());
}

#[test]
fn strip_keeps_text_without_separator() {
    assert_eq!(strip_program_path("daemon"), "daemon".to_string());
}

#[test]
fn strip_takes_final_component() {
    assert_eq!(strip_program_path("bin/deeply/nested/app"), "app".to_string());
}
