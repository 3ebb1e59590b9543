use xcsteps::description::{find_back, stands_at, Description};
use xcsteps::error::Error;

fn chars(s: &str) -> Vec<char> {
    s.chars().collect()
}

#[test]
fn description_is_read_verbatim() {
    let d = Description::from_line("Ld /x normal (in target 'My Target' from project 'My-Project')")
        .unwrap();
    assert_eq!(d.target, "My Target");
    assert_eq!(d.project, "My-Project");
    assert_eq!(d.to_string(), "[My-Project.My Target]");
}

#[test]
fn description_with_text_behind_it() {
    let d = Description::from_line("(in target 'T' from project 'P') and more").unwrap();
    assert_eq!(d.target, "T");
    assert_eq!(d.project, "P");
}

#[test]
fn description_with_other_brackets_in_front() {
    let d = Description::from_line("Ld /a(b)/c (in target 'Tä' from project 'Pö')").unwrap();
    assert_eq!(d.target, "Tä");
    assert_eq!(d.project, "Pö");
}

#[test]
fn description_missing_or_incomplete() {
    let lines = [
        "",
        "Ld /x normal",
        "Ld /x (in target 'T')",
        "Ld /x (in target 'T' from project 'P'",
        "Ld /x (in target 'T' from project 'P)",
        "Ld /x (in target '' from project 'P')",
        "Ld /x (in target 'T' from project '')",
        "Ld /x in target 'T' from project 'P')",
    ];
    for line in lines {
        assert_eq!(
            Description::from_line(line).unwrap_err(),
            Error::MalformedDescription,
            "{line}"
        );
    }
}

#[test]
fn find_back_gives_the_last_occurrence() {
    let hay = chars("abcabcab");
    assert_eq!(find_back(&hay, &chars("abc"), 8), Some(3));
    assert_eq!(find_back(&hay, &chars("abc"), 6), Some(3));
    assert_eq!(find_back(&hay, &chars("abc"), 5), Some(0));
    assert_eq!(find_back(&hay, &chars("abc"), 3), Some(0));
    assert_eq!(find_back(&hay, &chars("abc"), 2), None);
    assert_eq!(find_back(&hay, &chars("ab"), 8), Some(6));
    assert_eq!(find_back(&hay, &chars("ab"), 7), Some(3));
    assert_eq!(find_back(&hay, &chars("abcabcabc"), 8), None);
    assert_eq!(find_back(&hay, &chars(""), 8), Some(8));
    assert_eq!(find_back(&hay, &chars(""), 0), Some(0));
    assert_eq!(find_back(&hay, &chars("x"), 8), None);
    assert_eq!(find_back(&hay, &chars("ab"), 9), None);
}

#[test]
fn the_last_annotation_of_a_line_is_read() {
    let d = Description::from_line(
        "a b c (in target 'A' from project 'B') (in target 'T' from project 'P')",
    )
    .unwrap();
    assert_eq!(d.target, "T");
    assert_eq!(d.project, "P");
    let d = Description::from_line(
        "Ld /x/(in target 'A' from project 'B')/y normal (in target 'T' from project 'P')",
    )
    .unwrap();
    assert_eq!(d.target, "T");
    assert_eq!(d.project, "P");
}

#[test]
fn a_last_annotation_without_a_name_is_malformed() {
    let r = Description::from_line("(in target 'A' from project 'B') (in target '' from project 'P')");
    assert_eq!(r.unwrap_err(), Error::MalformedDescription);
    let r = Description::from_line("(in target 'A' from project 'B') (in target 'T' from project '')");
    assert_eq!(r.unwrap_err(), Error::MalformedDescription);
}

#[test]
fn stands_at_compares_in_place() {
    let hay = chars("hello");
    assert!(stands_at(&hay, &chars("ell"), 1));
    assert!(!stands_at(&hay, &chars("ell"), 0));
    assert!(!stands_at(&hay, &chars("lo!"), 3));
    assert!(stands_at(&hay, &chars("lo"), 3));
    assert!(!stands_at(&hay, &chars("lo"), usize::MAX));
}
