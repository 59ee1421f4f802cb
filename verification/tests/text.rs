use tasknet::text::{code_of, concat_strs, contains, join, same_text, split};

fn strings(v: &[&str]) -> Vec<String> {
    v.iter().map(|s| s.to_string()).collect()
}

#[test]
fn same_text_compares_characters() {
    assert!(same_text("abc", "abc"));
    assert!(!same_text("abc", "abd"));
    assert!(!same_text("abc", "ab"));
    assert!(same_text("", ""));
}

#[test]
fn contains_finds_substrings() {
    assert!(contains("tasknet", "skn"));
    assert!(contains("tasknet", ""));
    assert!(contains("tasknet", "tasknet"));
    assert!(!contains("tasknet", "tasknets"));
    assert!(!contains("tasknet", "Task"));
    assert!(!contains("", "a"));
}

#[test]
fn join_puts_separator_between_parts() {
    assert_eq!(join(&strings(&["a", "b", "c"]), "."), "a.b.c");
    assert_eq!(join(&strings(&["a"]), ", "), "a");
    assert_eq!(join(&[], "."), "");
    assert_eq!(join(&strings(&["", ""]), "-"), "-");
}

#[test]
fn split_cuts_at_every_separator() {
    assert_eq!(split("a.b.c", '.'), strings(&["a", "b", "c"]));
    assert_eq!(split("abc", '.'), strings(&["abc"]));
    assert_eq!(split("", '.'), strings(&[""]));
    assert_eq!(split(".a.", '.'), strings(&["", "a", ""]));
    assert_eq!(split("a.b", '.'), "a.b".split('.').map(str::to_owned).collect::<Vec<_>>());
}

#[test]
fn join_undoes_split() {
    for s in ["a.b.c", "", ".", "x..y"] {
        assert_eq!(join(&split(s, '.'), "."), s);
    }
}

#[test]
fn concat_writes_parts_in_order() {
    assert_eq!(concat_strs(&vec!["ab", "", "c", "de"]), "abcde");
    assert_eq!(concat_strs(&vec![]), "");
}

#[test]
fn code_of_is_the_scalar_value() {
    assert_eq!(code_of('a'), 97);
    assert_eq!(code_of('é'), 233);
}

#[test]
fn split_undoes_join_of_plain_pieces() {
    let parts = strings(&["work", "", "tasknet"]);
    assert_eq!(split(&join(&parts, "."), '.'), parts);
    let one = strings(&[""]);
    assert_eq!(split(&join(&one, "."), '.'), one);
}
