use mkvm::sources::{check_sources, join_fragments, SourceError};

fn names(list: &[&str]) -> Vec<String> {
    list.iter().map(|s| s.to_string()).collect()
}

#[test]
fn stdin_twice_is_refused() {
    assert_eq!(check_sources(&names(&["-", "-"])), Err(SourceError::DuplicateStdin));
    assert_eq!(check_sources(&names(&["-", "a.yaml", "-"])), Err(SourceError::DuplicateStdin));
}

#[test]
fn stdin_once_is_accepted() {
    assert_eq!(check_sources(&names(&["a.yaml", "-", "b.yaml"])), Ok(()));
    assert_eq!(check_sources(&names(&["a.yaml", "b.yaml"])), Ok(()));
    assert_eq!(check_sources(&names(&[])), Ok(()));
    assert_eq!(check_sources(&names(&["--", "-x"])), Ok(()));
}

#[test]
fn fragments_join_with_leading_newlines() {
    assert_eq!(join_fragments(&names(&["a: 1", "b: 2"])), "\na: 1\nb: 2");
    assert_eq!(join_fragments(&names(&[])), "");
}
