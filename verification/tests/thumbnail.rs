use busytube::{prepare, IoError, Preparation, Target};

#[test]
fn a_missing_directory_is_created() {
    assert_eq!(prepare(Target::Missing), Ok(Preparation::Create));
}

#[test]
fn an_existing_directory_is_used_as_it_is() {
    assert_eq!(prepare(Target::Directory), Ok(Preparation::Nothing));
}

#[test]
fn a_regular_file_in_the_way_is_not_a_directory() {
    assert_eq!(prepare(Target::Occupied), Err(IoError::NotADirectory));
}

#[test]
fn the_three_failures_of_a_save_are_told_apart() {
    assert_ne!(IoError::NotADirectory, IoError::Network);
    assert_ne!(IoError::Network, IoError::Write);
    assert_ne!(IoError::Write, IoError::NotADirectory);
}
