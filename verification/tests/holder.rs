use skyline_config::ConfigError;
use skyline_config::DebugSavedataStorage;
use skyline_config::SdCardStorage;
use skyline_config::StorageHolder;

fn sd_holder() -> StorageHolder<SdCardStorage> {
    StorageHolder::new(SdCardStorage::new("ns".to_string()))
}

fn savedata_holder() -> StorageHolder<DebugSavedataStorage> {
    StorageHolder::new(DebugSavedataStorage::new(1, 2, "demo".to_string()))
}

#[test]
fn field_round_trip() {
    let mut holder = sd_holder();
    holder.set_field("k", "some value").unwrap();
    let back: String = holder.get_field("k").unwrap();
    assert_eq!(back, "some value");
}

#[test]
fn empty_field_round_trip() {
    let mut holder = sd_holder();
    holder.set_field("k", "").unwrap();
    let back: String = holder.get_field("k").unwrap();
    assert_eq!(back, "");
}

#[test]
fn set_field_replaces_previous_content() {
    let mut holder = sd_holder();
    holder.set_field("k", "first").unwrap();
    holder.set_field("k", "second").unwrap();
    let back: String = holder.get_field("k").unwrap();
    assert_eq!(back, "second");
}

#[test]
fn missing_field_is_field_missing_not_io_failure() {
    let holder = sd_holder();
    let outcome: Result<String, ConfigError> = holder.get_field("never-written");
    assert_eq!(outcome, Err(ConfigError::FieldMissing));
    let as_number: Result<u32, ConfigError> = holder.get_field("never-written");
    assert_eq!(as_number, Err(ConfigError::FieldMissing));
}

#[test]
fn unparsable_field_is_from_str_err() {
    let mut holder = sd_holder();
    holder.set_field("k", "abc").unwrap();
    let outcome: Result<u32, ConfigError> = holder.get_field("k");
    assert_eq!(outcome, Err(ConfigError::FromStrErr));
}

#[test]
fn numeric_field_parsing() {
    let mut holder = sd_holder();
    holder.set_field("n", "3").unwrap();
    assert_eq!(holder.get_field::<u32>("n"), Ok(3));
    holder.set_field("n", "4294967295").unwrap();
    assert_eq!(holder.get_field::<u32>("n"), Ok(u32::MAX));
    holder.set_field("n", "4294967296").unwrap();
    assert_eq!(holder.get_field::<u32>("n"), Err(ConfigError::FromStrErr));
    holder.set_field("n", "007").unwrap();
    assert_eq!(holder.get_field::<u32>("n"), Ok(7));
    holder.set_field("n", "").unwrap();
    assert_eq!(holder.get_field::<u32>("n"), Err(ConfigError::FromStrErr));
    holder.set_field("n", "12a").unwrap();
    assert_eq!(holder.get_field::<u32>("n"), Err(ConfigError::FromStrErr));
}

#[test]
fn numeric_field_accepts_one_leading_plus() {
    let mut holder = sd_holder();
    holder.set_field("n", "+7").unwrap();
    assert_eq!(holder.get_field::<u32>("n"), Ok(7));
    holder.set_field("n", "+4294967295").unwrap();
    assert_eq!(holder.get_field::<u32>("n"), Ok(u32::MAX));
    holder.set_field("n", "+").unwrap();
    assert_eq!(holder.get_field::<u32>("n"), Err(ConfigError::FromStrErr));
    holder.set_field("n", "++7").unwrap();
    assert_eq!(holder.get_field::<u32>("n"), Err(ConfigError::FromStrErr));
    holder.set_field("n", "-7").unwrap();
    assert_eq!(holder.get_field::<u32>("n"), Err(ConfigError::FromStrErr));
}

#[test]
fn boolean_field_parsing() {
    let mut holder = sd_holder();
    holder.set_field("b", "true").unwrap();
    assert_eq!(holder.get_field::<bool>("b"), Ok(true));
    holder.set_field("b", "false").unwrap();
    assert_eq!(holder.get_field::<bool>("b"), Ok(false));
    holder.set_field("b", "TRUE").unwrap();
    assert_eq!(holder.get_field::<bool>("b"), Err(ConfigError::FromStrErr));
}

#[test]
fn flag_truth_table() {
    let mut holder = sd_holder();
    holder.set_flag("f", true).unwrap();
    assert!(holder.get_flag("f"));
    holder.set_flag("f", false).unwrap();
    assert!(!holder.get_flag("f"));
    holder.set_flag("f", true).unwrap();
    holder.set_flag("f", true).unwrap();
    assert!(holder.get_flag("f"));
}

#[test]
fn clearing_an_unset_flag_is_an_error() {
    let mut holder = sd_holder();
    assert_eq!(holder.set_flag("g", false), Err(ConfigError::FileError));
}

#[test]
fn setting_a_flag_truncates_an_existing_field() {
    let mut holder = sd_holder();
    holder.set_field("x", "data").unwrap();
    holder.set_flag("x", true).unwrap();
    assert_eq!(holder.get_field::<String>("x"), Ok(String::new()));
}

#[test]
fn remove_field_removes_exactly_that_field() {
    let mut holder = sd_holder();
    holder.set_field("a", "1").unwrap();
    holder.set_field("b", "2").unwrap();
    holder.remove_field("a").unwrap();
    assert_eq!(
        holder.get_field::<String>("a"),
        Err(ConfigError::FieldMissing)
    );
    assert_eq!(holder.get_field::<String>("b"), Ok("2".to_string()));
}

#[test]
fn removing_a_nonexistent_file_is_an_io_failure_and_changes_nothing() {
    let mut holder = sd_holder();
    holder.set_field("kept", "v").unwrap();
    assert_eq!(holder.remove_field("ghost"), Err(ConfigError::FileError));
    let entries = holder.read_dir().unwrap();
    assert_eq!(entries, vec!["kept".to_string()]);
    assert_eq!(holder.get_field::<String>("kept"), Ok("v".to_string()));
}

#[test]
fn rename_moves_content() {
    let mut holder = sd_holder();
    holder.set_field("a", "1").unwrap();
    holder.rename("a", "b").unwrap();
    assert_eq!(holder.get_field::<String>("b"), Ok("1".to_string()));
    assert_eq!(
        holder.get_field::<String>("a"),
        Err(ConfigError::FieldMissing)
    );
    assert_eq!(holder.rename("nope", "x"), Err(ConfigError::FileError));
}

#[test]
fn read_dir_lists_each_entry_once() {
    let mut holder = sd_holder();
    holder.set_field("a", "1").unwrap();
    holder.set_field("b", "2").unwrap();
    holder.set_flag("c", true).unwrap();
    let mut entries = holder.read_dir().unwrap();
    entries.sort();
    assert_eq!(
        entries,
        vec!["a".to_string(), "b".to_string(), "c".to_string()]
    );
}

#[test]
fn clear_keeps_directory_delete_removes_it() {
    let mut holder = sd_holder();
    holder.set_field("a", "1").unwrap();
    holder.set_field("b", "2").unwrap();
    holder.clear_storage();
    let entries = holder.read_dir().unwrap();
    assert_eq!(entries.len(), 0);
    // The directory itself is still there: writing works again.
    holder.set_field("c", "3").unwrap();
    holder.delete_storage();
    assert!(holder.read_dir().is_err());
    assert_eq!(holder.set_field("d", "4"), Err(ConfigError::FileError));
}

#[test]
fn commit_on_every_mutation_for_journaled_storage() {
    let mut holder = savedata_holder();
    assert_eq!(holder.commits_made(), 0);
    holder.set_field("k", "v").unwrap();
    assert_eq!(holder.commits_made(), 1);
    // Read-only calls commit nothing.
    let _ = holder.get_field::<String>("k");
    let _ = holder.get_flag("k");
    let _ = holder.read_dir();
    assert_eq!(holder.commits_made(), 1);
    holder.set_flag("f", true).unwrap();
    assert_eq!(holder.commits_made(), 2);
    holder.set_flag("f", false).unwrap();
    assert_eq!(holder.commits_made(), 3);
    holder.remove_field("k").unwrap();
    assert_eq!(holder.commits_made(), 4);
    holder.clear_storage();
    assert_eq!(holder.commits_made(), 5);
    holder.flush();
    assert_eq!(holder.commits_made(), 6);
    // A failing mutation commits nothing.
    assert_eq!(holder.remove_field("ghost"), Err(ConfigError::FileError));
    assert_eq!(holder.commits_made(), 6);
}

#[test]
fn plain_storage_never_commits() {
    let mut holder = sd_holder();
    holder.set_field("k", "v").unwrap();
    holder.flush();
    assert_eq!(holder.commits_made(), 0);
}

#[test]
fn demo_scenario() {
    let mut holder = savedata_holder();
    holder.set_field("level", "3").unwrap();
    assert_eq!(holder.get_field::<u32>("level"), Ok(3));
    holder.set_flag("unlocked", true).unwrap();
    assert!(holder.get_flag("unlocked"));
    holder.remove_field("level").unwrap();
    assert_eq!(
        holder.get_field::<u32>("level"),
        Err(ConfigError::FieldMissing)
    );
}

#[test]
fn error_descriptions() {
    assert_eq!(
        ConfigError::FileError.describe(),
        "failed to perform an operation on the file"
    );
    assert_eq!(
        ConfigError::FieldMissing.describe(),
        "the requested field could not be found"
    );
    assert_eq!(
        ConfigError::FromStrErr.describe(),
        "failed to call from_str for the desired type"
    );
}

#[test]
fn rendered_number_reads_back() {
    let mut holder = sd_holder();
    let text = skyline_config::paths::u64_dec_string(12345);
    holder.set_field("n", &text).unwrap();
    assert_eq!(holder.get_field::<u32>("n"), Ok(12345));
    assert_eq!(skyline_config::paths::u64_dec_string(0), "0");
}
