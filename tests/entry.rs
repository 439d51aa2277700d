use lff::{
    extension, file_name, handle_entry, path_is_hidden, present, sort_files, LffConfig, LffFile,
    SortMethod, NO_FILES_FOUND_STR,
};

fn base_config() -> LffConfig {
    LffConfig {
        min_size: 0,
        extension: None,
        name_pattern: None,
        exclude_hidden: false,
        limit: None,
        absolute: false,
        pretty: false,
        base_ten: false,
        sort_method: None,
    }
}

fn record(path: &str, size: u64) -> LffFile {
    handle_entry(path.as_bytes(), None, Ok(size), &base_config()).unwrap()
}

fn test_resources_files() -> Vec<LffFile> {
    vec![
        record("test_resources/snow.txt", 544),
        record("test_resources/.hidden", 0),
        record("test_resources/visible/mud.md", 329),
        record("test_resources/LICENCE", 27),
        record("test_resources/.hidden_dir/spider.txt", 1183),
    ]
}

#[test]
fn test_hidden_paths() {
    assert!(!path_is_hidden(b"test_resources/snow.txt"));
    assert!(!path_is_hidden(b"test_resources/visible"));

    assert!(path_is_hidden(b"test_resources/.hidden"));
    assert!(path_is_hidden(b"test_resources/.hidden_dir"));

    let invalid_bytes: Vec<u8> = vec![0, 159, 145, 160];
    assert!(!path_is_hidden(&invalid_bytes));

    assert!(!path_is_hidden(b"test_resources/.."));
}

#[test]
fn hidden_name_that_is_not_text_is_not_hidden() {
    assert!(!path_is_hidden(&[b'.', 0xff, b'a']));
    assert!(path_is_hidden(".h\u{e9}".as_bytes()));
}

#[test]
fn final_segment_rules() {
    assert_eq!(Some(b"b".to_vec()), file_name(b"a/b"));
    assert_eq!(Some(b"b".to_vec()), file_name(b"a/b/"));
    assert_eq!(Some(b"b".to_vec()), file_name(b"a/b/."));
    assert_eq!(Some(b"b".to_vec()), file_name(b"a/b/.//"));
    assert_eq!(None, file_name(b"a/.."));
    assert_eq!(None, file_name(b"/"));
    assert_eq!(None, file_name(b"."));
    assert_eq!(None, file_name(b""));
    assert!(path_is_hidden(b"a/.b/"));
}

#[test]
fn extension_rules() {
    assert_eq!(Some(b"txt".to_vec()), extension(b"dir/snow.txt"));
    assert_eq!(Some(b"gz".to_vec()), extension(b"a.tar.gz"));
    assert_eq!(Some(b"".to_vec()), extension(b"name."));
    assert_eq!(None, extension(b".hidden"));
    assert_eq!(Some(b"md".to_vec()), extension(b".hidden.md"));
    assert_eq!(None, extension(b"x.d/LICENCE"));
    assert_eq!(None, extension(b"dir/.."));
}

#[test]
fn test_handle_entry() {
    let file = handle_entry(b"test_resources/snow.txt", None, Ok(544), &base_config()).unwrap();
    assert_eq!(b"test_resources/snow.txt".to_vec(), file.name);
    assert_eq!(Some(b"txt".to_vec()), file.extension);
    assert_eq!(544, file.size);
    assert_eq!("544", file.formatted_size);
    assert!(!file.hidden);
}

#[test]
fn test_handle_entry_absolute() {
    let config = LffConfig { absolute: true, ..base_config() };
    let absolute = b"/home/user/lff/test_resources/snow.txt".to_vec();
    let file = handle_entry(b"test_resources/snow.txt", Some(Ok(absolute)), Ok(544), &config)
        .unwrap();
    assert!(String::from_utf8(file.name).unwrap().ends_with("lff/test_resources/snow.txt"));
    assert_eq!(Some(b"txt".to_vec()), file.extension);
}

#[test]
fn test_handle_entry_absolute_invalid_path() {
    let config = LffConfig { absolute: true, ..base_config() };
    let lookup = Err(String::from("No such file or directory (os error 2)"));
    let error = handle_entry(
        b"test_resources/snow2.txt",
        Some(lookup),
        Err(String::from("No such file or directory (os error 2)")),
        &config,
    )
    .unwrap_err();
    assert_eq!(
        "Could not generate absolute path for \"test_resources/snow2.txt\"",
        error.message()
    );
}

#[test]
fn test_handle_entry_none_extension() {
    let no_ext_file = handle_entry(b"test_resources/LICENCE", None, Ok(27), &base_config()).unwrap();
    assert_eq!(None, no_ext_file.extension);

    let hidden_file = handle_entry(b"test_resources/.hidden", None, Ok(0), &base_config()).unwrap();
    assert_eq!(None, hidden_file.extension);
}

#[test]
fn test_handle_entry_metadata_invalid_path() {
    let error = handle_entry(
        b"test_resources/snow2.txt",
        None,
        Err(String::from("No such file or directory (os error 2)")),
        &base_config(),
    )
    .unwrap_err();
    assert_eq!(
        "Could not retrieve metadata for \"test_resources/snow2.txt\"",
        error.message()
    );
    assert_eq!(
        "Could not retrieve metadata for \"test_resources/snow2.txt\"\n\n\
        Caused by:\n    No such file or directory (os error 2)",
        error.report()
    );
}

#[test]
fn test_handle_entry_pretty() {
    let config = LffConfig { pretty: true, ..base_config() };
    let file =
        handle_entry(b"test_resources/.hidden_dir/spider.txt", None, Ok(1183), &config).unwrap();
    assert_eq!("1.16 KiB", file.formatted_size);
}

#[test]
fn test_handle_entry_pretty_base_ten() {
    let config = LffConfig { pretty: true, base_ten: true, ..base_config() };
    let file =
        handle_entry(b"test_resources/.hidden_dir/spider.txt", None, Ok(1183), &config).unwrap();
    assert_eq!("1.18 KB", file.formatted_size);
}

#[test]
fn test_handle_entry_pretty_under_kilo() {
    let config = LffConfig { pretty: true, ..base_config() };
    let file = handle_entry(b"test_resources/snow.txt", None, Ok(544), &config).unwrap();
    assert_eq!("544 B", file.formatted_size);
}

#[test]
fn test_handle_entry_hidden() {
    let file = handle_entry(b"test_resources/.hidden", None, Ok(0), &base_config()).unwrap();
    assert!(file.hidden);
}

#[test]
fn largest_size_shown_in_digits() {
    let file = handle_entry(b"big", None, Ok(u64::MAX), &base_config()).unwrap();
    assert_eq!("18446744073709551615", file.formatted_size);
}

#[test]
fn test_run_finder() {
    let config = LffConfig { sort_method: Some(SortMethod::Size), ..base_config() };
    let lines = present(test_resources_files(), &config);
    assert_eq!(5, lines.len());
    assert_eq!("1183  \"test_resources/.hidden_dir/spider.txt\"", lines[0]);
    assert_eq!("544   \"test_resources/snow.txt\"", lines[1]);
    assert_eq!("329   \"test_resources/visible/mud.md\"", lines[2]);
    assert_eq!("27    \"test_resources/LICENCE\"", lines[3]);
    assert_eq!("0     \"test_resources/.hidden\"", lines[4]);
}

#[test]
fn test_run_finder_sort_by_name() {
    let config = LffConfig { sort_method: Some(SortMethod::Name), ..base_config() };
    let lines = present(test_resources_files(), &config);
    assert_eq!(5, lines.len());
    assert_eq!("0     \"test_resources/.hidden\"", lines[0]);
    assert_eq!("1183  \"test_resources/.hidden_dir/spider.txt\"", lines[1]);
    assert_eq!("27    \"test_resources/LICENCE\"", lines[2]);
    assert_eq!("544   \"test_resources/snow.txt\"", lines[3]);
    assert_eq!("329   \"test_resources/visible/mud.md\"", lines[4]);
}

#[test]
fn test_run_finder_limit() {
    let config =
        LffConfig { sort_method: Some(SortMethod::Size), limit: Some(3), ..base_config() };
    let lines = present(test_resources_files(), &config);
    assert_eq!(3, lines.len());
    assert_eq!("1183  \"test_resources/.hidden_dir/spider.txt\"", lines[0]);
    assert_eq!("544   \"test_resources/snow.txt\"", lines[1]);
    assert_eq!("329   \"test_resources/visible/mud.md\"", lines[2]);
}

#[test]
fn test_run_finder_no_files() {
    let config = LffConfig { min_size: 100 * 1024 * 1024, ..base_config() };
    let lines = present(Vec::new(), &config);
    assert_eq!(NO_FILES_FOUND_STR, lines[0]);
    assert_eq!(1, lines.len());
}

#[test]
fn limit_without_order_keeps_first_files() {
    let config = LffConfig { limit: Some(2), ..base_config() };
    let lines = present(test_resources_files(), &config);
    // The size column is as wide as the widest size found, shown or not.
    assert_eq!(vec!["544   \"test_resources/snow.txt\"", "0     \"test_resources/.hidden\""], lines);
}

#[test]
fn limit_zero_shows_message() {
    let config = LffConfig { limit: Some(0), ..base_config() };
    let lines = present(test_resources_files(), &config);
    assert_eq!(vec![NO_FILES_FOUND_STR], lines);
}

#[test]
fn sort_by_size_is_non_increasing_and_keeps_every_file() {
    let files = vec![record("a", 5), record("b", 9), record("c", 5), record("d", 0), record("e", 9)];
    let sorted = sort_files(files, SortMethod::Size);
    let sizes: Vec<u64> = sorted.iter().map(|f| f.size).collect();
    assert_eq!(vec![9, 9, 5, 5, 0], sizes);
}

#[test]
fn sort_by_name_is_bytewise() {
    let files = vec![record("b", 1), record("B", 1), record("ab", 1), record("a", 1), record("_", 1)];
    let sorted = sort_files(files, SortMethod::Name);
    let names: Vec<Vec<u8>> = sorted.into_iter().map(|f| f.name).collect();
    assert_eq!(
        vec![b"B".to_vec(), b"_".to_vec(), b"a".to_vec(), b"ab".to_vec(), b"b".to_vec()],
        names
    );
}

#[test]
fn pretty_sizes_pad_by_widest() {
    let config = LffConfig { pretty: true, sort_method: Some(SortMethod::Size), ..base_config() };
    let files = vec![
        handle_entry(b"x", None, Ok(544), &config).unwrap(),
        handle_entry(b"y", None, Ok(1183), &config).unwrap(),
    ];
    let lines = present(files, &config);
    assert_eq!(vec!["1.16 KiB  \"y\"", "544 B     \"x\""], lines);
}

#[test]
fn quoted_names_are_escaped() {
    let lines = present(vec![record("say \"hi\"", 1)], &base_config());
    assert_eq!(vec!["1  \"say \\\"hi\\\"\""], lines);
}
