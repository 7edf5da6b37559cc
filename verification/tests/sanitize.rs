use redbook::tagging::{sanitise, sanitise_for, FilenameChar, FilenameRules, FilenameSanitize};

#[test]
fn test_user_specified_cases() {
    assert_eq!(
        "Rocket Man: The Definitive Hits".sanitize_filename(),
        "Rocket Man The Definitive Hits"
    );
    assert_eq!("file?name*.txt".sanitize_filename(), "filename.txt");
    assert_eq!("a<b>c".sanitize_filename(), "abc");
    assert_eq!("path/to\\file".sanitize_filename(), "pathtofile");
    assert_eq!("a|b".sanitize_filename(), "ab");
    assert_eq!("\"quoted\"".sanitize_filename(), "quoted");
}

#[test]
fn test_non_ascii_removed() {
    assert_eq!("café".sanitize_filename(), "caf");
    assert_eq!("日本語".sanitize_filename(), "");
    assert_eq!("mixed文本".sanitize_filename(), "mixed");
}

#[test]
fn test_control_characters_removed() {
    assert_eq!("\x00\x01\x1f".sanitize_filename(), "");
    assert_eq!("a\x07b".sanitize_filename(), "ab");
    assert_eq!("test\x7f.txt".sanitize_filename(), "test.txt");
}

#[test]
fn test_empty_string() {
    assert_eq!("".sanitize_filename(), "");
}

#[test]
fn test_all_valid() {
    assert_eq!(
        "valid_filename.txt".sanitize_filename(),
        "valid_filename.txt"
    );
}

#[test]
fn test_all_invalid() {
    assert_eq!("<>:\"/\\|?*".sanitize_filename(), "");
}

#[test]
fn test_spaces_and_dots_preserved() {
    assert_eq!("file name.txt".sanitize_filename(), "file name.txt");
    assert_eq!(".hidden".sanitize_filename(), ".hidden");
}

#[test]
fn test_char_trait() {
    assert!('a'.is_valid_filename_char());
    assert!(' '.is_valid_filename_char());
    assert!('.'.is_valid_filename_char());
    assert!(!'<'.is_valid_filename_char());
    assert!(!'>'.is_valid_filename_char());
    assert!(!':'.is_valid_filename_char());
    assert!('\''.is_valid_filename_char());
    assert!(!'"'.is_valid_filename_char());
    assert!(!'/'.is_valid_filename_char());
    assert!(!'\\'.is_valid_filename_char());
    assert!(!'|'.is_valid_filename_char());
    assert!(!'?'.is_valid_filename_char());
    assert!(!'*'.is_valid_filename_char());
    assert!(!'\x00'.is_valid_filename_char());
    assert!(!'\x1f'.is_valid_filename_char());
    assert!(!'é'.is_valid_filename_char());
}

#[test]
fn sanitise_paths() {
    assert_eq!(sanitise("file?name*.txt"), "filename.txt");
    assert_eq!(sanitise(" -v | nasty > /dev/null"), "v  nasty  devnull");
}

#[test]
fn sanitise_keeps_non_ascii_and_inner_dashes() {
    assert_eq!(sanitise("--  Café - Noël"), "Café - Noël");
    assert_eq!(sanitise("$HOME`!'\"x"), "HOMEx");
    assert_eq!(sanitise("\u{2003}\t-x"), "x");
}

#[test]
fn sanitise_under_windows_rules() {
    assert_eq!(sanitise_for(FilenameRules::Windows, "file?name*.txt"), "filename.txt");
    assert_eq!(sanitise_for(FilenameRules::Windows, " -v | nasty > /dev/null"), "v  nasty  devnull");
    assert_eq!(sanitise_for(FilenameRules::Windows, "Rocket Man: Hits "), "Rocket Man Hits");
    assert_eq!(sanitise_for(FilenameRules::Windows, "Café $5!"), "Caf $5!");
    assert_eq!(sanitise_for(FilenameRules::Posix, "Café $5!"), "Café 5");
}
