use dragit_wasm::file::{FileError, FileToSend, Payload, TransferType};
use dragit_wasm::path::file_name;

#[test]
fn test_extract_name_text() {
    let text = "here is the text I'm sending";
    let result = FileToSend::extract_name_text(text);

    assert_eq!(result, "here  (...)");
}

#[test]
fn short_text_is_named_text() {
    assert_eq!(FileToSend::extract_name_text("abcd"), "text");
    assert_eq!(FileToSend::extract_name_text(""), "text");
}

#[test]
fn five_byte_text_is_named_after_itself() {
    assert_eq!(FileToSend::extract_name_text("abcde"), "abcde (...)");
}

#[test]
fn line_feeds_are_removed_from_text_name() {
    assert_eq!(FileToSend::extract_name_text("a\nb\ncdef"), "abc (...)");
    assert_eq!(FileToSend::extract_name_text("\n\n\n\n\nxyz"), " (...)");
}

#[test]
fn text_name_cut_inside_a_character_is_text() {
    // 'é' takes bytes 4 and 5, so byte 5 is not a character boundary.
    assert_eq!(FileToSend::extract_name_text("abcdéfg"), "text");
}

#[test]
fn text_name_keeps_whole_multibyte_characters() {
    // 'é' takes bytes 3 and 4, so the first five bytes are "abcé".
    assert_eq!(FileToSend::extract_name_text("abcéfg"), "abcé (...)");
}

#[test]
fn file_name_of_plain_paths() {
    assert_eq!(file_name("/home/user/notes.txt"), Some("notes.txt".to_string()));
    assert_eq!(file_name("notes.txt"), Some("notes.txt".to_string()));
    assert_eq!(file_name("/tmp/dir/"), Some("dir".to_string()));
    assert_eq!(file_name("a//b"), Some("b".to_string()));
}

#[test]
fn file_name_skips_current_directory() {
    assert_eq!(file_name("/tmp/dir/."), Some("dir".to_string()));
    assert_eq!(file_name("./x"), Some("x".to_string()));
}

#[test]
fn file_name_absent() {
    assert_eq!(file_name("/"), None);
    assert_eq!(file_name(""), None);
    assert_eq!(file_name("."), None);
    assert_eq!(file_name("/tmp/.."), None);
    assert_eq!(file_name("a/../"), None);
}

#[test]
fn extract_name_path_takes_last_component() {
    assert_eq!(
        FileToSend::extract_name_path("/srv/share/photo.png"),
        Some("photo.png".to_string())
    );
    assert_eq!(FileToSend::extract_name_path("/"), None);
}

#[test]
fn new_file_from_resolved_path() {
    let peer = "QmPeer".to_string();
    let f = FileToSend::new(
        &peer,
        Payload::Path("./photo.png".to_string()),
        Some("/home/me/photo.png"),
    )
    .unwrap();
    assert_eq!(f.peer, "QmPeer");
    assert_eq!(f.name, "photo.png");
    assert_eq!(f.transfer_type, TransferType::File);
    assert!(matches!(f.payload, Payload::Path(ref p) if p == "./photo.png"));
}

#[test]
fn new_file_errors() {
    let peer = "QmPeer".to_string();
    let r = FileToSend::new(&peer, Payload::Path("/".to_string()), Some("/"));
    assert!(matches!(r, Err(FileError::NoFileName)));
    let r = FileToSend::new(&peer, Payload::Path("x".to_string()), None);
    assert!(matches!(r, Err(FileError::PathNotResolved)));
}

#[test]
fn new_file_from_text() {
    let peer = "QmPeer".to_string();
    let f = FileToSend::new(&peer, Payload::Text("hello world".to_string()), None).unwrap();
    assert_eq!(f.name, "hello (...)");
    assert_eq!(f.transfer_type, TransferType::Text);
    assert!(matches!(f.payload, Payload::Text(ref t) if t == "hello world"));
}

#[test]
fn payload_new_by_transfer_type() {
    let p = Payload::new(TransferType::File, "a.txt".to_string(), String::new());
    assert!(matches!(p, Payload::Path(ref s) if s == "a.txt"));
    let p = Payload::new(TransferType::Text, "a.txt".to_string(), "contents".to_string());
    assert!(matches!(p, Payload::Text(ref s) if s == "contents"));
}

#[test]
fn payload_text_forms() {
    assert_eq!(Payload::Path("/a/b".to_string()).to_string(), "PathPayload(/a/b)");
    assert_eq!(Payload::Text("hello".to_string()).to_string(), "TextPayload(5)");
    assert_eq!(Payload::Text(String::new()).to_string(), "TextPayload(0)");
    assert_eq!(Payload::Text("héllo".to_string()).to_string(), "TextPayload(6)");
    assert_eq!(Payload::Text("x".repeat(1234)).to_string(), "TextPayload(1234)");
}

#[test]
fn file_to_send_text_form() {
    let peer = "QmPeer".to_string();
    let f = FileToSend::new(&peer, Payload::Text("hello world".to_string()), None).unwrap();
    assert_eq!(f.to_string(), "FileToSend name: hello (...), type: Text");
    assert_eq!(TransferType::File.to_string(), "File");
}

#[test]
fn text_name_never_has_line_feed() {
    for t in ["\n", "ab\ncdefg", "\n\n\n\n\n", "abcde\nf", "ab\n"] {
        assert!(!FileToSend::extract_name_text(t).contains('\n'));
    }
}

#[test]
fn file_name_of_joined_path_is_component() {
    for dir in ["", "/", "/a/b", "x/./y", "/a/.."] {
        let path = format!("{}/{}", dir, "name.txt");
        assert_eq!(file_name(&path), Some("name.txt".to_string()));
    }
}
