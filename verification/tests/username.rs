use std::path::Path;
use username::path::file_name_of;
use username::resolver::username_of;
use username::rs_username;
use username::utf8::check_utf8;

fn bytes(s: &str) -> Vec<u8> {
    s.as_bytes().to_vec()
}

#[test]
fn resolves_alice_with_room_to_spare() {
    let home = bytes("/home/alice");
    let mut buf = vec![0u8; 8];
    let r = rs_username(Some(&home), &mut buf);
    assert_eq!(r, 5);
    assert_eq!(&buf[..5], b"alice");
    assert_eq!(&buf[5..], &[0u8, 0, 0][..]);
}

#[test]
fn resolves_alice_with_exact_capacity() {
    let home = bytes("/home/alice");
    let mut buf = vec![0u8; 5];
    let r = rs_username(Some(&home), &mut buf);
    assert_eq!(r, 5);
    assert_eq!(&buf[..], b"alice");
}

#[test]
fn truncates_to_capacity() {
    let home = bytes("/home/alice");
    let mut buf = vec![0u8; 3];
    let r = rs_username(Some(&home), &mut buf);
    assert_eq!(r, 3);
    assert_eq!(&buf[..], b"ali");
}

#[test]
fn truncates_at_every_capacity_up_to_name_length() {
    let home = bytes("/home/alice");
    let name = b"alice";
    for capacity in 0..=name.len() {
        let mut buf = vec![0xAAu8; capacity];
        let r = rs_username(Some(&home), &mut buf);
        assert_eq!(r, capacity as i32);
        assert_eq!(&buf[..], &name[..capacity]);
    }
}

#[test]
fn zero_capacity_returns_zero() {
    let home = bytes("/home/alice");
    let mut buf: Vec<u8> = Vec::new();
    let r = rs_username(Some(&home), &mut buf);
    assert_eq!(r, 0);
    assert!(buf.is_empty());
}

#[test]
fn missing_home_leaves_sentinel_untouched() {
    let mut buf = vec![0xA5u8; 6];
    let r = rs_username(None, &mut buf);
    assert_eq!(r, -1);
    assert_eq!(buf, vec![0xA5u8; 6]);
}

#[test]
fn rootless_paths_fail_and_leave_buffer() {
    for home in ["", "/", "//", ".", "./", "/..", "/home/..", "/home/alice/.."] {
        let home = bytes(home);
        let mut buf = vec![0x5Au8; 4];
        let r = rs_username(Some(&home), &mut buf);
        assert_eq!(r, -1, "path {:?}", String::from_utf8_lossy(&home));
        assert_eq!(buf, vec![0x5Au8; 4]);
    }
}

#[test]
fn non_text_name_fails_and_leaves_buffer() {
    let mut home = bytes("/home/");
    home.push(0xFF);
    home.push(0xFE);
    let mut buf = vec![0x33u8; 4];
    let r = rs_username(Some(&home), &mut buf);
    assert_eq!(r, -1);
    assert_eq!(buf, vec![0x33u8; 4]);
}

#[test]
fn only_the_final_component_must_be_text() {
    let mut home = bytes("/h");
    home.push(0xFF);
    home.extend_from_slice(b"ome/alice");
    let mut buf = vec![0u8; 6];
    let r = rs_username(Some(&home), &mut buf);
    assert_eq!(r, 5);
    assert_eq!(&buf[..5], b"alice");
}

#[test]
fn multibyte_name_is_copied_raw() {
    let home = bytes("/home/héllo");
    let mut buf = vec![0u8; 8];
    let r = rs_username(Some(&home), &mut buf);
    assert_eq!(r, 6);
    assert_eq!(&buf[..6], "héllo".as_bytes());
    assert_eq!(&buf[6..], &[0u8, 0][..]);
}

#[test]
fn repeated_calls_are_identical() {
    let home = bytes("/home/alice");
    let mut buf1 = vec![0u8; 4];
    let mut buf2 = vec![0u8; 4];
    let r1 = rs_username(Some(&home), &mut buf1);
    let r2 = rs_username(Some(&home), &mut buf2);
    assert_eq!(r1, r2);
    assert_eq!(buf1, buf2);
    let r3 = rs_username(Some(&home), &mut buf1);
    assert_eq!(r3, r1);
    assert_eq!(buf1, buf2);
}

#[test]
fn file_name_ignores_trailing_separators_and_dots() {
    assert_eq!(file_name_of(&bytes("/home/alice/")), Some(bytes("alice")));
    assert_eq!(file_name_of(&bytes("/home/alice//")), Some(bytes("alice")));
    assert_eq!(file_name_of(&bytes("/home/alice/.")), Some(bytes("alice")));
    assert_eq!(file_name_of(&bytes("/home/alice/./")), Some(bytes("alice")));
    assert_eq!(file_name_of(&bytes("alice")), Some(bytes("alice")));
    assert_eq!(file_name_of(&bytes("./alice")), Some(bytes("alice")));
}

#[test]
fn file_name_keeps_dotted_names() {
    assert_eq!(file_name_of(&bytes("/home/.hidden")), Some(bytes(".hidden")));
    assert_eq!(file_name_of(&bytes("/home/a.b")), Some(bytes("a.b")));
    assert_eq!(file_name_of(&bytes("/home/...")), Some(bytes("...")));
    assert_eq!(file_name_of(&bytes("/home/..a")), Some(bytes("..a")));
}

#[test]
fn file_name_rejects_parent_and_bare_paths() {
    assert_eq!(file_name_of(&bytes("")), None);
    assert_eq!(file_name_of(&bytes("/")), None);
    assert_eq!(file_name_of(&bytes(".")), None);
    assert_eq!(file_name_of(&bytes("..")), None);
    assert_eq!(file_name_of(&bytes("/home/..")), None);
    assert_eq!(file_name_of(&bytes("/home/../")), None);
    assert_eq!(file_name_of(&bytes("a/../.")), None);
}

#[test]
fn resolves_the_name_itself() {
    assert_eq!(username_of(Some(&bytes("/home/alice"))), Some(bytes("alice")));
    assert_eq!(username_of(Some(&bytes("/home/alice/"))), Some(bytes("alice")));
    assert_eq!(username_of(Some(&bytes("/home/.."))), None);
    assert_eq!(username_of(Some(&vec![47u8, 0x80, 0x80])), None);
    assert_eq!(username_of(None), None);
}

#[test]
fn file_name_matches_std_path_on_samples() {
    for p in [
        "", "/", "//", ".", "..", "./", "../", "a", "a/", "a/b", "a/b/", "a/./b", "a/b/..",
        "a/b/.", "/home/alice", "/home/alice/", ".hidden", "...", "..a", "a..", "a/../b",
    ] {
        let expected = Path::new(p).file_name().map(|n| n.to_str().unwrap().as_bytes().to_vec());
        assert_eq!(file_name_of(&p.as_bytes().to_vec()), expected, "path {:?}", p);
    }
}

#[test]
fn utf8_accepts_well_formed_sequences() {
    assert!(check_utf8(&Vec::new()));
    assert!(check_utf8(&bytes("alice")));
    assert!(check_utf8(&bytes("héllo")));
    assert!(check_utf8(&bytes("日本語")));
    assert!(check_utf8(&bytes("🦀")));
    assert!(check_utf8(&vec![0xF4, 0x8F, 0xBF, 0xBF]));
    assert!(check_utf8(&vec![0xED, 0x9F, 0xBF]));
    assert!(check_utf8(&vec![0xE0, 0xA0, 0x80]));
}

#[test]
fn utf8_rejects_ill_formed_sequences() {
    assert!(!check_utf8(&vec![0x80]));
    assert!(!check_utf8(&vec![0xC0, 0xAF]));
    assert!(!check_utf8(&vec![0xC1, 0xBF]));
    assert!(!check_utf8(&vec![0xC2]));
    assert!(!check_utf8(&vec![0xC2, 0x41]));
    assert!(!check_utf8(&vec![0xE0, 0x80, 0x80]));
    assert!(!check_utf8(&vec![0xED, 0xA0, 0x80]));
    assert!(!check_utf8(&vec![0xF0, 0x80, 0x80, 0x80]));
    assert!(!check_utf8(&vec![0xF4, 0x90, 0x80, 0x80]));
    assert!(!check_utf8(&vec![0xF5, 0x80, 0x80, 0x80]));
    assert!(!check_utf8(&vec![0xFF]));
    assert!(!check_utf8(&vec![0xE2, 0x82]));
}

#[test]
fn utf8_matches_std_on_samples() {
    let samples: Vec<Vec<u8>> = vec![
        Vec::new(),
        bytes("alice"),
        bytes("héllo"),
        vec![0x80],
        vec![0xC2, 0xA9],
        vec![0xC0, 0x80],
        vec![0xED, 0xA0, 0x80],
        vec![0xED, 0x9F, 0xBF],
        vec![0xF0, 0x90, 0x80, 0x80],
        vec![0xF0, 0x8F, 0x80, 0x80],
        vec![0xF4, 0x8F, 0xBF, 0xBF],
        vec![0xF4, 0x90, 0x80, 0x80],
        vec![0x61, 0xC2],
    ];
    for s in samples {
        assert_eq!(check_utf8(&s), std::str::from_utf8(&s).is_ok(), "bytes {:?}", s);
    }
}
