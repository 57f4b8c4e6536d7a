use whisper::controllers::user_controller::avatar_filename;
use whisper::controllers::user_controller::avatar_type;
use whisper::controllers::user_controller::avatar_upload;
use whisper::controllers::user_controller::AvatarType;

#[test]
fn avatar_type_by_last_extension() {
    assert_eq!(avatar_type("me.png"), AvatarType::Png);
    assert_eq!(avatar_type("me.jpg"), AvatarType::Jpeg);
    assert_eq!(avatar_type("me.jpeg"), AvatarType::Plain);
    assert_eq!(avatar_type("archive.png.zip"), AvatarType::Plain);
    assert_eq!(avatar_type("png"), AvatarType::Png);
    assert_eq!(avatar_type("me."), AvatarType::Plain);
    assert_eq!(avatar_type(""), AvatarType::Plain);
}

#[test]
fn avatar_key_and_content_type() {
    let u = avatar_upload(42, "me.jpg");
    assert_eq!(u.file_key, "user-42-avatar.jpeg");
    assert_eq!(u.content_type, "jpeg");
    let u = avatar_upload(-7, "x.png");
    assert_eq!(u.file_key, "user--7-avatar.png");
    let u = avatar_upload(0, "notes.txt");
    assert_eq!(u.file_key, "user-0-avatar.plain");
    assert_eq!(u.content_type, "plain");
    let u = avatar_upload(i32::MIN, "a.png");
    assert_eq!(u.file_key, "user--2147483648-avatar.png");
    let u = avatar_upload(1234567890, "a.png");
    assert_eq!(u.file_key, "user-1234567890-avatar.png");
}

#[test]
fn avatar_names_are_sanitized_or_random() {
    assert_eq!(avatar_filename(Some("a/b:c.png")), "abc.png");
    let random = avatar_filename(None);
    assert_eq!(random.len(), 36);
    assert_eq!(avatar_type(&random), AvatarType::Plain);
}

#[test]
fn named_avatar_of_user_7_is_stored_by_its_extension() {
    let name = avatar_filename(Some("me.jpg"));
    assert_eq!(name, "me.jpg");
    let u = avatar_upload(7, &name);
    assert_eq!(u.file_key, "user-7-avatar.jpeg");
    assert_eq!(u.content_type, "jpeg");
    let u = avatar_upload(7, &avatar_filename(Some("me.png")));
    assert_eq!(u.file_key, "user-7-avatar.png");
    assert_eq!(u.content_type, "png");
    for other in ["me.jpeg", "me.PNG", "me.gif"] {
        let u = avatar_upload(7, &avatar_filename(Some(other)));
        assert_eq!(u.file_key, "user-7-avatar.plain");
        assert_eq!(u.content_type, "plain");
    }
}

#[test]
fn sanitized_names_drop_dots_only_names_and_long_tails() {
    assert_eq!(avatar_filename(Some("..")), "");
    assert_eq!(avatar_filename(Some("a\u{7}b")), "ab");
    let long = "x".repeat(300);
    assert_eq!(avatar_filename(Some(&long)).len(), 255);
}

#[test]
fn unnamed_avatar_gets_a_hyphenated_v4_uuid() {
    let name = avatar_filename(None);
    let chars: Vec<char> = name.chars().collect();
    assert_eq!(chars.len(), 36);
    for (i, c) in chars.iter().enumerate() {
        if i == 8 || i == 13 || i == 18 || i == 23 {
            assert_eq!(*c, '-');
        } else {
            assert!(c.is_ascii_digit() || ('a'..='f').contains(c));
        }
    }
    assert_eq!(chars[14], '4');
    assert!(['8', '9', 'a', 'b'].contains(&chars[19]));
}

#[test]
fn long_names_are_cut_to_the_longest_start_within_255_bytes() {
    let wide = "\u{e9}".repeat(200);
    let cut = avatar_filename(Some(&wide));
    assert_eq!(cut.len(), 254);
    assert_eq!(cut.chars().count(), 127);
    assert!(wide.starts_with(&cut));
    let exact = "y".repeat(255);
    assert_eq!(avatar_filename(Some(&exact)), exact);
    assert_eq!(avatar_filename(Some("./.")), "");
}
