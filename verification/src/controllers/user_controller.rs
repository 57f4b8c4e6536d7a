use vstd::prelude::*;
use vstd::string::StrSliceExecFns;

verus! {

/// The storage bucket that holds avatars.
pub const AVATAR_BUCKET: &'static str = "messenger";

/// How long, in seconds, the link handed out for an uploaded avatar stays valid.
pub const AVATAR_LINK_EXPIRES_SECS: u64 = 150;

/// The media types an avatar is stored under.
#[derive(Debug, Clone, Copy, PartialEq, Eq, Structural)]
pub enum AvatarType {
    /// `image/png`
    Png,
    /// `image/jpeg`
    Jpeg,
    /// `text/plain`, for any other file
    Plain,
}

/// The part of a file name after its last `.`; the whole name where it has
/// no `.`.
pub open spec fn extension_of(name: Seq<char>) -> Seq<char>
    decreases name.len(),
{
    if name.len() == 0 {
        name
    } else if name.last() == '.' {
        Seq::<char>::empty()
    } else {
        extension_of(name.drop_last()).push(name.last())
    }
}

/// The media type of an avatar by the extension of its file name: `png` and
/// `jpg` are images, anything else is plain text.
pub open spec fn avatar_type_of(extension: Seq<char>) -> AvatarType {
    if extension == seq!['p', 'n', 'g'] {
        AvatarType::Png
    } else if extension == seq!['j', 'p', 'g'] {
        AvatarType::Jpeg
    } else {
        AvatarType::Plain
    }
}

/// The subtype of each media type (the part after `/`), as the `mime` crate
/// names it for `IMAGE_PNG`, `IMAGE_JPEG` and `TEXT_PLAIN`.
pub open spec fn subtype_of(t: AvatarType) -> Seq<char> {
    match t {
        AvatarType::Png => seq!['p', 'n', 'g'],
        AvatarType::Jpeg => seq!['j', 'p', 'e', 'g'],
        AvatarType::Plain => seq!['p', 'l', 'a', 'i', 'n'],
    }
}

/// Only the extensions `png` and `jpg`, written exactly so, make an image:
/// `png` a PNG and `jpg` a JPEG; every other extension (`jpeg`, `PNG`,
/// `gif`, none) is plain text. The subtypes are `png`, `jpeg` and `plain`.
pub proof fn lemma_avatar_types(extension: Seq<char>)
    ensures
        avatar_type_of(extension) == AvatarType::Png <==> extension == seq!['p', 'n', 'g'],
        avatar_type_of(extension) == AvatarType::Jpeg <==> extension == seq!['j', 'p', 'g'],
        avatar_type_of(extension) == AvatarType::Plain <==> (extension != seq!['p', 'n', 'g']
            && extension != seq!['j', 'p', 'g']),
        subtype_of(AvatarType::Png) == seq!['p', 'n', 'g'],
        subtype_of(AvatarType::Jpeg) == seq!['j', 'p', 'e', 'g'],
        subtype_of(AvatarType::Plain) == seq!['p', 'l', 'a', 'i', 'n'],
{
    assert(seq!['p', 'n', 'g'][0] != seq!['j', 'p', 'g'][0]);
}

/// The character of a decimal digit.
pub open spec fn digit_char(d: int) -> char {
    if d == 0 {
        '0'
    } else if d == 1 {
        '1'
    } else if d == 2 {
        '2'
    } else if d == 3 {
        '3'
    } else if d == 4 {
        '4'
    } else if d == 5 {
        '5'
    } else if d == 6 {
        '6'
    } else if d == 7 {
        '7'
    } else if d == 8 {
        '8'
    } else {
        '9'
    }
}

/// The decimal digits of `n`, most significant first, without leading zeros.
pub open spec fn decimal_digits(n: nat) -> Seq<char>
    decreases n,
{
    if n < 10 {
        seq![digit_char(n as int)]
    } else {
        decimal_digits(n / 10).push(digit_char((n % 10) as int))
    }
}

/// An integer in decimal, with a leading `-` where it is negative (what
/// `Display` writes for an `i32`).
pub open spec fn decimal_text(i: int) -> Seq<char> {
    if i < 0 {
        seq!['-'] + decimal_digits((-i) as nat)
    } else {
        decimal_digits(i as nat)
    }
}

/// The storage key of a user's avatar: `user-<id>-avatar.<subtype>`.
pub open spec fn avatar_key_text(user_id: int, t: AvatarType) -> Seq<char> {
    seq!['u', 's', 'e', 'r', '-'] + decimal_text(user_id) + seq![
        '-',
        'a',
        'v',
        'a',
        't',
        'a',
        'r',
        '.',
    ] + subtype_of(t)
}

/// The number that a text of decimal digits, most significant first, reads
/// as.
pub open spec fn digits_value(s: Seq<char>) -> int
    decreases s.len(),
{
    if s.len() == 0 {
        0
    } else {
        digits_value(s.drop_last()) * 10 + ((s.last() as int) - ('0' as int))
    }
}

proof fn lemma_digit_char_value(d: int)
    requires
        0 <= d < 10,
    ensures
        (digit_char(d) as int) - ('0' as int) == d,
        '0' <= digit_char(d) <= '9',
{
}

/// The decimal digits of `n` are digits, start with no `0` unless `n` is 0,
/// and read back as `n`.
pub proof fn lemma_decimal_digits_read_back(n: nat)
    ensures
        decimal_digits(n).len() >= 1,
        forall|i: int|
            0 <= i < decimal_digits(n).len() ==> '0' <= #[trigger] decimal_digits(n)[i] <= '9',
        n != 0 ==> decimal_digits(n)[0] != '0',
        digits_value(decimal_digits(n)) == n,
    decreases n,
{
    if n < 10 {
        lemma_digit_char_value(n as int);
        let d = decimal_digits(n);
        assert(d.drop_last() =~= Seq::<char>::empty());
        assert(digits_value(d) == digits_value(d.drop_last()) * 10 + ((d.last() as int) - ('0' as int)));
    } else {
        lemma_decimal_digits_read_back(n / 10);
        lemma_digit_char_value((n % 10) as int);
        let rest = decimal_digits(n / 10);
        let d = decimal_digits(n);
        assert(d.drop_last() =~= rest);
        assert(digits_value(d) == digits_value(rest) * 10 + ((d.last() as int) - ('0' as int)));
        assert forall|i: int| 0 <= i < d.len() implies '0' <= #[trigger] d[i] <= '9' by {
            if i < rest.len() {
                assert(d[i] == rest[i]);
            }
        }
        assert(d[0] == rest[0]);
    }
}

/// The text of an integer reads back as that integer: a `-` before the
/// digits of its magnitude exactly when it is negative.
pub proof fn lemma_decimal_text_read_back(i: int)
    ensures
        (decimal_text(i)[0] == '-') <==> i < 0,
        i < 0 ==> digits_value(decimal_text(i).drop_first()) == -i,
        i >= 0 ==> digits_value(decimal_text(i)) == i,
{
    if i < 0 {
        lemma_decimal_digits_read_back((-i) as nat);
        assert(decimal_text(i).drop_first() =~= decimal_digits((-i) as nat));
    } else {
        lemma_decimal_digits_read_back(i as nat);
        assert('0' <= decimal_digits(i as nat)[0] <= '9');
    }
}

/// Appends the digit `d` to `out`.
fn push_digit(out: &mut String, d: u64)
    requires
        d < 10,
    ensures
        final(out)@ == old(out)@.push(digit_char(d as int)),
{
    if d == 0 {
        proof { reveal_strlit("0"); }
        out.append("0");
    } else if d == 1 {
        proof { reveal_strlit("1"); }
        out.append("1");
    } else if d == 2 {
        proof { reveal_strlit("2"); }
        out.append("2");
    } else if d == 3 {
        proof { reveal_strlit("3"); }
        out.append("3");
    } else if d == 4 {
        proof { reveal_strlit("4"); }
        out.append("4");
    } else if d == 5 {
        proof { reveal_strlit("5"); }
        out.append("5");
    } else if d == 6 {
        proof { reveal_strlit("6"); }
        out.append("6");
    } else if d == 7 {
        proof { reveal_strlit("7"); }
        out.append("7");
    } else if d == 8 {
        proof { reveal_strlit("8"); }
        out.append("8");
    } else {
        proof { reveal_strlit("9"); }
        out.append("9");
    }
}

/// Appends the digits of `n` to `out`.
fn push_decimal_digits(out: &mut String, n: u64)
    ensures
        final(out)@ == old(out)@ + decimal_digits(n as nat),
    decreases n,
{
    if n >= 10 {
        push_decimal_digits(out, n / 10);
        push_digit(out, n % 10);
    } else {
        push_digit(out, n);
    }
}

/// Appends `i` in decimal to `out` (see [`decimal_text`]).
fn push_decimal(out: &mut String, i: i32)
    ensures
        final(out)@ == old(out)@ + decimal_text(i as int),
{
    if i < 0 {
        proof { reveal_strlit("-"); }
        out.append("-");
        let magnitude: u64 = (-(i as i64)) as u64;
        push_decimal_digits(out, magnitude);
    } else {
        push_decimal_digits(out, i as u64);
    }
}

/// The media type that an avatar's file name calls for (see
/// [`avatar_type_of`]).
pub fn avatar_type(filename: &str) -> (t: AvatarType)
    ensures
        t == avatar_type_of(extension_of(filename@)),
        forall|n: Seq<char>, e: Seq<char>|
            filename@ == n + seq!['.'] + e && !e.contains('.') ==> t == avatar_type_of(e),
{
    proof {
        assert forall|n: Seq<char>, e: Seq<char>|
            filename@ == n + seq!['.'] + e && !e.contains('.') implies extension_of(filename@)
            == e by {
            lemma_extension_after_last_dot(n, e);
        }
    }
    let n = filename.unicode_len();
    let mut extension: Vec<char> = Vec::new();
    let mut i: usize = 0;
    while i < n
        invariant
            n == filename@.len(),
            0 <= i <= n,
            extension@ == extension_of(filename@.subrange(0, i as int)),
        decreases n - i,
    {
        let c = filename.get_char(i);
        proof {
            let before = filename@.subrange(0, i as int);
            let after = filename@.subrange(0, i + 1);
            assert(after.drop_last() =~= before);
            assert(after.last() == c);
        }
        if c == '.' {
            extension = Vec::new();
        } else {
            extension.push(c);
        }
        i += 1;
    }
    assert(filename@.subrange(0, n as int) =~= filename@);
    if extension.len() == 3 && extension[0] == 'p' && extension[1] == 'n' && extension[2] == 'g' {
        assert(extension@ =~= seq!['p', 'n', 'g']);
        AvatarType::Png
    } else if extension.len() == 3 && extension[0] == 'j' && extension[1] == 'p' && extension[2]
        == 'g' {
        assert(extension@ =~= seq!['j', 'p', 'g']);
        AvatarType::Jpeg
    } else {
        assert(extension@ != seq!['p', 'n', 'g']);
        assert(extension@ != seq!['j', 'p', 'g']);
        AvatarType::Plain
    }
}

/// The subtype text of a media type (see [`subtype_of`]).
pub fn avatar_subtype(t: AvatarType) -> (s: String)
    ensures
        s@ == subtype_of(t),
{
    match t {
        AvatarType::Png => {
            proof { reveal_strlit("png"); }
            String::from_str("png")
        },
        AvatarType::Jpeg => {
            proof { reveal_strlit("jpeg"); }
            String::from_str("jpeg")
        },
        AvatarType::Plain => {
            proof { reveal_strlit("plain"); }
            String::from_str("plain")
        },
    }
}

/// Where and how an avatar is stored: its key in the bucket and the content
/// type (given, as the service gives it, by the subtype alone).
#[derive(Debug)]
pub struct AvatarUpload {
    pub file_key: String,
    pub content_type: String,
}

/// The storage key and content type of the avatar that `user_id` uploads
/// under the file name `filename`.
pub fn avatar_upload(user_id: i32, filename: &str) -> (u: AvatarUpload)
    ensures
        u.content_type@ == subtype_of(avatar_type_of(extension_of(filename@))),
        u.file_key@ == avatar_key_text(user_id as int, avatar_type_of(extension_of(filename@))),
{
    let t = avatar_type(filename);
    let subtype = avatar_subtype(t);
    let mut key = String::from_str("user-");
    proof { reveal_strlit("user-"); }
    push_decimal(&mut key, user_id);
    proof { reveal_strlit("-avatar."); }
    key.append("-avatar.");
    key.append(subtype.as_str());
    AvatarUpload { file_key: key, content_type: subtype }
}

/// The characters that `sanitize_filename` removes on every platform: the
/// ones file systems forbid (`/ ? < > \\ : * | "`) and control characters.
pub open spec fn is_unsafe_filename_char(c: char) -> bool {
    ||| c == '/'
    ||| c == '?'
    ||| c == '<'
    ||| c == '>'
    ||| c == '\\'
    ||| c == ':'
    ||| c == '*'
    ||| c == '|'
    ||| c == '"'
    ||| (c as u32) <= 0x1f
    ||| 0x80 <= (c as u32) <= 0x9f
}

/// The name with every unsafe character (see [`is_unsafe_filename_char`])
/// removed, the others kept in order.
pub open spec fn filtered_name(name: Seq<char>) -> Seq<char>
    decreases name.len(),
{
    if name.len() == 0 {
        name
    } else if is_unsafe_filename_char(name.last()) {
        filtered_name(name.drop_last())
    } else {
        filtered_name(name.drop_last()).push(name.last())
    }
}

/// A name made of one or more dots and nothing else (`.`, `..`, ...).
pub open spec fn is_all_dots(name: Seq<char>) -> bool {
    name.len() > 0 && forall|i: int| 0 <= i < name.len() ==> #[trigger] name[i] == '.'
}

/// `c` with an ASCII capital letter made small.
pub open spec fn ascii_lower(c: char) -> char {
    if 'A' <= c && c <= 'Z' {
        ((c as u32) + 32) as char
    } else {
        c
    }
}

/// Whether `name`, read without regard to the case of its letters, is one
/// of Windows' reserved device names (`con`, `prn`, `aux`, `nul`, `com0` to
/// `com9`, `lpt0` to `lpt9`), alone or followed by `.` and anything.
pub open spec fn is_windows_device_name(name: Seq<char>) -> bool {
    let l = name.map_values(|c: char| ascii_lower(c));
    let stem = l.take(3);
    ||| name.len() >= 3 && (name.len() == 3 || l[3] == '.') && (stem == seq!['c', 'o', 'n'] || stem
        == seq!['p', 'r', 'n'] || stem == seq!['a', 'u', 'x'] || stem == seq!['n', 'u', 'l'])
    ||| name.len() >= 4 && (name.len() == 4 || l[4] == '.') && '0' <= l[3] && l[3] <= '9' && (stem
        == seq!['c', 'o', 'm'] || stem == seq!['l', 'p', 't'])
}

/// `clean` is the longest start of `name` whose UTF-8 form takes at most
/// 255 bytes.
pub open spec fn is_longest_prefix_within_255_bytes(clean: Seq<char>, name: Seq<char>) -> bool {
    &&& clean.is_prefix_of(name)
    &&& vstd::utf8::encode_utf8(clean).len() <= 255
    &&& clean.len() == name.len() || vstd::utf8::encode_utf8(name.take(clean.len() + 1int)).len()
        > 255
}

/// Calls `sanitize_filename::sanitize`. The crate removes the unsafe
/// characters, then empties a name made only of dots, then (on Windows
/// only) empties a reserved device name, and last cuts the name to the
/// longest start of it that takes at most 255 bytes. The contract states
/// what holds on every platform: the result is a start of the filtered
/// name of at most 255 bytes; it is empty where the filtered name is dots
/// only; and where the filtered name is neither dots only nor a device
/// name, it is the longest start of it within 255 bytes (the whole name
/// where that fits). The crate matches device names by Unicode case
/// folding, which for the letters of those names is the ASCII one.
#[verifier::external_body]
fn sanitize_name(name: &str) -> (clean: String)
    ensures
        clean@.is_prefix_of(filtered_name(name@)),
        vstd::utf8::encode_utf8(clean@).len() <= 255,
        is_all_dots(filtered_name(name@)) ==> clean@.len() == 0,
        !is_all_dots(filtered_name(name@)) && !is_windows_device_name(filtered_name(name@))
            ==> is_longest_prefix_within_255_bytes(clean@, filtered_name(name@)),
        !is_all_dots(filtered_name(name@)) && vstd::utf8::encode_utf8(filtered_name(name@)).len()
            <= 255 && !is_windows_device_name(filtered_name(name@)) ==> clean@ == filtered_name(
            name@,
        ),
{
    sanitize_filename::sanitize(name)
}

/// A lowercase hex digit.
pub open spec fn is_lower_hex_digit(c: char) -> bool {
    ('0' <= c && c <= '9') || ('a' <= c && c <= 'f')
}

/// The hyphenated lowercase text of a random (version 4) uuid:
/// `xxxxxxxx-xxxx-4xxx-yxxx-xxxxxxxxxxxx`, each `x` a lowercase hex digit
/// and `y` one of `8`, `9`, `a`, `b`.
pub open spec fn is_uuid_v4_text(t: Seq<char>) -> bool {
    &&& t.len() == 36
    &&& forall|i: int|
        0 <= i < 36 ==> if i == 8 || i == 13 || i == 18 || i == 23 {
            #[trigger] t[i] == '-'
        } else {
            is_lower_hex_digit(t[i])
        }
    &&& t[14] == '4'
    &&& (t[19] == '8' || t[19] == '9' || t[19] == 'a' || t[19] == 'b')
}

/// Calls `uuid::Uuid::new_v4` and returns its `Display` text. The uuid is
/// random; the contract claims only the form the crate always gives it:
/// hyphenated lowercase hex with the version digit `4` and the variant
/// digit `8` to `b` (see [`is_uuid_v4_text`]).
#[verifier::external_body]
fn random_uuid_text() -> (text: String)
    ensures
        is_uuid_v4_text(text@),
{
    uuid::Uuid::new_v4().to_string()
}

/// The name an uploaded avatar file goes by: the name the client gave,
/// sanitized (see [`sanitize_name`]), or a random uuid where it gave none.
pub fn avatar_filename(given: Option<&str>) -> (name: String)
    ensures
        match given {
            Some(n) => {
                &&& name@.is_prefix_of(filtered_name(n@))
                &&& vstd::utf8::encode_utf8(name@).len() <= 255
                &&& is_all_dots(filtered_name(n@)) ==> name@.len() == 0
                &&& !is_all_dots(filtered_name(n@)) && !is_windows_device_name(filtered_name(n@))
                    ==> is_longest_prefix_within_255_bytes(name@, filtered_name(n@))
                &&& !is_all_dots(filtered_name(n@)) && vstd::utf8::encode_utf8(
                    filtered_name(n@),
                ).len() <= 255 && !is_windows_device_name(filtered_name(n@)) ==> name@
                    == filtered_name(n@)
                &&& forall|i: int|
                    0 <= i < name@.len() ==> !is_unsafe_filename_char(#[trigger] name@[i])
            },
            None => is_uuid_v4_text(name@),
        },
{
    match given {
        Some(n) => {
            let clean = sanitize_name(n);
            proof {
                lemma_filtered_name_is_safe(n@);
                assert forall|i: int| 0 <= i < clean@.len() implies !is_unsafe_filename_char(
                    #[trigger] clean@[i],
                ) by {
                    assert(clean@[i] == filtered_name(n@)[i]);
                }
            }
            clean
        },
        None => random_uuid_text(),
    }
}

/// No unsafe character is left in a filtered name.
pub proof fn lemma_filtered_name_is_safe(name: Seq<char>)
    ensures
        forall|i: int|
            0 <= i < filtered_name(name).len() ==> !is_unsafe_filename_char(
                #[trigger] filtered_name(name)[i],
            ),
    decreases name.len(),
{
    if name.len() > 0 {
        lemma_filtered_name_is_safe(name.drop_last());
        let rest = filtered_name(name.drop_last());
        assert forall|i: int| 0 <= i < filtered_name(name).len() implies !is_unsafe_filename_char(
            #[trigger] filtered_name(name)[i],
        ) by {
            if i < rest.len() {
                assert(filtered_name(name)[i] == rest[i]);
            }
        }
    }
}

/// A name with no unsafe character is its own filtered name, so an avatar
/// uploaded under such a name, short enough, not all dots and not a device
/// name, keeps it.
pub proof fn lemma_safe_name_kept(name: Seq<char>)
    requires
        forall|i: int| 0 <= i < name.len() ==> !is_unsafe_filename_char(#[trigger] name[i]),
    ensures
        filtered_name(name) == name,
    decreases name.len(),
{
    if name.len() > 0 {
        let rest = name.drop_last();
        assert forall|i: int| 0 <= i < rest.len() implies !is_unsafe_filename_char(#[trigger] rest[i]) by {
            assert(rest[i] == name[i]);
        }
        lemma_safe_name_kept(rest);
        assert(rest.push(name.last()) =~= name);
    }
}

/// The extension is what follows the last `.`: for any name `n` and any
/// text `e` without `.`, the extension of `n.e` is `e` (so every name ending
/// in `.png` is a PNG, whatever dots come before).
pub proof fn lemma_extension_after_last_dot(n: Seq<char>, e: Seq<char>)
    requires
        !e.contains('.'),
    ensures
        extension_of(n + seq!['.'] + e) == e,
    decreases e.len(),
{
    let w = n + seq!['.'] + e;
    if e.len() == 0 {
        assert(w.last() == '.');
    } else {
        let shorter = e.drop_last();
        assert(w.drop_last() =~= n + seq!['.'] + shorter);
        assert(!shorter.contains('.')) by {
            if shorter.contains('.') {
                let k = choose|k: int| 0 <= k < shorter.len() && shorter[k] == '.';
                assert(e[k] == '.');
            }
        }
        assert(w.last() == e[e.len() - 1]);
        assert(e[e.len() - 1] != '.');
        lemma_extension_after_last_dot(n, shorter);
        assert(shorter.push(e.last()) =~= e);
    }
}

/// An extension never holds a `.`.
pub proof fn lemma_extension_has_no_dot(name: Seq<char>)
    ensures
        !extension_of(name).contains('.'),
    decreases name.len(),
{
    if name.len() > 0 && name.last() != '.' {
        lemma_extension_has_no_dot(name.drop_last());
        let r = extension_of(name.drop_last());
        assert forall|k: int| 0 <= k < r.push(name.last()).len() implies r.push(name.last())[k] != '.' by {
            if k < r.len() {
                assert(!r.contains('.'));
                if r[k] == '.' {
                    assert(r.contains('.'));
                }
            }
        }
    }
}

/// A name without `.` is its own extension.
proof fn lemma_extension_of_dotless(name: Seq<char>)
    requires
        forall|i: int| 0 <= i < name.len() ==> #[trigger] name[i] != '.',
    ensures
        extension_of(name) == name,
    decreases name.len(),
{
    if name.len() > 0 {
        let rest = name.drop_last();
        assert forall|i: int| 0 <= i < rest.len() implies #[trigger] rest[i] != '.' by {
            assert(rest[i] == name[i]);
        }
        lemma_extension_of_dotless(rest);
        assert(rest.push(name.last()) =~= name);
    }
}

/// An avatar uploaded without a file name (so named by a random uuid) is
/// stored as plain text.
pub proof fn lemma_unnamed_avatar_is_plain(name: Seq<char>)
    requires
        is_uuid_v4_text(name),
    ensures
        avatar_type_of(extension_of(name)) == AvatarType::Plain,
{
    assert forall|i: int| 0 <= i < name.len() implies #[trigger] name[i] != '.' by {
        if i == 8 || i == 13 || i == 18 || i == 23 {
            assert(name[i] == '-');
        } else {
            assert(is_lower_hex_digit(name[i]));
        }
    }
    lemma_extension_of_dotless(name);
    assert(name.len() != seq!['p', 'n', 'g'].len());
}

} // verus!
