//! File names: stem, extension, and the extensions of the images that the
//! picker shows.
//!
//! A name here is one path component, as a directory listing gives it.  The
//! extension is what follows the last dot, unless that dot is the name's
//! first character; the stem is what stands before that dot, or the whole
//! name where there is no extension.

use vstd::prelude::*;

verus! {

/// Index of the last `.` in `name`, or -1 where it has none.
pub open spec fn last_dot(name: Seq<char>) -> int
    decreases name.len(),
{
    if name.len() == 0 {
        -1
    } else if name.last() == '.' {
        name.len() - 1
    } else {
        last_dot(name.drop_last())
    }
}

/// Whether `name` has an extension: a dot that is not its first character.
pub open spec fn has_extension(name: Seq<char>) -> bool {
    last_dot(name) > 0
}

/// The name without its extension.
pub open spec fn stem_of(name: Seq<char>) -> Seq<char> {
    if has_extension(name) {
        name.subrange(0, last_dot(name))
    } else {
        name
    }
}

/// What follows the last dot, where the name has an extension.
pub open spec fn extension_of(name: Seq<char>) -> Option<Seq<char>> {
    if has_extension(name) {
        Some(name.subrange(last_dot(name) + 1, name.len() as int))
    } else {
        None
    }
}

/// The lower-case form of an ASCII capital; any other character itself.
pub open spec fn ascii_lower(c: char) -> char {
    if 'A' <= c && c <= 'Z' {
        ((c as u8) + 32) as char
    } else {
        c
    }
}

/// `s` with its ASCII capitals in lower case.
pub open spec fn lowered(s: Seq<char>) -> Seq<char> {
    s.map_values(|c: char| ascii_lower(c))
}

/// Whether `extension` names a format that the picker shows: `png`, `jpg`,
/// `jpeg` or `webp`, in any mix of cases.
pub open spec fn is_supported_extension(extension: Seq<char>) -> bool {
    let lower = lowered(extension);
    ||| lower == seq!['p', 'n', 'g']
    ||| lower == seq!['j', 'p', 'g']
    ||| lower == seq!['j', 'p', 'e', 'g']
    ||| lower == seq!['w', 'e', 'b', 'p']
}

/// Whether a file of this name is shown as a wallpaper.
pub open spec fn is_wallpaper_name(name: Seq<char>) -> bool {
    match extension_of(name) {
        Some(extension) => is_supported_extension(extension),
        None => false,
    }
}

/// `last_dot` finds a dot, and no dot follows it.
pub proof fn lemma_last_dot(name: Seq<char>)
    ensures
        -1 <= last_dot(name) < name.len(),
        last_dot(name) >= 0 ==> name[last_dot(name)] == '.',
        forall|i: int| last_dot(name) < i < name.len() ==> name[i] != '.',
    decreases name.len(),
{
    if name.len() > 0 && name.last() != '.' {
        let head = name.drop_last();
        lemma_last_dot(head);
        assert forall|i: int| last_dot(name) < i < name.len() implies name[i] != '.' by {
            if i < head.len() {
                assert(head[i] == name[i]);
            }
        }
    }
}

/// A name with an extension is its stem, a dot and the extension; the
/// extension holds no dot, and the stem is not empty.
pub proof fn lemma_name_splits(name: Seq<char>)
    requires
        has_extension(name),
    ensures
        name == stem_of(name) + seq!['.'] + extension_of(name).unwrap(),
        !extension_of(name).unwrap().contains('.'),
        stem_of(name).len() > 0,
{
    lemma_last_dot(name);
    let extension = extension_of(name).unwrap();
    assert(name =~= stem_of(name) + seq!['.'] + extension);
    if extension.contains('.') {
        let i = choose|i: int| 0 <= i < extension.len() && extension[i] == '.';
        assert(name[last_dot(name) + 1 + i] == '.');
    }
}

/// A name made of a stem, a dot and a dotless extension splits back into
/// them, provided the stem is not empty.
pub proof fn lemma_split_of_joined(stem: Seq<char>, extension: Seq<char>)
    requires
        stem.len() > 0,
        !extension.contains('.'),
    ensures
        stem_of(stem + seq!['.'] + extension) == stem,
        extension_of(stem + seq!['.'] + extension) == Some(extension),
{
    let name = stem + seq!['.'] + extension;
    lemma_last_dot(name);
    let dot = stem.len() as int;
    assert(name[dot] == '.');
    if last_dot(name) > dot {
        assert(extension[last_dot(name) - dot - 1] == '.');
        assert(extension.contains('.'));
    }
    assert(last_dot(name) == dot);
    assert(name.subrange(0, dot) =~= stem);
    assert(name.subrange(dot + 1, name.len() as int) =~= extension);
}

/// The characters of `text`, for access by index.
pub fn chars_of(text: &str) -> (chars: Vec<char>)
    ensures
        chars@ == text@,
{
    let mut chars: Vec<char> = Vec::new();
    for c in it: text.chars()
        invariant
            it.seq() == text@,
            chars@ == text@.take(it.index()),
    {
        assert(text@.take(it.index() + 1) =~= text@.take(it.index()).push(c));
        chars.push(c);
    }
    assert(text@.take(text@.len() as int) =~= text@);
    chars
}

/// Finds the last dot of `name`.
fn find_last_dot(name: &str) -> (position: Option<usize>)
    ensures
        match position {
            Some(p) => last_dot(name@) == p,
            None => last_dot(name@) == -1,
        },
{
    let chars = chars_of(name);
    let mut end: usize = chars.len();
    assert(name@.take(end as int) =~= name@);
    while end > 0
        invariant
            end <= chars.len(),
            chars@ == name@,
            last_dot(name@) == last_dot(name@.take(end as int)),
        decreases end,
    {
        proof {
            let head = name@.take(end as int);
            assert(head.last() == name@[end - 1]);
            assert(head.drop_last() =~= name@.take(end - 1));
        }
        if chars[end - 1] == '.' {
            return Some(end - 1);
        }
        end -= 1;
    }
    assert(name@.take(0).len() == 0);
    None
}

/// The name without its extension.
pub fn file_stem(name: &str) -> (stem: String)
    ensures
        stem@ == stem_of(name@),
{
    match find_last_dot(name) {
        Some(dot) => {
            proof {
                lemma_last_dot(name@);
            }
            if dot > 0 {
                String::from_str(name.substring_char(0, dot))
            } else {
                String::from_str(name)
            }
        },
        None => String::from_str(name),
    }
}

/// The name's extension, if it has one.
pub fn extension(name: &str) -> (found: Option<String>)
    ensures
        match found {
            Some(e) => extension_of(name@) == Some(e@),
            None => extension_of(name@) is None,
        },
{
    match find_last_dot(name) {
        Some(dot) => {
            proof {
                lemma_last_dot(name@);
            }
            if dot > 0 {
                let length = name.unicode_len();
                Some(String::from_str(name.substring_char(dot + 1, length)))
            } else {
                None
            }
        },
        None => None,
    }
}

/// The lower-case form of an ASCII capital; any other character itself.
pub fn to_ascii_lower(c: char) -> (lower: char)
    ensures
        lower == ascii_lower(c),
{
    if c >= 'A' && c <= 'Z' {
        ((c as u8) + 32) as char
    } else {
        c
    }
}

/// Whether two strings are equal.
pub fn same_text(a: &str, b: &str) -> (same: bool)
    ensures
        same == (a@ == b@),
{
    String::from_str(a) == String::from_str(b)
}

/// Whether two strings are equal but for the case of their ASCII letters.
pub fn eq_ignore_ascii_case(a: &str, b: &str) -> (same: bool)
    ensures
        same == (lowered(a@) == lowered(b@)),
{
    let left = chars_of(a);
    let right = chars_of(b);
    if left.len() != right.len() {
        assert(lowered(a@).len() != lowered(b@).len());
        return false;
    }
    let mut i: usize = 0;
    while i < left.len()
        invariant
            i <= left.len(),
            left@ == a@,
            right@ == b@,
            left.len() == right.len(),
            forall|j: int| 0 <= j < i ==> ascii_lower(a@[j]) == ascii_lower(b@[j]),
        decreases left.len() - i,
    {
        if to_ascii_lower(left[i]) != to_ascii_lower(right[i]) {
            assert(lowered(a@)[i as int] != lowered(b@)[i as int]);
            return false;
        }
        i += 1;
    }
    assert(lowered(a@) =~= lowered(b@));
    true
}

/// Whether `extension` names a format that the picker shows.
pub fn supported_extension(extension: &str) -> (supported: bool)
    ensures
        supported == is_supported_extension(extension@),
{
    proof {
        reveal_strlit("png");
        reveal_strlit("jpg");
        reveal_strlit("jpeg");
        reveal_strlit("webp");
        assert(lowered("png"@) =~= seq!['p', 'n', 'g']);
        assert(lowered("jpg"@) =~= seq!['j', 'p', 'g']);
        assert(lowered("jpeg"@) =~= seq!['j', 'p', 'e', 'g']);
        assert(lowered("webp"@) =~= seq!['w', 'e', 'b', 'p']);
    }
    eq_ignore_ascii_case(extension, "png") || eq_ignore_ascii_case(extension, "jpg")
        || eq_ignore_ascii_case(extension, "jpeg") || eq_ignore_ascii_case(extension, "webp")
}

/// Whether a file of this name is shown as a wallpaper.
pub fn is_wallpaper(name: &str) -> (shown: bool)
    ensures
        shown == is_wallpaper_name(name@),
{
    match extension(name) {
        Some(e) => supported_extension(e.as_str()),
        None => false,
    }
}

} // verus!
