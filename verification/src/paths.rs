//! Names of received files.
//!
//! A peer names the files that it offers. Only the last component of such a
//! name is used, inside a directory that belongs to the transfer alone.

use std::path::Path;
use vstd::prelude::*;
use vstd::slice::slice_subrange;

use crate::scan::{begins_with, lemma_pieces_single, occurs, pieces};
use crate::text::{chars_of, decimal, text_of, to_decimal};

verus! {

/// Whether Unix and Windows both take the slashes of `path`, and nothing else,
/// for separators: a backslash, the colon of a drive letter and two slashes at
/// the start mean more on Windows.
pub open spec fn has_plain_separators(path: Seq<char>) -> bool {
    &&& !path.contains('\\')
    &&& !path.contains(':')
    &&& !begins_with(path, "//"@)
}

/// The last of `parts` that is neither empty nor a step to the directory
/// itself.
pub open spec fn last_component(parts: Seq<Seq<char>>) -> Option<Seq<char>>
    decreases parts.len(),
{
    if parts.len() == 0 {
        None
    } else if parts.last().len() == 0 || parts.last() == "."@ {
        last_component(parts.drop_last())
    } else {
        Some(parts.last())
    }
}

/// The file name in a path whose components are separated by slashes. A path
/// that ends in a step to the parent directory has none.
pub open spec fn slash_file_name(path: Seq<char>) -> Option<Seq<char>> {
    match last_component(pieces(path, '/')) {
        Some(name) if name != ".."@ => Some(name),
        _ => None,
    }
}

/// Whether `c` ends a component or a drive on Unix or on Windows.
pub open spec fn may_separate(c: char) -> bool {
    c == '/' || c == '\\' || c == ':'
}

/// What follows the last character of `path` that may separate.
pub open spec fn last_part(path: Seq<char>) -> Seq<char>
    decreases path.len(),
{
    if path.len() == 0 || may_separate(path.last()) {
        seq![]
    } else {
        last_part(path.drop_last()).push(path.last())
    }
}

/// Whether `path` begins with two slashes of either kind, which name a server
/// or a device on Windows.
pub open spec fn names_a_server(path: Seq<char>) -> bool {
    &&& path.len() >= 2
    &&& path[0] == '/' || path[0] == '\\'
    &&& path[1] == '/' || path[1] == '\\'
}

/// Whether `text` can be the name of a file: it is neither empty nor a step
/// to this or the parent directory.
pub open spec fn can_be_name(text: Seq<char>) -> bool {
    &&& text.len() > 0
    &&& text != "."@
    &&& text != ".."@
}

/// Whether `text` ends with `end`.
pub open spec fn ends_with(text: Seq<char>, end: Seq<char>) -> bool {
    end.len() <= text.len() && text.skip(text.len() - end.len()) == end
}

/// What holds of the file name in a path on Unix and on Windows alike.
pub open spec fn is_file_name_of(path: Seq<char>, name: Option<Seq<char>>) -> bool {
    &&& has_plain_separators(path) ==> name == slash_file_name(path)
    &&& !names_a_server(path) && can_be_name(last_part(path)) ==> (name matches Some(n)
        && ends_with(n, last_part(path)))
    &&& name matches Some(n) ==> can_be_name(n) && occurs(n, path)
    &&& !begins_with(path, "\\\\"@) ==> (name matches Some(n) ==> !n.contains('/'))
}

/// What a `file_name` says.
pub open spec fn name_view(name: Option<String>) -> Option<Seq<char>> {
    match name {
        Some(n) => Some(n@),
        None => None,
    }
}

/// `std::path::Path::file_name`: the final component of `path`, unless there
/// is none or it is `..`. Empty components and those that are `.` do not
/// count. A final component is part of `path` and is never `.` or `..`.
///
/// Unix and Windows differ in what they take for a separator. Slashes always
/// separate, except behind the `\\?\` of Windows; a backslash and the colon of
/// a drive separate on Windows only. What stands behind the last of them
/// belongs to the final component, unless `path` begins with a server. Where
/// that component begins is stated only for a path in which both see the same
/// separators.
#[verifier::external_body]
pub(crate) fn file_name(path: &str) -> (r: Option<String>)
    ensures
        is_file_name_of(path@, name_view(r)),
{
    let name = Path::new(path).file_name()?;
    let text = name.to_str()?;
    Some(text.to_owned())
}

/// Whether `name` is at most one component of a path: it holds no slash and is
/// no step to this or the parent directory. The empty name stands for the
/// directory that it is put into.
pub open spec fn is_one_component(name: Seq<char>) -> bool {
    &&& name != "."@
    &&& name != ".."@
    &&& !name.contains('/')
}

/// Whether `name` begins with a drive letter and its colon, which Windows
/// takes for a path of its own.
pub open spec fn names_a_drive(name: Seq<char>) -> bool {
    &&& name.len() >= 2
    &&& 'a' <= name[0] <= 'z' || 'A' <= name[0] <= 'Z'
    &&& name[1] == ':'
}

/// What is left of the name `name` of an offered file: its file name, unless
/// it has none or a slash is still in it.
pub open spec fn is_safe_form_of(name: Seq<char>, safe: Seq<char>) -> bool {
    exists|n: Option<Seq<char>>|
        #[trigger] is_file_name_of(name, n) && safe == match n {
            Some(text) if !text.contains('/') => text,
            _ => seq![],
        }
}

/// Whether `name` is nothing but a file name on Unix and on Windows.
pub open spec fn is_plain_name(name: Seq<char>) -> bool {
    &&& name.len() > 0
    &&& name != "."@
    &&& name != ".."@
    &&& !name.contains('/')
    &&& !name.contains('\\')
    &&& !name.contains(':')
}

proof fn lemma_plain_name(name: Seq<char>)
    requires
        is_plain_name(name),
    ensures
        has_plain_separators(name),
        slash_file_name(name) == Some(name),
{
    reveal_strlit("//");
    assert("//"@.len() == 2);
    lemma_pieces_single(name, '/');
    if begins_with(name, "//"@) {
        assert(name.take(2)[0] == '/');
        assert(name[0] == '/');
    }
    assert(seq![name].last() == name);
}

fn holds_slash(text: &String) -> (r: bool)
    ensures
        r == text@.contains('/'),
{
    let chars = chars_of(text.as_str());
    let mut i: usize = 0;
    while i < chars.len()
        invariant
            i <= chars.len(),
            chars@ == text@,
            forall|j: int| 0 <= j < i ==> chars@[j] != '/',
        decreases chars.len() - i,
    {
        if chars[i] == '/' {
            assert(chars@.contains('/'));
            return true;
        }
        i = i + 1;
    }
    false
}

/// The last component of the name of an offered file; nothing if it has none
/// that can be used. Whether that component names a drive is not looked at.
pub fn safe_name(name: &String) -> (r: String)
    ensures
        is_safe_form_of(name@, r@),
        is_one_component(r@),
        is_plain_name(name@) ==> r@ == name@,
{
    proof {
        reveal_strlit(".");
        reveal_strlit("..");
        assert("."@.len() == 1 && ".."@.len() == 2);
        if is_plain_name(name@) {
            lemma_plain_name(name@);
        }
    }
    let found = file_name(name.as_str());
    assert(is_file_name_of(name@, name_view(found)));
    match found {
        Some(text) => if holds_slash(&text) {
            String::new()
        } else {
            text
        },
        None => String::new(),
    }
}

/// Where the last dot of `name` is, if it is not the first character.
pub open spec fn extension_start(name: Seq<char>) -> Option<int>
    decreases name.len(),
{
    if name.len() <= 1 {
        None
    } else if name.last() == '.' {
        Some(name.len() - 1)
    } else {
        extension_start(name.drop_last())
    }
}

/// `name` without its extension. A dot at the start begins no extension.
pub open spec fn stem(name: Seq<char>) -> Seq<char> {
    match extension_start(name) {
        Some(i) => name.take(i),
        None => name,
    }
}

/// `name` with `part` for its extension.
pub open spec fn part_name(name: Seq<char>) -> Seq<char> {
    stem(name) + ".part"@
}

/// The directory of the transfer `id`.
pub open spec fn transfer_dir(id: u64) -> Seq<char> {
    decimal(id as nat)
}

/// Where the file `name` of the transfer `id` ends up, from the directory of
/// all transfers on.
pub open spec fn target_path(id: u64, name: Seq<char>) -> Seq<Seq<char>> {
    if name.len() == 0 {
        seq![transfer_dir(id)]
    } else {
        seq![transfer_dir(id), name]
    }
}

/// Where that file is kept while it is incomplete. A file without a name is
/// kept beside the directory of the transfer.
pub open spec fn part_path(id: u64, name: Seq<char>) -> Seq<Seq<char>> {
    if name.len() == 0 {
        seq![part_name(transfer_dir(id))]
    } else {
        seq![transfer_dir(id), part_name(name)]
    }
}

/// The components of a path.
pub open spec fn components(path: Seq<String>) -> Seq<Seq<char>> {
    path.map_values(|s: String| s@)
}

fn to_part_name(name: &String) -> (r: String)
    ensures
        r@ == part_name(name@),
{
    let chars = chars_of(name.as_str());
    let mut i: usize = chars.len();
    assert(chars@.take(i as int) =~= chars@);
    while i > 1 && chars[i - 1] != '.'
        invariant
            i <= chars.len(),
            extension_start(chars@) == extension_start(chars@.take(i as int)),
        decreases i,
    {
        assert(chars@.take(i as int).drop_last() =~= chars@.take(i - 1));
        i = i - 1;
    }
    let end: usize = if i > 1 {
        i - 1
    } else {
        chars.len()
    };
    assert(chars@.subrange(0, end as int) =~= stem(name@));
    let mut r = text_of(slice_subrange(chars.as_slice(), 0, end));
    r.append(".part");
    r
}

/// The path at which the file `name` of the transfer `id` ends up.
pub fn to_target_path(id: u64, name: &String) -> (r: Vec<String>)
    ensures
        components(r@) == target_path(id, name@),
{
    let mut r: Vec<String> = Vec::new();
    r.push(to_decimal(id));
    if name.as_str().unicode_len() > 0 {
        r.push(name.clone());
    }
    assert(components(r@) =~= target_path(id, name@));
    r
}

/// The path at which that file is kept while it is incomplete.
pub fn to_part_path(id: u64, name: &String) -> (r: Vec<String>)
    ensures
        components(r@) == part_path(id, name@),
{
    let dir = to_decimal(id);
    let mut r: Vec<String> = Vec::new();
    if name.as_str().unicode_len() > 0 {
        r.push(dir);
        r.push(to_part_name(name));
    } else {
        r.push(to_part_name(&dir));
    }
    assert(components(r@) =~= part_path(id, name@));
    r
}

proof fn lemma_stem_keeps_slashes_out(name: Seq<char>)
    requires
        !name.contains('/'),
    ensures
        !stem(name).contains('/'),
        match extension_start(name) {
            Some(i) => 0 < i < name.len(),
            None => true,
        },
    decreases name.len(),
{
    if name.len() > 1 && name.last() != '.' {
        let shorter = name.drop_last();
        assert(!shorter.contains('/')) by {
            if shorter.contains('/') {
                let i = choose|i: int| 0 <= i < shorter.len() && shorter[i] == '/';
                assert(name[i] == '/');
            }
        }
        lemma_stem_keeps_slashes_out(shorter);
    }
    if stem(name).contains('/') {
        let i = choose|i: int| 0 <= i < stem(name).len() && stem(name)[i] == '/';
        assert(name[i] == '/');
    }
}

/// Whatever a peer calls its files, they stay where transfers are kept: no
/// component of the paths of a received file is a step upwards or hides a
/// further component. None names a drive either, which would lead elsewhere on
/// Windows, unless the name itself does.
pub proof fn law_received_files_stay_inside(id: u64, name: Seq<char>)
    requires
        is_one_component(name),
    ensures
        forall|i: int|
            0 <= i < target_path(id, name).len() ==> {
                &&& is_one_component(#[trigger] target_path(id, name)[i])
                &&& names_a_drive(target_path(id, name)[i]) ==> names_a_drive(name)
            },
        forall|i: int|
            0 <= i < part_path(id, name).len() ==> {
                &&& is_one_component(#[trigger] part_path(id, name)[i])
                &&& names_a_drive(part_path(id, name)[i]) ==> names_a_drive(name)
            },
{
    lemma_decimal_is_safe(id as nat);
    lemma_part_name_is_safe(name);
    lemma_part_name_is_safe(transfer_dir(id));
}

proof fn lemma_part_name_is_safe(name: Seq<char>)
    requires
        !name.contains('/'),
    ensures
        is_one_component(part_name(name)),
        names_a_drive(part_name(name)) ==> names_a_drive(name),
{
    reveal_strlit(".");
    reveal_strlit("..");
    reveal_strlit(".part");
    lemma_stem_keeps_slashes_out(name);
    assert(part_name(name).len() >= 5);
    if part_name(name).contains('/') {
        let i = choose|i: int| 0 <= i < part_name(name).len() && part_name(name)[i] == '/';
        if i < stem(name).len() {
            assert(stem(name)[i] == '/');
        } else {
            assert(".part"@[i - stem(name).len()] == '/');
        }
    }
}

proof fn lemma_decimal_is_safe(n: nat)
    ensures
        decimal(n).len() > 0,
        forall|i: int| 0 <= i < decimal(n).len() ==> '0' <= #[trigger] decimal(n)[i] <= '9',
        is_one_component(decimal(n)),
    decreases n,
{
    if n >= 10 {
        lemma_decimal_is_safe(n / 10);
    }
    reveal_strlit(".");
    reveal_strlit("..");
    assert(decimal(n)[0] != '.');
}

} // verus!
