//! Where received files are put.

use vstd::prelude::*;

use crate::paths::{can_be_name, extension_start, has_plain_separators, is_file_name_of};
use crate::paths::{last_component, last_part, may_separate, safe_name};
use crate::paths::{part_name, part_path, slash_file_name, target_path, transfer_dir};
use crate::scan::{digits_value, lemma_pieces_join, lemma_pieces_single, occurs, pieces};
use crate::text_laws::{law_decimal_spells_the_number, law_parts_join_to_the_text};

verus! {

/// The last component of a path is its file name, whatever the path leads
/// through.
pub proof fn law_last_component_is_the_name(dir: Seq<char>, name: Seq<char>)
    requires
        can_be_name(name),
        !name.contains('/'),
    ensures
        slash_file_name(name) == Some(name),
        slash_file_name(dir + seq!['/'] + name) == Some(name),
{
    lemma_pieces_single(name, '/');
    lemma_pieces_join(dir, name, '/');
    assert(seq![name].last() == name);
    assert((pieces(dir, '/') + seq![name]).last() == name);
}

/// Slashes at the end of a path, and steps to the directory itself, make no
/// difference to its file name.
pub proof fn law_trailing_steps_do_not_count(path: Seq<char>)
    ensures
        slash_file_name(path + seq!['/']) == slash_file_name(path),
        slash_file_name(path + seq!['/'] + seq!['.']) == slash_file_name(path),
{
    let empty = Seq::<char>::empty();
    let dot = seq!['.'];
    let before = pieces(path, '/');
    reveal_strlit(".");
    assert("."@ =~= dot);
    lemma_pieces_single(empty, '/');
    lemma_pieces_join(path, empty, '/');
    assert(path + seq!['/'] + empty =~= path + seq!['/']);
    assert((before + seq![empty]).drop_last() =~= before);
    assert((before + seq![empty]).last() == empty);
    assert(!dot.contains('/'));
    lemma_pieces_single(dot, '/');
    lemma_pieces_join(path, dot, '/');
    assert((before + seq![dot]).drop_last() =~= before);
    assert((before + seq![dot]).last() == dot);
}

/// A path that ends in a step to the parent directory has no file name, nor
/// has a path without any component.
pub proof fn law_paths_without_a_name(dir: Seq<char>)
    ensures
        slash_file_name(dir + seq!['/'] + seq!['.', '.']) is None,
        slash_file_name(seq!['.', '.']) is None,
        slash_file_name(seq!['.']) is None,
        slash_file_name(seq!['/']) is None,
        slash_file_name(Seq::<char>::empty()) is None,
{
    let empty = Seq::<char>::empty();
    let up = seq!['.', '.'];
    reveal_with_fuel(last_component, 2);
    reveal_strlit(".");
    reveal_strlit("..");
    assert("."@ =~= seq!['.']);
    assert(".."@ =~= up);
    assert("."@.len() == 1);
    lemma_pieces_single(up, '/');
    lemma_pieces_join(dir, up, '/');
    assert((pieces(dir, '/') + seq![up]).last() == up);
    assert(seq![up].last() == up);
    lemma_pieces_single(empty, '/');
    lemma_pieces_single(seq!['.'], '/');
    assert(seq![empty].last() == empty);
    assert(seq![empty].drop_last() =~= seq![]);
    assert(seq![seq!['.']].last() == seq!['.']);
    assert(seq![seq!['.']].drop_last() =~= seq![]);
    law_trailing_steps_do_not_count(empty);
    assert(empty + seq!['/'] =~= seq!['/']);
}

/// What stands behind the last separator of a path holds none, and is the
/// whole path if that holds none. Slash, backslash and colon may separate.
pub proof fn law_behind_the_last_separator(path: Seq<char>) -> (before: Seq<char>)
    ensures
        path == before + last_part(path),
        forall|i: int| 0 <= i < last_part(path).len() ==> {
            let c = #[trigger] last_part(path)[i];
            c != '/' && c != '\\' && c != ':'
        },
        before.len() > 0 ==> before.last() == '/' || before.last() == '\\' || before.last() == ':',
    decreases path.len(),
{
    if path.len() == 0 || may_separate(path.last()) {
        assert(path + seq![] =~= path);
        path
    } else {
        let before = law_behind_the_last_separator(path.drop_last());
        assert(path =~= path.drop_last().push(path.last()));
        assert(path =~= before + last_part(path));
        before
    }
}

proof fn lemma_extension(base: Seq<char>, ending: Seq<char>)
    requires
        base.len() > 0,
        !ending.contains('.'),
    ensures
        extension_start(base + seq!['.'] + ending) == Some(base.len() as int),
    decreases ending.len(),
{
    let name = base + seq!['.'] + ending;
    if ending.len() > 0 {
        let shorter = ending.drop_last();
        assert(ending[ending.len() - 1] != '.');
        if shorter.contains('.') {
            let i = choose|i: int| 0 <= i < shorter.len() && shorter[i] == '.';
            assert(ending[i] == '.');
        }
        assert(name.drop_last() =~= base + seq!['.'] + shorter);
        assert(name.last() == ending.last());
        lemma_extension(base, shorter);
    }
}

proof fn lemma_no_extension(name: Seq<char>)
    requires
        forall|i: int| 0 < i < name.len() ==> #[trigger] name[i] != '.',
    ensures
        extension_start(name) is None,
    decreases name.len(),
{
    if name.len() > 1 {
        assert(name[name.len() - 1] != '.');
        lemma_no_extension(name.drop_last());
    }
}

/// While a file is incomplete, `part` stands in place of its extension: of
/// what follows the last dot that is not at the start. A name without such a
/// dot gets the extension in addition.
pub proof fn law_part_is_the_extension(base: Seq<char>, ending: Seq<char>, plain: Seq<char>)
    requires
        base.len() > 0,
        !ending.contains('.'),
        forall|i: int| 0 < i < plain.len() ==> #[trigger] plain[i] != '.',
    ensures
        part_name(base + seq!['.'] + ending) == base + ".part"@,
        part_name(plain) == plain + ".part"@,
{
    let name = base + seq!['.'] + ending;
    lemma_extension(base, ending);
    assert(name.take(base.len() as int) =~= base);
    lemma_no_extension(plain);
}

/// A received file is put into a directory that is named after its transfer,
/// under its own name. While it is incomplete it is kept in the same place
/// under another; without a name it is the directory itself.
pub proof fn law_place_of_a_received_file(id: u64, name: Seq<char>)
    ensures
        digits_value(transfer_dir(id)) == id,
        forall|i: int|
            0 <= i < transfer_dir(id).len() ==> '0' <= #[trigger] transfer_dir(id)[i] <= '9',
        target_path(id, name)[0] == transfer_dir(id),
        name.len() > 0 ==> {
            &&& target_path(id, name).len() == 2
            &&& target_path(id, name)[1] == name
            &&& part_path(id, name).len() == 2
            &&& part_path(id, name)[0] == transfer_dir(id)
            &&& part_path(id, name)[1] == part_name(name)
        },
        name.len() == 0 ==> {
            &&& target_path(id, name).len() == 1
            &&& part_path(id, name).len() == 1
            &&& part_path(id, name)[0] == transfer_dir(id) + ".part"@
        },
{
    law_decimal_spells_the_number(id as nat);
    let dir = transfer_dir(id);
    assert forall|i: int| 0 < i < dir.len() implies #[trigger] dir[i] != '.' by {
        assert('0' <= dir[i] <= '9');
    }
    lemma_no_extension(dir);
}

/// Two transfers share no place.
pub proof fn law_transfers_are_kept_apart(a: u64, b: u64, name: Seq<char>, other: Seq<char>)
    requires
        a != b,
    ensures
        transfer_dir(a) != transfer_dir(b),
        target_path(a, name) != target_path(b, other),
{
    law_place_of_a_received_file(a, name);
    law_place_of_a_received_file(b, other);
}

/// What is left of the name of an offered file: its last component, whatever
/// directories come before it, where slashes are all that separates. A name
/// that leads nowhere leaves nothing.
pub proof fn law_safe_name_is_the_last_component(name: String, safe: String)
    requires
        call_ensures(safe_name, (&name,), safe),
    ensures
        !safe@.contains('/'),
        safe@ != seq!['.'],
        safe@ != seq!['.', '.'],
        has_plain_separators(name@) ==> safe@ == match slash_file_name(name@) {
            Some(last) => last,
            None => Seq::<char>::empty(),
        },
        safe@.len() > 0 ==> occurs(safe@, name@),
{
    reveal_strlit(".");
    reveal_strlit("..");
    assert("."@ =~= seq!['.']);
    assert(".."@ =~= seq!['.', '.']);
    let n = choose|n: Option<Seq<char>>|
        #[trigger] is_file_name_of(name@, n) && safe@ == match n {
            Some(text) if !text.contains('/') => text,
            _ => seq![],
        };
    assert(is_file_name_of(name@, n));
    if has_plain_separators(name@) {
        assert(n == slash_file_name(name@));
        if let Some(text) = n {
            lemma_component_holds_no_slash(name@);
            assert(!text.contains('/'));
        }
    }
}

proof fn lemma_component_holds_no_slash(path: Seq<char>)
    ensures
        slash_file_name(path) matches Some(name) ==> !name.contains('/'),
{
    law_parts_join_to_the_text(path, '/');
    lemma_last_component_is_a_part(pieces(path, '/'));
}

proof fn lemma_last_component_is_a_part(parts: Seq<Seq<char>>)
    requires
        forall|i: int| 0 <= i < parts.len() ==> !(#[trigger] parts[i]).contains('/'),
    ensures
        last_component(parts) matches Some(name) ==> !name.contains('/'),
    decreases parts.len(),
{
    if parts.len() > 0 {
        assert(!parts[parts.len() - 1].contains('/'));
        let fewer = parts.drop_last();
        assert forall|i: int| 0 <= i < fewer.len() implies !(#[trigger] fewer[i]).contains('/') by {
            assert(!parts[i].contains('/'));
        }
        lemma_last_component_is_a_part(fewer);
    }
}

} // verus!
