//! Lists of file URIs, as Linux desktops exchange them on the clipboard.
//!
//! Of the escapes that a URI can hold only the one for a space is known.

use vstd::prelude::*;
use vstd::slice::slice_subrange;
use vstd::utf8::{decode_utf8, valid_utf8};

use crate::scan::{begins_with, is_space, lemma_pieces_extend, occurs, part_views, pieces};
use crate::scan::{replace, replaced, split, starts_with, trim, trimmed, trimmed_end};
use crate::scan::trimmed_start;
use crate::text::{chars_of, decode_text, text_of, texts};

verus! {

/// The path in one line of a list, if there is one.
pub open spec fn line_path(line: Seq<char>) -> Option<Seq<char>> {
    let uri = trimmed(line);
    if begins_with(uri, "file://"@) {
        Some(replaced(uri.skip(7), "%20"@, " "@))
    } else {
        None
    }
}

/// The paths in several lines.
pub open spec fn lines_paths(lines: Seq<Seq<char>>) -> Seq<Seq<char>>
    decreases lines.len(),
{
    if lines.len() == 0 {
        seq![]
    } else {
        let before = lines_paths(lines.drop_last());
        match line_path(lines.last()) {
            Some(path) => before.push(path),
            None => before,
        }
    }
}

/// The paths in a list of URIs.
pub open spec fn listed_paths(list: Seq<char>) -> Seq<Seq<char>> {
    lines_paths(pieces(list, '\n'))
}

/// The paths that the bytes `list` name: none, if they are not a text.
pub fn parse_uri_list(list: &[u8]) -> (r: Vec<String>)
    ensures
        texts(r@) == if valid_utf8(list@) {
            listed_paths(decode_utf8(list@))
        } else {
            seq![]
        },
{
    let mut r: Vec<String> = Vec::new();
    assert(texts(r@) =~= seq![]);
    let text = match decode_text(list) {
        Some(text) => text,
        None => return r,
    };
    proof {
        reveal_strlit("file://");
        assert("file://"@.len() == 7);
        reveal_strlit("%20");
        assert("%20"@.len() == 3);
    }
    let scheme = chars_of("file://");
    let escape = chars_of("%20");
    let space = chars_of(" ");
    let lines = split(chars_of(text.as_str()).as_slice(), '\n');
    let ghost view = part_views(lines@);
    let mut i: usize = 0;
    assert(texts(r@) =~= lines_paths(view.take(0)));
    while i < lines.len()
        invariant
            i <= lines.len(),
            view == part_views(lines@),
            scheme@ == "file://"@,
            scheme@.len() == 7,
            escape@ == "%20"@,
            escape@.len() == 3,
            space@ == " "@,
            texts(r@) == lines_paths(view.take(i as int)),
        decreases lines.len() - i,
    {
        let ghost before = r@;
        assert(view.take(i + 1).drop_last() =~= view.take(i as int));
        assert(view.take(i + 1).last() == lines@[i as int]@);
        let uri = trim(lines[i].as_slice());
        if starts_with(uri, scheme.as_slice()) {
            let rest = slice_subrange(uri, 7, uri.len());
            assert(rest@ =~= uri@.skip(7));
            let path = replace(rest, escape.as_slice(), space.as_slice());
            r.push(text_of(path.as_slice()));
            assert(texts(r@) =~= texts(before).push(path@));
        }
        i = i + 1;
    }
    assert(view.take(i as int) =~= view);
    r
}

/// The line that names `path`, without its end.
pub open spec fn uri_line(path: Seq<char>) -> Seq<char> {
    "file://"@ + replaced(path, " "@, "%20"@)
}

/// A list that names `paths`. Every line of it is terminated.
pub open spec fn uri_list(paths: Seq<Seq<char>>) -> Seq<char>
    decreases paths.len(),
{
    if paths.len() == 0 {
        seq![]
    } else {
        uri_list(paths.drop_last()) + uri_line(paths.last()) + "\r\n"@
    }
}

/// A list that names `paths`.
pub fn build_uri_list(paths: &Vec<String>) -> (r: String)
    ensures
        r@ == uri_list(texts(paths@)),
{
    proof {
        reveal_strlit(" ");
        assert(" "@.len() == 1);
    }
    let escape = chars_of("%20");
    let space = chars_of(" ");
    let ghost view = texts(paths@);
    let mut r = String::new();
    let mut i: usize = 0;
    assert(r@ =~= uri_list(view.take(0)));
    while i < paths.len()
        invariant
            i <= paths.len(),
            view == texts(paths@),
            escape@ == "%20"@,
            space@ == " "@,
            space@.len() == 1,
            r@ == uri_list(view.take(i as int)),
        decreases paths.len() - i,
    {
        let ghost before = r@;
        assert(view.take(i + 1).drop_last() =~= view.take(i as int));
        assert(view.take(i + 1).last() == paths@[i as int]@);
        let path = chars_of(paths[i].as_str());
        let escaped = replace(path.as_slice(), space.as_slice(), escape.as_slice());
        r.append("file://");
        r.append(text_of(escaped.as_slice()).as_str());
        assert(r@ =~= before + uri_line(paths@[i as int]@));
        r.append("\r\n");
        i = i + 1;
    }
    assert(view.take(i as int) =~= view);
    r
}

/// Whether `path` survives being listed: it has no line feed and no escape of
/// its own, and does not end in white space other than a space.
pub open spec fn is_listable(path: Seq<char>) -> bool {
    &&& !path.contains('\n')
    &&& !occurs("%20"@, path)
    &&& path.len() > 0 && is_space(path.last()) ==> path.last() == ' '
}

proof fn lemma_literals()
    ensures
        " "@ == seq![' '],
        "%20"@ == seq!['%', '2', '0'],
        "\r\n"@ == seq!['\r', '\n'],
        "file://"@ == seq!['f', 'i', 'l', 'e', ':', '/', '/'],
{
    reveal_strlit(" ");
    reveal_strlit("%20");
    reveal_strlit("\r\n");
    reveal_strlit("file://");
    assert(" "@ =~= seq![' ']);
    assert("%20"@ =~= seq!['%', '2', '0']);
    assert("\r\n"@ =~= seq!['\r', '\n']);
    assert("file://"@ =~= seq!['f', 'i', 'l', 'e', ':', '/', '/']);
}

/// What escaping does to the front of a text.
proof fn lemma_escaped_front(path: Seq<char>)
    requires
        path.len() > 0,
    ensures
        path[0] == ' ' ==> replaced(path, " "@, "%20"@) == "%20"@ + replaced(
            path.drop_first(),
            " "@,
            "%20"@,
        ),
        path[0] != ' ' ==> replaced(path, " "@, "%20"@) == seq![path[0]] + replaced(
            path.drop_first(),
            " "@,
            "%20"@,
        ),
{
    lemma_literals();
    assert(path.take(1) =~= seq![path[0]]);
    assert(path.skip(1) =~= path.drop_first());
    if path[0] != ' ' {
        assert(seq![path[0]][0] != seq![' '][0]);
    }
}

/// Unescaping gives back what was escaped.
proof fn lemma_unescape(path: Seq<char>)
    requires
        !occurs("%20"@, path),
    ensures
        replaced(replaced(path, " "@, "%20"@), "%20"@, " "@) == path,
    decreases path.len(),
{
    lemma_literals();
    if path.len() > 0 {
        let rest = path.drop_first();
        let tail = replaced(rest, " "@, "%20"@);
        let escaped = replaced(path, " "@, "%20"@);
        assert(!occurs("%20"@, rest)) by {
            if occurs("%20"@, rest) {
                let i = choose|i: int|
                    0 <= i <= rest.len() && #[trigger] begins_with(rest.skip(i), "%20"@);
                assert(rest.skip(i) =~= path.skip(i + 1));
            }
        }
        lemma_unescape(rest);
        lemma_escaped_front(path);
        if path[0] == ' ' {
            assert(escaped.take(3) =~= "%20"@);
            assert(escaped.skip(3) =~= tail);
            assert(" "@ + rest =~= path);
        } else {
            assert(!begins_with(escaped, "%20"@)) by {
                if begins_with(escaped, "%20"@) {
                    assert(escaped[0] == escaped.take(3)[0]);
                    assert(escaped[1] == escaped.take(3)[1]);
                    assert(escaped[2] == escaped.take(3)[2]);
                    assert(tail[0] == '2' && tail[1] == '0');
                    assert(rest.len() > 0);
                    lemma_escaped_front(rest);
                    assert(rest[0] == '2');
                    let further = rest.drop_first();
                    assert(replaced(further, " "@, "%20"@)[0] == '0');
                    assert(further.len() > 0);
                    lemma_escaped_front(further);
                    assert(further[0] == '0');
                    assert(path.skip(0) =~= path);
                    assert(path.take(3) =~= "%20"@);
                    assert(begins_with(path.skip(0), "%20"@));
                }
            }
            assert(escaped.drop_first() =~= tail);
            assert(seq![path[0]] + rest =~= path);
        }
    }
}

/// Escaping brings in no line feed and no white space at the end.
proof fn lemma_escaped_ends(path: Seq<char>)
    requires
        !path.contains('\n'),
        path.len() > 0 && is_space(path.last()) ==> path.last() == ' ',
    ensures
        !replaced(path, " "@, "%20"@).contains('\n'),
        replaced(path, " "@, "%20"@).len() > 0 ==> !is_space(replaced(path, " "@, "%20"@).last()),
        path.len() > 0 ==> replaced(path, " "@, "%20"@).len() > 0,
    decreases path.len(),
{
    lemma_literals();
    if path.len() > 0 {
        let rest = path.drop_first();
        let tail = replaced(rest, " "@, "%20"@);
        let escaped = replaced(path, " "@, "%20"@);
        assert(!rest.contains('\n')) by {
            if rest.contains('\n') {
                let i = choose|i: int| 0 <= i < rest.len() && rest[i] == '\n';
                assert(path[i + 1] == '\n');
            }
        }
        if rest.len() > 0 {
            assert(rest.last() == path.last());
        }
        lemma_escaped_ends(rest);
        lemma_escaped_front(path);
        assert(path[0] != '\n');
        if escaped.contains('\n') {
            let i = choose|i: int| 0 <= i < escaped.len() && escaped[i] == '\n';
            if path[0] == ' ' {
                if i >= 3 {
                    assert(tail[i - 3] == '\n');
                }
            } else if i >= 1 {
                assert(tail[i - 1] == '\n');
            }
        }
        if rest.len() == 0 {
            assert(tail =~= seq![]);
        } else {
            assert(escaped.last() == tail.last());
        }
    }
}

/// One listed line is read as the path that it names.
proof fn lemma_line_read(path: Seq<char>)
    requires
        is_listable(path),
    ensures
        line_path(uri_line(path) + seq!['\r']) == Some(path),
        !(uri_line(path) + seq!['\r']).contains('\n'),
{
    lemma_literals();
    lemma_escaped_ends(path);
    lemma_unescape(path);
    let escaped = replaced(path, " "@, "%20"@);
    let uri = uri_line(path);
    let line = uri + seq!['\r'];
    assert(uri[0] == 'f');
    assert(trimmed_start(line) == line);
    assert(line.drop_last() =~= uri);
    if escaped.len() > 0 {
        assert(uri.last() == escaped.last());
    } else {
        assert(uri.last() == '/');
    }
    assert(trimmed_end(uri) == uri);
    reveal_with_fuel(trimmed_end, 2);
    assert(trimmed(line) == uri);
    assert(uri.take(7) =~= "file://"@);
    assert(uri.skip(7) =~= escaped);
    if line.contains('\n') {
        let i = choose|i: int| 0 <= i < line.len() && line[i] == '\n';
        if 7 <= i < uri.len() {
            assert(escaped[i - 7] == '\n');
        }
    }
}

/// A list of paths is read back as the paths that it names.
pub proof fn law_uri_list_reads_back(paths: Seq<Seq<char>>)
    requires
        forall|i: int| 0 <= i < paths.len() ==> is_listable(#[trigger] paths[i]),
    ensures
        listed_paths(uri_list(paths)) == paths,
{
    lemma_list_read(paths);
    let lines = pieces(uri_list(paths), '\n');
    lemma_literals();
    assert(trimmed(Seq::<char>::empty()) =~= seq![]);
    assert(line_path(Seq::<char>::empty()) is None);
}

/// After the last line end of a list there is nothing.
proof fn lemma_list_read(paths: Seq<Seq<char>>)
    requires
        forall|i: int| 0 <= i < paths.len() ==> is_listable(#[trigger] paths[i]),
    ensures
        pieces(uri_list(paths), '\n').len() > 0,
        pieces(uri_list(paths), '\n').last() == Seq::<char>::empty(),
        lines_paths(pieces(uri_list(paths), '\n').drop_last()) == paths,
    decreases paths.len(),
{
    lemma_literals();
    if paths.len() == 0 {
        let lines = pieces(uri_list(paths), '\n');
        assert(lines.drop_last() =~= seq![]);
        assert(paths =~= seq![]);
    } else {
        let before = paths.drop_last();
        let last = paths.last();
        assert forall|i: int| 0 <= i < before.len() implies is_listable(#[trigger] before[i]) by {
            assert(is_listable(paths[i]));
        }
        assert(is_listable(paths[paths.len() - 1]));
        lemma_list_read(before);
        lemma_line_read(last);
        let line = uri_line(last) + seq!['\r'];
        let earlier = uri_list(before);
        let list = uri_list(paths);
        lemma_pieces_extend(earlier, line, '\n');
        assert(list.drop_last() =~= earlier + line);
        assert(list.last() == '\n');
        let done = pieces(earlier, '\n').drop_last();
        assert(Seq::<char>::empty() + line =~= line);
        assert(pieces(list, '\n') =~= done.push(line).push(seq![]));
        assert(pieces(list, '\n').drop_last() =~= done.push(line));
        assert(done.push(line).drop_last() =~= done);
        assert(before.push(last) =~= paths);
    }
}

/// The paths on several lines are those on each line.
pub proof fn law_one_path_on_each_line(
    lines: Seq<Seq<char>>,
    more: Seq<Seq<char>>,
    line: Seq<char>,
)
    ensures
        lines_paths(lines + more) == lines_paths(lines) + lines_paths(more),
        line_path(line) is None ==> lines_paths(seq![line]).len() == 0,
        line_path(line) matches Some(path) ==> lines_paths(seq![line]) == seq![path],
    decreases more.len(),
{
    reveal_with_fuel(lines_paths, 2);
    assert(seq![line].drop_last() =~= seq![]);
    if line_path(line) is Some {
        assert(lines_paths(seq![line]) =~= seq![line_path(line)->0]);
    }
    if more.len() == 0 {
        assert(lines + more =~= lines);
        assert(lines_paths(lines) + lines_paths(more) =~= lines_paths(lines));
    } else {
        law_one_path_on_each_line(lines, more.drop_last(), line);
        assert((lines + more).drop_last() =~= lines + more.drop_last());
        assert((lines + more).last() == more.last());
        assert(lines_paths(lines + more) =~= lines_paths(lines) + lines_paths(more));
    }
}

/// A line names a path if, without the white space around it, it begins with
/// the scheme of files. The path is all that follows, with a space for every
/// escaped one. No other line names a path.
pub proof fn law_line_names_a_path(line: Seq<char>, path: Seq<char>)
    ensures
        trimmed(line) == seq!['f', 'i', 'l', 'e', ':', '/', '/'] + path ==> line_path(line) == Some(
            replaced(path, seq!['%', '2', '0'], seq![' ']),
        ),
        line_path(line) is Some ==> trimmed(line).len() >= 7 && trimmed(line).take(7) == seq![
            'f',
            'i',
            'l',
            'e',
            ':',
            '/',
            '/',
        ],
{
    lemma_literals();
    let uri = "file://"@ + path;
    assert(uri.take(7) =~= "file://"@);
    assert(uri.skip(7) =~= path);
}

/// A path is listed on a line of its own: the scheme of files, the path with
/// every space escaped, and the end of the line.
pub proof fn law_listed_path(paths: Seq<Seq<char>>, path: Seq<char>)
    ensures
        uri_list(Seq::<Seq<char>>::empty()).len() == 0,
        uri_list(paths.push(path)) == uri_list(paths) + seq!['f', 'i', 'l', 'e', ':', '/', '/']
            + replaced(path, seq![' '], seq!['%', '2', '0']) + seq!['\r', '\n'],
{
    lemma_literals();
    assert(paths.push(path).drop_last() =~= paths);
    assert(uri_list(paths.push(path)) =~= uri_list(paths) + "file://"@ + replaced(
        path,
        " "@,
        "%20"@,
    ) + "\r\n"@);
}

} // verus!
