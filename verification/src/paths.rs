//! The paths that a zone gives its textures, and file names by their extension.
use vstd::prelude::*;

use crate::text;
use crate::text::to_capital;

verus! {

/// A path with every backslash turned into a slash.
pub open spec fn with_slashes(path: Seq<char>) -> Seq<char> {
    path.map_values(
        |c: char|
            if c == '\\' {
                '/'
            } else {
                c
            },
    )
}

/// Turns every backslash of a path into a slash.
pub fn normalize_separators(path: &str) -> (out: String)
    ensures
        out@ == with_slashes(path@),
{
    let mut out = String::new();
    for c in it: path.chars()
        invariant
            it.seq() == path@,
            out@ == with_slashes(path@.take(it.index())),
    {
        assert(with_slashes(path@.take(it.index() + 1)) =~= with_slashes(
            path@.take(it.index()),
        ).push(
            if c == '\\' {
                '/'
            } else {
                c
            },
        ));
        if c == '\\' {
            out.push('/');
        } else {
            out.push(c);
        }
    }
    assert(path@.take(path@.len() as int) =~= path@);
    out
}

/// Whether a text from character `at` on holds `wanted`, where small ASCII letters stand for their
/// capitals.
pub open spec fn holds_at(s: Seq<char>, at: int, wanted: Seq<char>) -> bool {
    &&& 0 <= at
    &&& at + wanted.len() <= s.len()
    &&& forall|i: int| 0 <= i < wanted.len() ==> text::capital(#[trigger] s[at + i]) == wanted[i]
}

/// Tells whether a text holds `wanted` from character `at` on.
fn check_holds_at(s: &str, at: usize, wanted: &str) -> (out: bool)
    ensures
        out == holds_at(s@, at as int, wanted@),
{
    let count: usize = s.unicode_len();
    let length: usize = wanted.unicode_len();
    if at > count || length > count - at {
        return false;
    }
    for i in 0usize..length
        invariant
            count == s@.len(),
            length == wanted@.len(),
            at + length <= count,
            forall|k: int| 0 <= k < i ==> text::capital(#[trigger] s@[at + k]) == wanted@[k],
    {
        if to_capital(s.get_char(at + i)) != wanted.get_char(i) {
            assert(text::capital(s@[at + i]) != wanted@[i as int]);
            return false;
        }
    }
    true
}

/// Whether a path starts with the name of the data directory.
pub open spec fn has_data_prefix(path: Seq<char>) -> bool {
    holds_at(path, 0, "3DDATA/"@)
}

/// A path without the name of the data directory at its start, if it is there.
pub open spec fn in_data(path: Seq<char>) -> Seq<char> {
    if has_data_prefix(path) {
        path.skip(7)
    } else {
        path
    }
}

/// The path of a texture below the data directory. A zone may give it with the name of that
/// directory in front, in any case; the separators are slashes.
pub fn strip_data_prefix(path: &str) -> (out: String)
    ensures
        out@ == in_data(path@),
{
    proof {
        reveal_strlit("3DDATA/");
    }
    if check_holds_at(path, 0, "3DDATA/") {
        path.substring_char(7, path.unicode_len()).to_owned()
    } else {
        path.to_owned()
    }
}

/// Whether a file name has the extension `wanted`, given with its dot and in capitals. Something
/// must stand before the dot.
pub open spec fn has_extension(name: Seq<char>, wanted: Seq<char>) -> bool {
    name.len() > wanted.len() && holds_at(name, name.len() - wanted.len(), wanted)
}

/// Tells whether a file name has an extension.
fn check_extension(name: &str, wanted: &str) -> (out: bool)
    ensures
        out == has_extension(name@, wanted@),
{
    let count: usize = name.unicode_len();
    let length: usize = wanted.unicode_len();
    count > length && check_holds_at(name, count - length, wanted)
}

/// Tells whether a file is a zone, by its name.
pub fn is_zone_file(name: &str) -> (out: bool)
    ensures
        out == has_extension(name@, ".ZON"@),
{
    check_extension(name, ".ZON")
}

/// Tells whether a file is a DirectDraw surface, by its name.
pub fn is_dds_file(name: &str) -> (out: bool)
    ensures
        out == has_extension(name@, ".DDS"@),
{
    check_extension(name, ".DDS")
}

/// Paths with slashes have no backslash, keep their length, and stay as they are when they are
/// normalized again.
pub proof fn slashes_are_final(path: Seq<char>)
    ensures
        with_slashes(path).len() == path.len(),
        !with_slashes(path).contains('\\'),
        with_slashes(with_slashes(path)) == with_slashes(path),
{
    assert(with_slashes(with_slashes(path)) =~= with_slashes(path));
}

/// The case in which a path gives the name of the data directory does not matter: a path that
/// differs from another in ASCII case alone has its prefix taken off exactly if the other has.
pub proof fn data_prefix_ignores_case(a: Seq<char>, b: Seq<char>)
    requires
        a.len() == b.len(),
        forall|i: int| 0 <= i < a.len() ==> text::capital(#[trigger] a[i]) == text::capital(b[i]),
    ensures
        has_data_prefix(a) == has_data_prefix(b),
        in_data(a).len() == in_data(b).len(),
{
    reveal_strlit("3DDATA/");
    let wanted = "3DDATA/"@;
    if has_data_prefix(a) {
        assert forall|i: int| 0 <= i < wanted.len() implies text::capital(#[trigger] b[0 + i])
            == wanted[i] by {
            assert(text::capital(a[0 + i]) == wanted[i]);
        }
    }
    if has_data_prefix(b) {
        assert forall|i: int| 0 <= i < wanted.len() implies text::capital(#[trigger] a[0 + i])
            == wanted[i] by {
            assert(text::capital(b[0 + i]) == wanted[i]);
        }
    }
}

/// Putting the name of the data directory in front of a path does not change where it leads.
pub proof fn data_prefix_is_dropped(path: Seq<char>)
    ensures
        in_data("3DDATA/"@ + path) == path,
{
    reveal_strlit("3DDATA/");
    assert(("3DDATA/"@ + path).skip(7) =~= path);
    assert forall|i: int| 0 <= i < 7 implies text::capital(#[trigger] ("3DDATA/"@ + path)[0 + i])
        == "3DDATA/"@[i] by {
        assert(("3DDATA/"@ + path)[i] == "3DDATA/"@[i]);
    }
}

/// A path with slashes differs from the given one in its backslashes alone: it is as long, has a
/// slash where that has a backslash, and at every other place the character that stands there.
pub proof fn slashes_replace_backslashes_alone(path: Seq<char>, i: int)
    requires
        0 <= i < path.len(),
    ensures
        with_slashes(path).len() == path.len(),
        path[i] as int == 92 ==> with_slashes(path)[i] as int == 47,
        path[i] as int != 92 ==> with_slashes(path)[i] == path[i],
{
}

/// A text holds at a place what stands there: three parts in a row hold `wanted` after the first
/// exactly if the second is `wanted` in capitals.
pub proof fn text_holds_what_stands_there(
    before: Seq<char>,
    here: Seq<char>,
    after: Seq<char>,
    wanted: Seq<char>,
)
    requires
        here.len() == wanted.len(),
    ensures
        holds_at(before + here + after, before.len() as int, wanted) <==> text::capitals(here)
            == wanted,
{
    let s = before + here + after;
    let at = before.len() as int;
    assert forall|i: int| 0 <= i < wanted.len() implies #[trigger] s[at + i] == here[i] by {}
    if holds_at(s, at, wanted) {
        assert forall|i: int| 0 <= i < wanted.len() implies text::capitals(here)[i] == wanted[i] by {
            assert(text::capital(s[at + i]) == wanted[i]);
        }
        assert(text::capitals(here) =~= wanted);
    }
    if text::capitals(here) == wanted {
        assert forall|i: int| 0 <= i < wanted.len() implies text::capital(#[trigger] s[at + i])
            == wanted[i] by {
            assert(text::capitals(here)[i] == wanted[i]);
        }
    }
}

/// A text holds nothing at a place from which it would reach past the end.
pub proof fn text_holds_nothing_past_its_end(s: Seq<char>, at: int, wanted: Seq<char>)
    requires
        at < 0 || at + wanted.len() > s.len(),
    ensures
        !holds_at(s, at, wanted),
{
}

/// The prefix is a three, the letters of `ddata` in either case and a slash, and nothing else. What
/// is left of a path that has it is the rest from the eighth character on; another path is kept.
pub proof fn data_prefix_is_seven_characters(path: Seq<char>)
    ensures
        has_data_prefix(path) <==> {
            &&& path.len() >= 7
            &&& path[0] == '3'
            &&& (path[1] == 'd' || path[1] == 'D')
            &&& (path[2] == 'd' || path[2] == 'D')
            &&& (path[3] == 'a' || path[3] == 'A')
            &&& (path[4] == 't' || path[4] == 'T')
            &&& (path[5] == 'a' || path[5] == 'A')
            &&& path[6] == '/'
        },
        has_data_prefix(path) ==> path.take(7) + in_data(path) == path,
        !has_data_prefix(path) ==> in_data(path) == path,
{
    reveal_strlit("3DDATA/");
    let wanted = "3DDATA/"@;
    let at: int = 0;
    if has_data_prefix(path) {
        assert(text::capital(path[at + 0]) == wanted[0]);
        assert(text::capital(path[at + 1]) == wanted[1]);
        assert(text::capital(path[at + 2]) == wanted[2]);
        assert(text::capital(path[at + 3]) == wanted[3]);
        assert(text::capital(path[at + 4]) == wanted[4]);
        assert(text::capital(path[at + 5]) == wanted[5]);
        assert(text::capital(path[at + 6]) == wanted[6]);
        assert(path.take(7) + in_data(path) =~= path);
    }
}

/// A zone is a file with a name before a dot and the letters `zon` in either case, and a surface one
/// with `dds`.
pub proof fn extensions_are_three_letters(name: Seq<char>)
    ensures
        ({
            let n = name.len() as int;
            &&& has_extension(name, ".ZON"@) <==> {
                &&& n >= 5
                &&& name[n - 4] == '.'
                &&& (name[n - 3] == 'z' || name[n - 3] == 'Z')
                &&& (name[n - 2] == 'o' || name[n - 2] == 'O')
                &&& (name[n - 1] == 'n' || name[n - 1] == 'N')
            }
            &&& has_extension(name, ".DDS"@) <==> {
                &&& n >= 5
                &&& name[n - 4] == '.'
                &&& (name[n - 3] == 'd' || name[n - 3] == 'D')
                &&& (name[n - 2] == 'd' || name[n - 2] == 'D')
                &&& (name[n - 1] == 's' || name[n - 1] == 'S')
            }
        }),
{
    reveal_strlit(".ZON");
    reveal_strlit(".DDS");
    let at = name.len() - 4;
    let zon = ".ZON"@;
    let dds = ".DDS"@;
    if has_extension(name, zon) {
        assert(text::capital(name[at + 0]) == zon[0]);
        assert(text::capital(name[at + 1]) == zon[1]);
        assert(text::capital(name[at + 2]) == zon[2]);
        assert(text::capital(name[at + 3]) == zon[3]);
    }
    if has_extension(name, dds) {
        assert(text::capital(name[at + 0]) == dds[0]);
        assert(text::capital(name[at + 1]) == dds[1]);
        assert(text::capital(name[at + 2]) == dds[2]);
        assert(text::capital(name[at + 3]) == dds[3]);
    }
}

} // verus!
