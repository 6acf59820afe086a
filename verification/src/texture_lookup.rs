//! Finding the file of a texture, and choosing who decodes it.
//!
//! The files are looked at elsewhere: each step names what to look at next and is given the answer.
use vstd::prelude::*;

use crate::color::Rgba;
use crate::paths;
use crate::paths::{is_dds_file, normalize_separators, strip_data_prefix};
use crate::picture;
use crate::picture::Picture;
use crate::text;
use crate::texture;
use crate::texture::{PixelKind, Texture};

verus! {

/// Whether two file names are one when case is ignored.
pub open spec fn same_name(a: Seq<char>, b: Seq<char>) -> bool {
    text::uppercase(a) == text::uppercase(b)
}

/// Whether entry `i` of a list is the first that equals `wanted`.
pub open spec fn is_first_equal(list: Seq<String>, wanted: Seq<char>, i: int) -> bool {
    &&& 0 <= i < list.len()
    &&& list[i]@ == wanted
    &&& forall|k: int| 0 <= k < i ==> (#[trigger] list[k])@ != wanted
}

/// Finds the first entry of a list that equals `wanted`.
pub fn first_equal(list: &Vec<String>, wanted: &String) -> (out: Option<usize>)
    ensures
        match out {
            Some(i) => is_first_equal(list@, wanted@, i as int),
            None => forall|k: int| 0 <= k < list@.len() ==> (#[trigger] list@[k])@ != wanted@,
        },
{
    for i in 0usize..list.len()
        invariant
            forall|k: int| 0 <= k < i ==> (#[trigger] list@[k])@ != wanted@,
    {
        if list[i] == *wanted {
            return Some(i);
        }
    }
    None
}

/// Whether entry `i` of a directory is the first that has the wanted name when case is ignored.
pub open spec fn is_first_match(names: Seq<String>, wanted: Seq<char>, i: int) -> bool {
    &&& 0 <= i < names.len()
    &&& same_name(names[i]@, wanted)
    &&& forall|k: int| 0 <= k < i ==> !same_name((#[trigger] names[k])@, wanted)
}

/// Whether no entry of a directory has the wanted name when case is ignored.
pub open spec fn has_no_match(names: Seq<String>, wanted: Seq<char>) -> bool {
    forall|k: int| 0 <= k < names.len() ==> !same_name((#[trigger] names[k])@, wanted)
}

/// Finds the first entry of a directory that has the wanted name when case is ignored. Two names
/// of ASCII characters are one exactly if they have the same capitals.
pub fn find_entry(names: &Vec<String>, wanted: &str) -> (out: Option<usize>)
    ensures
        match out {
            Some(i) => is_first_match(names@, wanted@, i as int),
            None => has_no_match(names@, wanted@),
        },
        text::is_ascii_text(wanted@) ==> forall|k: int|
            0 <= k < names@.len() && text::is_ascii_text((#[trigger] names@[k])@) ==> (same_name(
                names@[k]@,
                wanted@,
            ) <==> text::capitals(names@[k]@) == text::capitals(wanted@)),
{
    let wanted_upper = wanted.to_uppercase();
    let mut uppers: Vec<String> = Vec::new();
    for i in 0usize..names.len()
        invariant
            uppers@.len() == i,
            forall|k: int|
                0 <= k < i ==> (#[trigger] uppers@[k])@ == text::uppercase(names@[k]@) && (
                text::is_ascii_text(names@[k]@) ==> uppers@[k]@ == text::capitals(names@[k]@)),
    {
        uppers.push(names[i].as_str().to_uppercase());
    }
    proof {
        assert forall|k: int| 0 <= k < names@.len() implies text::uppercase((#[trigger] names@[k])@)
            == uppers@[k]@ && (text::is_ascii_text(names@[k]@) ==> uppers@[k]@ == text::capitals(
            names@[k]@,
        )) by {
            let _ = uppers@[k];
        }
    }
    first_equal(&uppers, &wanted_upper)
}

/// What to look at next for a texture.
#[derive(Clone, Copy, Debug, PartialEq, Eq, Structural)]
pub enum Question {
    /// Is there a file at the path below the data directory?
    Direct,
    /// What does the directory of that path hold?
    Siblings,
    /// Is there a file at the path below the directory that holds the data directory?
    Alternate,
}

/// The path that a question is about, below the data directory or, for the last question, below the
/// directory that holds it, where the path keeps the name of the data directory.
pub open spec fn asked_path(question: Question, rel_path: Seq<char>) -> Seq<char> {
    if question == Question::Alternate {
        paths::with_slashes(rel_path)
    } else {
        paths::in_data(paths::with_slashes(rel_path))
    }
}

/// The path that a question is about, for the path that a zone gives a texture.
pub fn path_text(question: Question, rel_path: &str) -> (out: String)
    ensures
        out@ == asked_path(question, rel_path@),
{
    let normalized = normalize_separators(rel_path);
    match question {
        Question::Alternate => normalized,
        Question::Direct | Question::Siblings => strip_data_prefix(normalized.as_str()),
    }
}

/// What was seen.
pub enum Answer {
    /// The file is there.
    Exists,
    /// The file is not there, or the directory cannot be listed.
    Absent,
    /// The names in the directory.
    Names(Vec<String>),
}

/// Which file holds a texture.
#[derive(Clone, Copy, Debug, PartialEq, Eq, Structural)]
pub enum TextureSource {
    /// The one at the path below the data directory.
    Direct,
    /// The entry of its directory with this number.
    Sibling(usize),
    /// The one at the path below the directory that holds the data directory.
    Alternate,
    /// None; a placeholder takes its place.
    Missing,
}

/// What follows from an answer.
#[derive(Clone, Copy, Debug, PartialEq, Eq, Structural)]
pub enum Step {
    Ask(Question),
    Use(TextureSource),
}

/// Whether `step` is what follows from an answer, where `wanted` is the file name of the path below
/// the data directory.
pub open spec fn follows(question: Question, answer: Answer, wanted: Seq<char>, step: Step) -> bool {
    match question {
        Question::Direct => step == if answer is Exists {
            Step::Use(TextureSource::Direct)
        } else {
            Step::Ask(Question::Siblings)
        },
        Question::Siblings => match step {
            Step::Use(TextureSource::Sibling(i)) => answer matches Answer::Names(names)
                && is_first_match(names@, wanted, i as int),
            Step::Ask(Question::Alternate) => answer matches Answer::Names(names) ==> has_no_match(
                names@,
                wanted,
            ),
            _ => false,
        },
        Question::Alternate => step == if answer is Exists {
            Step::Use(TextureSource::Alternate)
        } else {
            Step::Use(TextureSource::Missing)
        },
    }
}

/// Decides what to do after an answer: the path itself comes first, then a file of the same name
/// in another case, then the path below the directory that holds the data directory.
pub fn next_step(question: Question, answer: &Answer, wanted: &str) -> (out: Step)
    ensures
        follows(question, *answer, wanted@, out),
{
    match question {
        Question::Direct => match answer {
            Answer::Exists => Step::Use(TextureSource::Direct),
            _ => Step::Ask(Question::Siblings),
        },
        Question::Siblings => match answer {
            Answer::Names(names) => match find_entry(names, wanted) {
                Some(i) => Step::Use(TextureSource::Sibling(i)),
                None => Step::Ask(Question::Alternate),
            },
            _ => Step::Ask(Question::Alternate),
        },
        Question::Alternate => match answer {
            Answer::Exists => Step::Use(TextureSource::Alternate),
            _ => Step::Use(TextureSource::Missing),
        },
    }
}

/// What follows from an answer is settled by it.
pub proof fn step_is_unique(
    question: Question,
    answer: Answer,
    wanted: Seq<char>,
    step0: Step,
    step1: Step,
)
    requires
        follows(question, answer, wanted, step0),
        follows(question, answer, wanted, step1),
    ensures
        step0 == step1,
{
    if question == Question::Siblings {
        if let Answer::Names(names) = answer {
            if let Step::Use(TextureSource::Sibling(i)) = step0 {
                assert(same_name(names@[i as int]@, wanted));
                if let Step::Use(TextureSource::Sibling(j)) = step1 {
                    assert(same_name(names@[j as int]@, wanted));
                }
            }
            if let Step::Use(TextureSource::Sibling(j)) = step1 {
                assert(same_name(names@[j as int]@, wanted));
            }
        }
    }
}

/// How far a question is from the last.
pub open spec fn rank(question: Question) -> nat {
    match question {
        Question::Direct => 2,
        Question::Siblings => 1,
        Question::Alternate => 0,
    }
}

/// A lookup ends: every question that follows is nearer to the last.
pub proof fn lookup_ends(question: Question, answer: Answer, wanted: Seq<char>, then: Question)
    requires
        follows(question, answer, wanted, Step::Ask(then)),
    ensures
        rank(then) < rank(question),
{
}

/// The placeholder is used only where nothing is found: not at the path, not in its directory when
/// case is ignored, and not below the directory that holds the data directory. In that case it is
/// used.
pub proof fn placeholder_is_the_last_resort(
    direct: Answer,
    siblings: Answer,
    alternate: Answer,
    wanted: Seq<char>,
    step0: Step,
    step1: Step,
    step2: Step,
)
    requires
        follows(Question::Direct, direct, wanted, step0),
        follows(Question::Siblings, siblings, wanted, step1),
        follows(Question::Alternate, alternate, wanted, step2),
    ensures
        (step0 is Ask && step1 is Ask && step2 == Step::Use(TextureSource::Missing)) <==> {
            &&& !(direct is Exists)
            &&& siblings matches Answer::Names(names) ==> has_no_match(names@, wanted)
            &&& !(alternate is Exists)
        },
{
    if let Answer::Names(names) = siblings {
        if let Step::Use(TextureSource::Sibling(i)) = step1 {
            assert(same_name(names@[i as int]@, wanted));
        }
    }
}

/// Who decodes a texture.
#[derive(Clone, Copy, Debug, PartialEq, Eq, Structural)]
pub enum Decoder {
    /// The loader for DirectDraw surfaces.
    Surface,
    /// The `image` crate, which goes by the file's name.
    Image,
}

/// Chooses who decodes a texture first: surfaces are known by their extension.
pub fn first_decoder(name: &str) -> (out: Decoder)
    ensures
        out == if paths::has_extension(name@, ".DDS"@) {
            Decoder::Surface
        } else {
            Decoder::Image
        },
{
    if is_dds_file(name) {
        Decoder::Surface
    } else {
        Decoder::Image
    }
}

/// Chooses who decodes a texture after a decoder has failed. Nobody comes after the `image` crate.
pub fn decoder_after(failed: Decoder) -> (out: Option<Decoder>)
    ensures
        out == if failed == Decoder::Surface {
            Some(Decoder::Image)
        } else {
            None
        },
{
    match failed {
        Decoder::Surface => Some(Decoder::Image),
        Decoder::Image => None,
    }
}

/// The colour that marks a missing texture.
pub open spec fn magenta() -> Rgba {
    Rgba { r: 255, g: 0, b: 255, a: 255 }
}

/// The texture that takes the place of a missing one.
pub fn placeholder() -> (out: Texture)
    ensures
        out@.wf(),
        out@.width == 128,
        out@.height == 128,
        out@.kind == PixelKind::Rgba8,
        forall|x: int, y: int|
            out@.covers(x, y) ==> #[trigger] out@.at(x, y) == texture::rgba_samples(magenta()),
{
    let pixels = vec![Rgba { r: 255, g: 0, b: 255, a: 255 }; 16384usize];
    let out = Texture::from_picture(&Picture { width: 128, height: 128, pixels });
    assert forall|x: int, y: int| out@.covers(x, y) implies #[trigger] out@.at(x, y)
        == texture::rgba_samples(magenta()) by {
        picture::lemma_cell_in_grid(128, 128, x, y);
    }
    out
}

/// What each step of a lookup means. A file at the path itself is used at once; else its directory is
/// gone through. The entry that is used is the first whose name is the wanted one in upper case; if
/// there is none, or no listing, the other path is looked at. A file there is used, and without one
/// nothing is. No step asks for the path itself again.
pub proof fn steps_follow_from_what_is_seen(
    question: Question,
    answer: Answer,
    wanted: Seq<char>,
    i: usize,
)
    ensures
        follows(question, answer, wanted, Step::Use(TextureSource::Direct)) <==> question
            == Question::Direct && answer is Exists,
        follows(question, answer, wanted, Step::Ask(Question::Siblings)) <==> question
            == Question::Direct && !(answer is Exists),
        follows(question, answer, wanted, Step::Use(TextureSource::Sibling(i))) <==> {
            &&& question == Question::Siblings
            &&& answer matches Answer::Names(names)
            &&& i < names@.len()
            &&& text::uppercase(names@[i as int]@) == text::uppercase(wanted)
            &&& forall|k: int|
                0 <= k < i ==> text::uppercase((#[trigger] names@[k])@) != text::uppercase(wanted)
        },
        follows(question, answer, wanted, Step::Ask(Question::Alternate)) <==> {
            &&& question == Question::Siblings
            &&& answer matches Answer::Names(names) ==> forall|k: int|
                0 <= k < names@.len() ==> text::uppercase((#[trigger] names@[k])@)
                    != text::uppercase(wanted)
        },
        follows(question, answer, wanted, Step::Use(TextureSource::Alternate)) <==> question
            == Question::Alternate && answer is Exists,
        follows(question, answer, wanted, Step::Use(TextureSource::Missing)) <==> question
            == Question::Alternate && !(answer is Exists),
        !follows(question, answer, wanted, Step::Ask(Question::Direct)),
{
}

/// A match in a directory goes by upper case alone, and the first one counts.
pub proof fn matches_go_by_upper_case(names: Seq<String>, wanted: Seq<char>, i: int)
    ensures
        is_first_match(names, wanted, i) <==> {
            &&& 0 <= i < names.len()
            &&& text::uppercase(names[i]@) == text::uppercase(wanted)
            &&& forall|k: int|
                0 <= k < i ==> text::uppercase((#[trigger] names[k])@) != text::uppercase(wanted)
        },
        has_no_match(names, wanted) <==> forall|k: int|
            0 <= k < names.len() ==> text::uppercase((#[trigger] names[k])@) != text::uppercase(
                wanted,
            ),
        is_first_equal(names, wanted, i) <==> {
            &&& 0 <= i < names.len()
            &&& names[i]@ == wanted
            &&& forall|k: int| 0 <= k < i ==> (#[trigger] names[k])@ != wanted
        },
{
}

/// The paths that a lookup asks about differ from the given one in their separators, character for
/// character, and the first ones in the name of the data directory: where the path starts with a
/// three, the letters of `ddata` in either case and a separator, those seven characters are left out
/// of them and of them alone.
pub proof fn asked_paths_name_the_given_file(rel_path: Seq<char>, question: Question, i: int)
    requires
        question == Question::Direct || question == Question::Siblings,
    ensures
        ({
            let whole = asked_path(Question::Alternate, rel_path);
            let part = asked_path(question, rel_path);
            let prefixed = {
                &&& rel_path.len() >= 7
                &&& rel_path[0] == '3'
                &&& (rel_path[1] == 'd' || rel_path[1] == 'D')
                &&& (rel_path[2] == 'd' || rel_path[2] == 'D')
                &&& (rel_path[3] == 'a' || rel_path[3] == 'A')
                &&& (rel_path[4] == 't' || rel_path[4] == 'T')
                &&& (rel_path[5] == 'a' || rel_path[5] == 'A')
                &&& (rel_path[6] == '/' || rel_path[6] == '\\')
            };
            &&& whole.len() == rel_path.len()
            &&& 0 <= i < whole.len() ==> whole[i] == if rel_path[i] == '\\' {
                '/'
            } else {
                rel_path[i]
            }
            &&& prefixed ==> part.len() == whole.len() - 7
            &&& prefixed && 0 <= i < part.len() ==> part[i] == whole[i + 7]
            &&& !prefixed ==> part == whole
        }),
{
    let whole = paths::with_slashes(rel_path);
    paths::data_prefix_is_seven_characters(whole);
    if rel_path.len() >= 7 {
        paths::slashes_replace_backslashes_alone(rel_path, 0);
        paths::slashes_replace_backslashes_alone(rel_path, 1);
        paths::slashes_replace_backslashes_alone(rel_path, 2);
        paths::slashes_replace_backslashes_alone(rel_path, 3);
        paths::slashes_replace_backslashes_alone(rel_path, 4);
        paths::slashes_replace_backslashes_alone(rel_path, 5);
        paths::slashes_replace_backslashes_alone(rel_path, 6);
    }
}

/// The placeholder's colour is full red and blue without green, and opaque.
pub proof fn magenta_is_red_and_blue()
    ensures
        magenta().r == 255,
        magenta().g == 0,
        magenta().b == 255,
        magenta().a == 255,
{
}

} // verus!
