use rose_zone_converter::color::Rgba;
use rose_zone_converter::picture::blank;
use rose_zone_converter::texture::Texture;
use rose_zone_converter::texture_cache::TextureCache;
use rose_zone_converter::texture_lookup::{
    decoder_after, find_entry, first_decoder, first_equal, next_step, path_text, placeholder, Answer,
    Decoder, Question, Step, TextureSource,
};

fn names(list: &[&str]) -> Vec<String> {
    list.iter().map(|s| s.to_string()).collect()
}

fn plain(v: u8) -> Texture {
    let mut p = blank(1, 1);
    p.put(0, 0, Rgba { r: v, g: v, b: v, a: v });
    Texture::from_picture(&p)
}

#[test]
fn entries_are_found_in_any_case() {
    let list = names(&["b.dds", "Grass.DDS", "GRASS.dds"]);
    assert_eq!(find_entry(&list, "grass.dds"), Some(1));
    assert_eq!(find_entry(&list, "B.DDS"), Some(0));
    assert_eq!(find_entry(&list, "grass.dd"), None);
    assert_eq!(find_entry(&names(&[]), "x"), None);
}

#[test]
fn entries_are_found_by_full_case_mapping() {
    assert_eq!(find_entry(&names(&["stra\u{df}e"]), "STRASSE"), Some(0));
    assert_eq!(find_entry(&names(&["\u{e9}t\u{e9}"]), "\u{c9}T\u{c9}"), Some(0));
    assert_eq!(find_entry(&names(&["ete"]), "\u{c9}T\u{c9}"), None);
}

#[test]
fn the_first_equal_entry() {
    let list = names(&["A", "B", "B"]);
    assert_eq!(first_equal(&list, &"B".to_string()), Some(1));
    assert_eq!(first_equal(&list, &"b".to_string()), None);
}

#[test]
fn the_last_question_keeps_the_data_prefix() {
    let given = "3Ddata\\Terrain\\a.dds";
    assert_eq!(path_text(Question::Direct, given), "Terrain/a.dds");
    assert_eq!(path_text(Question::Siblings, given), "Terrain/a.dds");
    assert_eq!(path_text(Question::Alternate, given), "3Ddata/Terrain/a.dds");
    assert_eq!(path_text(Question::Direct, "x\\y"), "x/y");
    assert_eq!(path_text(Question::Alternate, "x\\y"), "x/y");
}

#[test]
fn the_path_itself_comes_first() {
    let step = next_step(Question::Direct, &Answer::Exists, "a.dds");
    assert_eq!(step, Step::Use(TextureSource::Direct));
    let step = next_step(Question::Direct, &Answer::Absent, "a.dds");
    assert_eq!(step, Step::Ask(Question::Siblings));
}

#[test]
fn its_directory_comes_next() {
    let listing = Answer::Names(names(&["b.dds", "A.DDS", "a.dds"]));
    let step = next_step(Question::Siblings, &listing, "a.dds");
    assert_eq!(step, Step::Use(TextureSource::Sibling(1)));
    let step = next_step(Question::Siblings, &listing, "c.dds");
    assert_eq!(step, Step::Ask(Question::Alternate));
    let step = next_step(Question::Siblings, &Answer::Absent, "a.dds");
    assert_eq!(step, Step::Ask(Question::Alternate));
}

#[test]
fn the_parent_directory_comes_last() {
    let step = next_step(Question::Alternate, &Answer::Exists, "a.dds");
    assert_eq!(step, Step::Use(TextureSource::Alternate));
    let step = next_step(Question::Alternate, &Answer::Absent, "a.dds");
    assert_eq!(step, Step::Use(TextureSource::Missing));
}

#[test]
fn a_lookup_ends_within_three_questions() {
    let mut question = Question::Direct;
    let mut asked = 0;
    loop {
        asked += 1;
        assert!(asked <= 3);
        match next_step(question, &Answer::Absent, "a.dds") {
            Step::Ask(q) => question = q,
            Step::Use(source) => {
                assert_eq!(source, TextureSource::Missing);
                break;
            }
        }
    }
    assert_eq!(asked, 3);
}

#[test]
fn decoders_by_name() {
    assert_eq!(first_decoder("a.dds"), Decoder::Surface);
    assert_eq!(first_decoder("A.DDS"), Decoder::Surface);
    assert_eq!(first_decoder("a.png"), Decoder::Image);
    assert_eq!(first_decoder(".dds"), Decoder::Image);
    assert_eq!(decoder_after(Decoder::Surface), Some(Decoder::Image));
    assert_eq!(decoder_after(Decoder::Image), None);
}

#[test]
fn the_placeholder_is_magenta() {
    let p = placeholder().to_picture();
    assert_eq!((p.width, p.height), (128, 128));
    assert_eq!(p.pixels, vec![Rgba { r: 255, g: 0, b: 255, a: 255 }; 128 * 128]);
}

#[test]
fn a_cache_gives_back_what_was_stored() {
    let (a, b) = ("a".to_string(), "b".to_string());
    let mut cache = TextureCache::new();
    assert!(cache.get(&a).is_none());
    cache.insert(&a, plain(1));
    cache.insert(&b, plain(2));
    assert_eq!(cache.get(&a).unwrap().to_picture().get(0, 0).r, 1);
    assert_eq!(cache.get(&b).unwrap().to_picture().get(0, 0).r, 2);
    assert!(cache.get(&"A".to_string()).is_none());
}

#[test]
fn the_first_stored_texture_is_kept() {
    let a = "a".to_string();
    let mut cache = TextureCache::new();
    cache.insert(&a, plain(1));
    cache.insert(&a, plain(2));
    assert_eq!(cache.get(&a).unwrap().to_picture().get(0, 0).r, 1);
}
