use docgen::date::CalendarDate;
use docgen::doctype::{DocumentType, TypstData};
use docgen::errors::Errcode;
use docgen::fonts::Listing;
use docgen::style::get_default_style;
use docgen::world::{import_assets, DocumentConfig, TypstWorld};

fn assets() -> Vec<(String, Listing<Vec<u8>>)> {
    vec![
        ("logo.png".to_string(), Listing::File(vec![1, 2, 3])),
        (
            "invoice".to_string(),
            Listing::Directory(vec![
                ("stamp.svg".to_string(), Listing::File(vec![4])),
                ("deep".to_string(), Listing::Directory(vec![("x.bin".to_string(), Listing::File(vec![5, 6]))])),
            ]),
        ),
        ("empty".to_string(), Listing::Directory(vec![])),
    ]
}

fn fonts() -> Vec<(String, Listing<Vec<&'static str>>)> {
    vec![
        ("collection.ttc".to_string(), Listing::File(vec!["Roboto Regular", "Roboto Bold"])),
        ("more".to_string(), Listing::Directory(vec![("mono.ttf".to_string(), Listing::File(vec!["Mono"]))])),
    ]
}

fn world() -> TypstWorld<&'static str> {
    TypstWorld::new(DocumentConfig::new(fonts(), assets()), get_default_style(), DocumentType::Invoice)
}

#[test]
fn assets_are_found_by_their_path_below_the_root() {
    let store = import_assets(assets());
    assert_eq!(store.len(), 3);
    assert_eq!(store.get("logo.png"), Some(&vec![1, 2, 3]));
    assert_eq!(store.get("invoice/stamp.svg"), Some(&vec![4]));
    assert_eq!(store.get("invoice/deep/x.bin"), Some(&vec![5, 6]));
    assert_eq!(store.get("stamp.svg"), None);
    assert_eq!(store.get("invoice"), None);
    assert_eq!(import_assets(vec![]).len(), 0);
}

#[test]
fn a_later_file_of_the_same_path_takes_the_place_of_an_earlier_one() {
    let store = import_assets(vec![
        ("a".to_string(), Listing::File(vec![1])),
        ("a".to_string(), Listing::File(vec![2])),
    ]);
    assert_eq!(store.len(), 1);
    assert_eq!(store.get("a"), Some(&vec![2]));
}

#[test]
fn a_missing_asset_is_reported_with_its_path() {
    let world = world();
    assert_eq!(world.file("logo.png").unwrap(), &vec![1, 2, 3]);
    let err = world.file("img/missing.png").unwrap_err();
    assert!(matches!(err, Errcode::ResourceNotFound(ref path) if path == "img/missing.png"));
    assert_eq!(err.to_string(), "resource not found: img/missing.png");
    let vault: DocumentConfig<u8> = DocumentConfig::new(vec![], assets());
    assert!(matches!(vault.get_asset("nothing"), Err(Errcode::ResourceNotFound(ref path)) if path == "nothing"));
    assert_eq!(vault.get_asset("invoice/stamp.svg").unwrap(), &vec![4]);
}

#[test]
fn a_font_beyond_the_pool_is_no_such_index() {
    let world = world();
    assert_eq!(world.font(0), Some(&"Roboto Regular"));
    assert_eq!(world.font(1), Some(&"Roboto Bold"));
    assert_eq!(world.font(2), Some(&"Mono"));
    assert_eq!(world.font(3), None);
    assert_eq!(world.font(usize::MAX), None);
    let vault: DocumentConfig<u8> = DocumentConfig::new(vec![], vec![]);
    assert_eq!(vault.font_count(), 0);
    assert_eq!(vault.get_font(0), None);
}

#[test]
fn the_style_stands_in_front_of_the_markup() {
    let mut world = world();
    assert_eq!(world.main(), None);
    assert!(world.source("source").is_err());
    let full = world.compile(TypstData::new("x.pdf".to_string(), "= Title".to_string()));
    assert!(full.starts_with("#let font_name() = \"Roboto\"\n"));
    assert!(full.contains("#let table_color() = rgb(110, 140, 180, 205)\n"));
    assert!(full.ends_with("#let paper_type() = \"a4\"\n\n= Title\n"));
    assert_eq!(world.main(), Some(full.as_str()));
    assert_eq!(world.source("source").unwrap(), full);
}

#[test]
fn there_is_one_source_and_no_other() {
    let mut world = world();
    world.compile(TypstData::new("x.pdf".to_string(), "text".to_string()));
    let err = world.source("other.typ").unwrap_err();
    assert!(matches!(err, Errcode::ResourceNotFound(ref id) if id == "other.typ"));
    assert!(world.source("").is_err());
    assert!(world.source("source").is_ok());
}

#[test]
fn today_is_the_day_of_the_clock_moved_by_whole_days() {
    let world = world();
    let noon = 1_709_812_800;
    assert_eq!(world.today(noon, None), Some(CalendarDate { year: 2024, month: 3, day: 7 }));
    assert_eq!(world.today(noon, Some(0)), Some(CalendarDate { year: 2024, month: 3, day: 7 }));
    assert_eq!(world.today(noon, Some(1)), Some(CalendarDate { year: 2024, month: 3, day: 8 }));
    assert_eq!(world.today(noon, Some(-7)), Some(CalendarDate { year: 2024, month: 2, day: 29 }));
    assert_eq!(world.today(noon, Some(i64::MAX)), None);
    assert_eq!(world.today(i64::MIN, Some(-1)), None);
}
