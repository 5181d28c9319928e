use docgen::fonts::{
    dafont_name, download_wanted, ensure_font_exist, get_all_fonts, import_fonts, Listing,
};
use docgen::style::get_default_style;

#[test]
fn generate_dafont_names() {
    assert_eq!(dafont_name("A B"), "a_b");
    assert_eq!(
        dafont_name("Champagne & Limousines"),
        "champagne_limousines"
    );
}

#[test]
fn dafont_name_joins_pairs_of_spaces_from_the_left() {
    assert_eq!(dafont_name("a   b"), "a__b");
    assert_eq!(dafont_name("a    b"), "a__b");
    assert_eq!(dafont_name(""), "");
    assert_eq!(dafont_name("Roboto"), "roboto");
    assert_eq!(dafont_name("Open-Sans 2"), "opensans_2");
}

#[test]
fn a_font_is_installed_under_its_name_without_spaces() {
    let stems = vec!["OpenSans".to_string(), "Roboto".to_string()];
    assert!(ensure_font_exist(&stems, "Open Sans"));
    assert!(ensure_font_exist(&stems, "Roboto"));
    assert!(!ensure_font_exist(&stems, "roboto"));
    assert!(!ensure_font_exist(&[].to_vec(), "Roboto"));
}

#[test]
fn only_no_reply_and_y_agree_to_a_download() {
    assert!(download_wanted(""));
    assert!(download_wanted("y"));
    assert!(download_wanted("Y"));
    assert!(!download_wanted("n"));
    assert!(!download_wanted("yes"));
}

#[test]
fn the_font_of_the_style_is_offered_unless_installed() {
    let style = get_default_style();
    let none: Vec<String> = Vec::new();
    assert_eq!(get_all_fonts(&style, &none).unwrap(), Some("Roboto".to_string()));
    let stems = vec!["Roboto".to_string()];
    assert_eq!(get_all_fonts(&style, &stems).unwrap(), None);
    let empty = docgen::value::Table::new();
    let err = get_all_fonts(&empty, &stems).unwrap_err();
    assert_eq!(err.to_string(), "invalid entry in style: font_name");
}

#[test]
fn fonts_come_in_the_order_of_the_listing() {
    let dir = vec![
        ("b.ttc".to_string(), Listing::File(vec![1, 2])),
        (
            "sub".to_string(),
            Listing::Directory(vec![
                ("z.ttf".to_string(), Listing::File(vec![3])),
                ("deep".to_string(), Listing::Directory(vec![("y.ttf".to_string(), Listing::File(vec![4, 5]))])),
                ("empty.ttf".to_string(), Listing::File(vec![])),
            ]),
        ),
        ("a.ttf".to_string(), Listing::File(vec![6])),
    ];
    assert_eq!(import_fonts(dir), vec![1, 2, 3, 4, 5, 6]);
    let nothing: Vec<(String, Listing<Vec<u8>>)> = Vec::new();
    assert_eq!(import_fonts(nothing), Vec::<u8>::new());
}
