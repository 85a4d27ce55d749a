use anime_mod_manager::filter_data::FilterData;
use anime_mod_manager::i18n::fill_placeholders;
use anime_mod_manager::img_cache::ImageCache;
use anime_mod_manager::models::ModCard;
use anime_mod_manager::order::{sort_texts, text_less};
use anime_mod_manager::paths::{extension_of_name, file_name, join, parent, parent_or_self};
use anime_mod_manager::perf::{is_slow, log_elapsed_with_threshold, perf_flag_enabled, ScopeTimer};
use anime_mod_manager::pixels::{
    banner_luma, box_blur_rgba_in_place, card_cover_pixels, card_luma, download_card_layers,
    grayscale_rgba_in_place,
};
use anime_mod_manager::restore::{default_mod_folder_name, sanitize_path_component};
use anime_mod_manager::text::{
    chars_of, contains_str, decimal_string, lower_chars, parse_u64_chars, str_eq, trimmed_chars,
};

fn card(id: u64, name: &str, category: &str, sub: Option<&str>) -> ModCard {
    ModCard {
        id,
        name: name.to_string(),
        author: "author".to_string(),
        category: category.to_string(),
        subcategory: sub.map(|s| s.to_string()),
        likes: 0,
        views: 0,
        date_added: 0,
        date_modified: 0,
        local_cover_path: None,
        thumbnail_url: None,
        cover_url: None,
        is_r18: false,
        has_files: true,
        profile_url: String::new(),
    }
}

fn text(v: Vec<char>) -> String {
    v.into_iter().collect()
}

#[test]
fn decimal_and_parse() {
    assert_eq!(decimal_string(0), "0");
    assert_eq!(decimal_string(1234), "1234");
    assert_eq!(decimal_string(u64::MAX), "18446744073709551615");
    assert_eq!(parse_u64_chars(&chars_of("42")), Some(42));
    assert_eq!(parse_u64_chars(&chars_of("+7")), Some(7));
    assert_eq!(parse_u64_chars(&chars_of("18446744073709551615")), Some(u64::MAX));
    assert_eq!(parse_u64_chars(&chars_of("18446744073709551616")), None);
    assert_eq!(parse_u64_chars(&chars_of("")), None);
    assert_eq!(parse_u64_chars(&chars_of("4a")), None);
    assert_eq!(parse_u64_chars(&chars_of(" 4")), None);
}

#[test]
fn trimming_and_case() {
    assert_eq!(text(trimmed_chars("  ab c \t\n")), "ab c");
    assert_eq!(text(trimmed_chars("   ")), "");
    assert_eq!(text(lower_chars("AbC-Ä")), "abc-Ä");
    assert!(str_eq("same", "same"));
    assert!(!str_eq("same", "Same"));
    assert!(contains_str(&chars_of("hello world"), "o w"));
    assert!(!contains_str(&chars_of("hello"), "hello!"));
}

#[test]
fn path_joining() {
    assert_eq!(join("/mods", "abc"), "/mods/abc");
    assert_eq!(join("/mods/", "abc"), "/mods/abc");
    assert_eq!(join("", "abc"), "abc");
    assert_eq!(join("/mods", "/etc"), "/etc");
    assert_eq!(parent("/mods/abc"), Some("/mods".to_string()));
    assert_eq!(parent("/mods"), Some("/".to_string()));
    assert_eq!(parent("abc"), Some(String::new()));
    assert_eq!(parent("/"), None);
    assert_eq!(parent_or_self("/"), "/");
    assert_eq!(file_name("/mods/abc.zip"), Some("abc.zip".to_string()));
    assert_eq!(file_name("/mods/abc/"), Some("abc".to_string()));
    assert_eq!(file_name("/"), None);
    assert_eq!(extension_of_name("pack.tar.gz"), Some("gz".to_string()));
    assert_eq!(extension_of_name(".hidden"), None);
    assert_eq!(extension_of_name("README"), None);
}

#[test]
fn text_order_sorts_by_code_point() {
    assert!(text_less("a", "b"));
    assert!(text_less("ab", "abc"));
    assert!(!text_less("abc", "abc"));
    assert!(text_less("Z", "a"));
    let sorted = sort_texts(vec!["pear".to_string(), "apple".to_string(), "fig".to_string()]);
    assert_eq!(sorted, vec!["apple", "fig", "pear"]);
}

#[test]
fn filter_data_collects_choices() {
    let cards = vec![
        card(1, "a", "Skins", Some("Raiden")),
        card(2, "b", "Skins", Some("Ayaka")),
        card(3, "c", "", Some("ignored")),
        card(4, "d", "UI", None),
        card(5, "e", "Skins", Some("Raiden")),
    ];
    let data = FilterData::build_from_cards(&cards);
    assert_eq!(data.categories, vec!["全部", "Skins", "UI"]);
    let skins = data
        .subcategories
        .iter()
        .find(|(k, _)| k == "Skins")
        .map(|(_, v)| v.clone())
        .unwrap();
    assert_eq!(skins, vec!["全部", "Ayaka", "Raiden"]);
    let ui = data.subcategories.iter().find(|(k, _)| k == "UI").map(|(_, v)| v.clone()).unwrap();
    assert_eq!(ui, vec!["全部"]);
}

#[test]
fn placeholders_fill_left_to_right() {
    let args = vec!["3".to_string(), "7".to_string()];
    assert_eq!(fill_placeholders("{} of {} done", &args), "3 of 7 done");
    assert_eq!(fill_placeholders("only {}", &args), "only 3");
    assert_eq!(fill_placeholders("{} {} {}", &args), "3 7 {}");
    assert_eq!(fill_placeholders("no args {}", &[]), "no args {}");
    assert_eq!(fill_placeholders("{x}", &args), "{x}");
}

#[test]
fn perf_switches() {
    assert!(!perf_flag_enabled(None));
    assert!(!perf_flag_enabled(Some("0")));
    assert!(!perf_flag_enabled(Some("FaLsE")));
    assert!(perf_flag_enabled(Some("1")));
    assert!(perf_flag_enabled(Some("")));
    assert!(perf_flag_enabled(Some("falsey")));
    assert!(is_slow(5, 5));
    assert!(!is_slow(4, 5));
}

#[test]
fn grayscale_keeps_alpha_and_tail() {
    let mut px = vec![255u8, 0, 0, 9, 10, 20, 30, 40, 7];
    grayscale_rgba_in_place(&mut px, banner_luma());
    // (255 * 77) / 256 = 76; (10*77 + 20*150 + 30*29) / 256 = 4640 / 256 = 18
    assert_eq!(px, vec![76, 76, 76, 9, 18, 18, 18, 40, 7]);
    let mut px2 = vec![0u8, 255, 0, 1];
    grayscale_rgba_in_place(&mut px2, card_luma());
    // (255 * 183) / 256 = 182
    assert_eq!(px2, vec![182, 182, 182, 1]);
}

#[test]
fn grayscale_twice_is_grayscale_once() {
    let mut once = vec![12u8, 200, 99, 3, 250, 1, 40, 4];
    grayscale_rgba_in_place(&mut once, banner_luma());
    let mut twice = once.clone();
    grayscale_rgba_in_place(&mut twice, banner_luma());
    assert_eq!(once, twice);
}

#[test]
fn box_blur_averages_windows() {
    // 3x1 image, radius 1: each channel is the mean of its horizontal window.
    let mut px = vec![0u8, 0, 0, 0, 30, 60, 90, 120, 60, 120, 180, 240];
    box_blur_rgba_in_place(&mut px, 3, 1, 1);
    assert_eq!(px, vec![15, 30, 45, 60, 30, 60, 90, 120, 45, 90, 135, 180]);
    // zero radius changes nothing
    let mut same = vec![1u8, 2, 3, 4, 5, 6, 7, 8];
    box_blur_rgba_in_place(&mut same, 2, 1, 0);
    assert_eq!(same, vec![1, 2, 3, 4, 5, 6, 7, 8]);
    // 1x2 image, radius 5: both rows become the column mean; extra bytes stay
    let mut col = vec![10u8, 0, 0, 0, 21, 0, 0, 0, 99];
    box_blur_rgba_in_place(&mut col, 1, 2, 5);
    assert_eq!(col, vec![15, 0, 0, 0, 15, 0, 0, 0, 99]);
}

#[test]
fn path_components_are_sanitized() {
    assert_eq!(sanitize_path_component("Raiden Shogun (v2)"), "Raiden-Shogun-v2");
    assert_eq!(sanitize_path_component("--a__b--"), "a__b");
    assert_eq!(sanitize_path_component("!!!"), "mod");
    assert_eq!(sanitize_path_component(""), "mod");
    assert_eq!(sanitize_path_component("雷电 将军"), "雷电-将军");
    assert_eq!(default_mod_folder_name(&card(42, "My Mod!", "Skins", None)), "42-My-Mod");
}

#[test]
fn image_cache_keeps_first_bytes_per_url() {
    let mut cache = ImageCache::new(2, 300);
    cache.put("a", vec![1, 2]);
    cache.put("a", vec![9]);
    assert_eq!(cache.get("a"), Some(vec![1, 2]));
    cache.put("empty", vec![]);
    assert_eq!(cache.get("empty"), None);
    cache.put("b", vec![3]);
    cache.put("c", vec![4]);
    assert_eq!(cache.get("a"), None);
    assert_eq!(cache.get("b"), Some(vec![3]));
    assert_eq!(cache.get("c"), Some(vec![4]));
}

#[test]
fn scope_timers_only_time_when_enabled() {
    let off = ScopeTimer::with_threshold("scope".to_string(), 0, false);
    assert_eq!(off.label, "");
    assert!(off.start.is_none());
    assert_eq!(off.finish(), None);
    let on = ScopeTimer::with_threshold("scope".to_string(), 0, true);
    assert_eq!(on.label, "scope");
    assert!(on.finish().is_some());
    let patient = ScopeTimer::with_threshold("scope".to_string(), u128::MAX, true);
    assert_eq!(patient.finish(), None);
    let start = std::time::Instant::now();
    assert_eq!(log_elapsed_with_threshold(false, &start, 0), None);
    assert!(log_elapsed_with_threshold(true, &start, 0).is_some());
}

#[test]
fn download_card_layers_blur_color_and_gray() {
    // a 2x1 image: red and blue
    let px = vec![255u8, 0, 0, 255, 0, 0, 255, 255];
    let (color, gray) = download_card_layers(px.clone(), 2, 1);
    // radius 4 covers both pixels: every channel becomes the mean
    assert_eq!(color, vec![127, 0, 127, 255, 127, 0, 127, 255]);
    // gray levels 76 (red) and 28 (blue), then averaged to 52
    assert_eq!(gray, vec![52, 52, 52, 255, 52, 52, 52, 255]);
    assert_eq!(card_cover_pixels(px.clone(), false), px);
    assert_eq!(card_cover_pixels(vec![0, 0, 255, 9], true), vec![18, 18, 18, 9]);
}
