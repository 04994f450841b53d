use roextract::catalog::get_headers;
use roextract::category::{all_concrete_categories, Category};

#[test]
fn concrete_categories_in_catalog_order() {
    assert_eq!(
        all_concrete_categories(),
        vec![
            Category::Music,
            Category::Sounds,
            Category::Images,
            Category::Ktx,
            Category::Rbxm,
        ]
    );
}

fn views(v: &Vec<String>) -> Vec<&str> {
    v.iter().map(|s| s.as_str()).collect()
}

#[test]
fn music_headers() {
    assert_eq!(views(&get_headers(&Category::Music)), vec!["OggS", "ID3"]);
}

#[test]
fn sounds_headers() {
    assert_eq!(views(&get_headers(&Category::Sounds)), vec!["OggS", "ID3"]);
}

#[test]
fn images_headers() {
    assert_eq!(views(&get_headers(&Category::Images)), vec!["PNG", "WEBP"]);
}

#[test]
fn ktx_headers() {
    assert_eq!(views(&get_headers(&Category::Ktx)), vec!["KTX"]);
}

#[test]
fn rbxm_headers() {
    assert_eq!(views(&get_headers(&Category::Rbxm)), vec!["<roblox!"]);
}

#[test]
fn all_headers_are_dedup_union_of_concrete() {
    // The union of every concrete category's patterns in catalog order,
    // with duplicates dropped after their first occurrence.
    let mut union: Vec<String> = Vec::new();
    for cat in [
        Category::Music,
        Category::Sounds,
        Category::Images,
        Category::Ktx,
        Category::Rbxm,
    ] {
        for h in get_headers(&cat) {
            if !h.is_empty() && !union.contains(&h) {
                union.push(h);
            }
        }
    }
    assert_eq!(get_headers(&Category::All), union);
    assert_eq!(
        views(&get_headers(&Category::All)),
        vec!["OggS", "ID3", "PNG", "WEBP", "KTX", "<roblox!"]
    );
}
