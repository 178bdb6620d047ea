use httpd_core::listing::{index_page, render_index, sort_entries, DirEntry};

fn entry(name: &str, is_dir: bool) -> DirEntry {
    DirEntry { name: name.to_string(), is_dir }
}

#[test]
fn sorts_directories_first_and_each_group_by_name() {
    let sorted = sort_entries(vec![
        entry("zeta.txt", false),
        entry("beta", true),
        entry("Alpha.txt", false),
        entry("alpha", true),
        entry("alpha.txt", false),
        entry("Zoo", true),
    ]);
    assert_eq!(
        sorted,
        vec![
            entry("Zoo", true),
            entry("alpha", true),
            entry("beta", true),
            entry("Alpha.txt", false),
            entry("alpha.txt", false),
            entry("zeta.txt", false),
        ]
    );
}

#[test]
fn sorts_names_by_code_point() {
    let sorted = sort_entries(vec![
        entry("b", false),
        entry("ab", false),
        entry("a", false),
        entry("\u{e9}", false),
        entry("z", false),
        entry("", false),
        entry("a\u{1F600}", false),
        entry("a\u{e9}", false),
    ]);
    let names: Vec<&str> = sorted.iter().map(|e| e.name.as_str()).collect();
    assert_eq!(names, vec!["", "a", "ab", "a\u{e9}", "a\u{1F600}", "b", "z", "\u{e9}"]);
}

#[test]
fn sorting_keeps_every_entry() {
    let mut entries = Vec::new();
    for i in 0..200u32 {
        let n = (i * 7919) % 200;
        entries.push(entry(&format!("f{:03}", n), n % 3 == 0));
    }
    let sorted = sort_entries(entries.clone());
    assert_eq!(sorted.len(), 200);
    let mut expected = entries;
    expected.sort_by(|a, b| (!a.is_dir, a.name.as_bytes()).cmp(&(!b.is_dir, b.name.as_bytes())));
    assert_eq!(sorted, expected);
    assert_eq!(sort_entries(Vec::new()), Vec::new());
}

#[test]
fn sorting_keeps_duplicates() {
    let sorted = sort_entries(vec![entry("a", false), entry("a", true), entry("a", false)]);
    assert_eq!(sorted, vec![entry("a", true), entry("a", false), entry("a", false)]);
}

#[test]
fn renders_the_listing_of_a_subdirectory() {
    let page = index_page("/pub/", &vec![entry("docs", true), entry("a.txt", false)]);
    assert_eq!(
        page,
        "<html><head><title>Index of /pub/</title></head><body><h1>Index of /pub/</h1>\
         <a href=\"/pub/../\">../</a><br/>\
         <a href=\"/pub/docs/\">docs/</a><br/>\
         <a href=\"/pub/a.txt\">a.txt</a><br/>\
         <body></html>"
    );
}

#[test]
fn the_root_listing_has_no_parent_link() {
    let page = index_page("/", &vec![entry("a.txt", false)]);
    assert_eq!(
        page,
        "<html><head><title>Index of /</title></head><body><h1>Index of /</h1>\
         <a href=\"/a.txt\">a.txt</a><br/>\
         <body></html>"
    );
    let empty = index_page("/", &Vec::new());
    assert_eq!(
        empty,
        "<html><head><title>Index of /</title></head><body><h1>Index of /</h1><body></html>"
    );
}

#[test]
fn renders_the_children_in_listing_order() {
    let page = render_index("/x/", vec![entry("b", false), entry("a", false), entry("c", true)]);
    assert_eq!(
        page,
        "<html><head><title>Index of /x/</title></head><body><h1>Index of /x/</h1>\
         <a href=\"/x/../\">../</a><br/>\
         <a href=\"/x/c/\">c/</a><br/>\
         <a href=\"/x/a\">a</a><br/>\
         <a href=\"/x/b\">b</a><br/>\
         <body></html>"
    );
}
