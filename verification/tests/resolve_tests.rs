use httpd_core::resolve::{index_path, is_within_root, locate, resolve, Probe, Target};

fn found(canonical: &str, is_dir: bool, has_index: bool) -> Probe {
    Probe::Found { canonical: canonical.to_string(), is_dir, has_index }
}

#[test]
fn appends_the_path_to_the_root() {
    assert_eq!(locate("/srv/www", "/a/b.txt"), "/srv/www/a/b.txt");
    assert_eq!(locate("/srv/www", "/"), "/srv/www/");
    assert_eq!(locate("/srv/www", "/../../etc/passwd"), "/srv/www/../../etc/passwd");
}

#[test]
fn the_root_contains_itself_and_what_is_below() {
    assert!(is_within_root("/srv/www", "/srv/www"));
    assert!(is_within_root("/srv/www", "/srv/www/a"));
    assert!(is_within_root("/srv/www", "/srv/www/a/b.txt"));
    assert!(is_within_root("/srv/www/", "/srv/www/a"));
    assert!(is_within_root("/", "/etc/passwd"));
    assert!(is_within_root("/", "/"));
}

#[test]
fn the_root_does_not_contain_its_siblings_or_parents() {
    assert!(!is_within_root("/srv/www", "/srv/www2"));
    assert!(!is_within_root("/srv/www", "/srv/www2/a"));
    assert!(!is_within_root("/srv/www", "/srv"));
    assert!(!is_within_root("/srv/www", "/etc/passwd"));
    assert!(!is_within_root("/srv/www", ""));
    assert!(!is_within_root("/srv/www/", "/srv/www"));
}

#[test]
fn names_the_index_file_of_a_directory() {
    assert_eq!(index_path("/srv/www"), "/srv/www/index.html");
    assert_eq!(index_path("/"), "/index.html");
    assert_eq!(index_path(""), "/index.html");
}

#[test]
fn a_missing_path_is_not_found() {
    assert_eq!(resolve("/missing", "/srv/www", &Probe::Missing), Target::NotFound);
}

#[test]
fn a_path_that_leaves_the_root_is_not_found() {
    let probe = found("/etc/passwd", false, false);
    assert_eq!(resolve("/../../etc/passwd", "/srv/www", &probe), Target::NotFound);
    let probe = found("/srv", true, false);
    assert_eq!(resolve("/../", "/srv/www", &probe), Target::NotFound);
    let probe = found("/srv/www-private/key", false, false);
    assert_eq!(resolve("/link", "/srv/www", &probe), Target::NotFound);
}

#[test]
fn a_file_is_served_as_it_is() {
    let probe = found("/srv/www/a/b.txt", false, false);
    assert_eq!(
        resolve("/a/b.txt", "/srv/www", &probe),
        Target::File { path: "/srv/www/a/b.txt".to_string() }
    );
    assert_eq!(
        resolve("/a/b.txt/", "/srv/www", &probe),
        Target::File { path: "/srv/www/a/b.txt".to_string() }
    );
}

#[test]
fn a_directory_without_trailing_slash_redirects() {
    for has_index in [false, true] {
        let probe = found("/srv/www/a", true, has_index);
        assert_eq!(
            resolve("/a", "/srv/www", &probe),
            Target::Redirect { location: "/a/".to_string() }
        );
    }
}

#[test]
fn a_directory_with_an_index_file_serves_it() {
    let probe = found("/srv/www/a", true, true);
    assert_eq!(
        resolve("/a/", "/srv/www", &probe),
        Target::File { path: "/srv/www/a/index.html".to_string() }
    );
    let probe = found("/srv/www", true, true);
    assert_eq!(
        resolve("/", "/srv/www", &probe),
        Target::File { path: "/srv/www/index.html".to_string() }
    );
}

#[test]
fn a_directory_without_an_index_file_is_listed() {
    let probe = found("/srv/www/a", true, false);
    assert_eq!(
        resolve("/a/", "/srv/www", &probe),
        Target::Index { dir: "/srv/www/a".to_string(), url_path: "/a/".to_string() }
    );
}
