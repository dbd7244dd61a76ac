use ignite_proxy::text::{chars_of, is_space, str_eq, trim_bounds};
use ignite_proxy::{build_target_url, verify_allowlist, verify_auth};

#[test]
fn auth_passes_with_correct_secret() {
    assert!(verify_auth("my-secret", "my-secret"));
}

#[test]
fn auth_fails_with_wrong_secret() {
    assert!(!verify_auth("wrong", "my-secret"));
}

#[test]
fn auth_fails_with_empty_key() {
    assert!(!verify_auth("", "my-secret"));
}

#[test]
fn auth_fails_when_both_empty() {
    assert!(!verify_auth("", ""));
}

#[test]
fn auth_is_case_sensitive() {
    assert!(!verify_auth("MY-SECRET", "my-secret"));
}

#[test]
fn auth_rejects_prefix_and_extension_of_secret() {
    assert!(!verify_auth("my-secre", "my-secret"));
    assert!(!verify_auth("my-secret ", "my-secret"));
    assert!(!verify_auth("my-secret", ""));
}

#[test]
fn auth_accepts_every_non_empty_key_against_itself() {
    for key in ["a", " ", "\u{e9}t\u{e9}", "a,b:c/d", "0"] {
        assert!(verify_auth(key, key));
    }
}

#[test]
fn allowlist_passes_exact_match() {
    assert!(verify_allowlist("createProject", "createProject,processPayment"));
}

#[test]
fn allowlist_passes_with_spaces_in_list() {
    assert!(verify_allowlist("processPayment", "createProject, processPayment, login"));
}

#[test]
fn allowlist_rejects_partial_match() {
    assert!(!verify_allowlist("createProjectAdmin", "createProject,processPayment"));
}

#[test]
fn allowlist_rejects_substring_match() {
    assert!(!verify_allowlist("create", "createProject,processPayment"));
}

#[test]
fn allowlist_rejects_empty_function_name() {
    assert!(!verify_allowlist("", "createProject,processPayment"));
}

#[test]
fn allowlist_rejects_unlisted_function() {
    assert!(!verify_allowlist("deleteEverything", "createProject,processPayment"));
}

#[test]
fn allowlist_single_entry() {
    assert!(verify_allowlist("login", "login"));
}

#[test]
fn allowlist_empty_list_allows_nothing() {
    assert!(!verify_allowlist("login", ""));
    assert!(!verify_allowlist("", ""));
    assert!(!verify_allowlist("", ",,"));
}

#[test]
fn allowlist_is_case_sensitive() {
    assert!(!verify_allowlist("Login", "login"));
}

#[test]
fn allowlist_does_not_trim_the_name() {
    assert!(!verify_allowlist(" login", "login"));
    assert!(!verify_allowlist("login ", " login "));
}

#[test]
fn allowlist_keeps_white_space_inside_an_entry() {
    assert!(verify_allowlist("a b", " a b ,c"));
    assert!(!verify_allowlist("ab", "a b,c"));
}

#[test]
fn allowlist_last_and_first_entries() {
    assert!(verify_allowlist("a", "a,b,c"));
    assert!(verify_allowlist("c", "a,b,c"));
    assert!(verify_allowlist("c", "a,b,c,"));
    assert!(!verify_allowlist("a,b", "a,b,c"));
}

#[test]
fn allowlist_agrees_with_split_and_trim() {
    let lists = [
        "",
        "a",
        " a ",
        "a,b",
        "a , b",
        "\ta\n,\u{a0}b\u{3000}",
        ",a,",
        "a,,b",
        "\u{2003}x y\u{85},z",
        "ab\u{200b},c",
    ];
    let names = ["", "a", "b", " a ", "x y", "z", "ab", "ab\u{200b}", "c", "a,b"];
    for list in lists {
        for name in names {
            let expected = !name.is_empty() && list.split(',').any(|s| s.trim() == name);
            assert_eq!(verify_allowlist(name, list), expected, "{:?} in {:?}", name, list);
        }
    }
}

#[test]
fn target_url_basic() {
    let url = build_target_url(
        "https://us-central1-myapp.cloudfunctions.net",
        "createProject",
    );
    assert_eq!(
        url,
        "https://us-central1-myapp.cloudfunctions.net/createProject"
    );
}

#[test]
fn target_url_strips_trailing_slash() {
    let url = build_target_url(
        "https://us-central1-myapp.cloudfunctions.net/",
        "processPayment",
    );
    assert_eq!(
        url,
        "https://us-central1-myapp.cloudfunctions.net/processPayment"
    );
}

#[test]
fn target_url_short_hosts() {
    assert_eq!(build_target_url("https://host", "fn"), "https://host/fn");
    assert_eq!(build_target_url("https://host/", "fn"), "https://host/fn");
}

#[test]
fn target_url_strips_every_trailing_slash() {
    assert_eq!(build_target_url("https://host///", "fn"), "https://host/fn");
    assert_eq!(build_target_url("///", "fn"), "/fn");
    assert_eq!(build_target_url("", "fn"), "/fn");
    assert_eq!(build_target_url("https://host/a/", ""), "https://host/a/");
}

#[test]
fn target_url_keeps_the_name_as_it_is() {
    assert_eq!(build_target_url("h", "/x/"), "h//x/");
    assert_eq!(build_target_url("h\u{e9}/", "n\u{e9}"), "h\u{e9}/n\u{e9}");
}

#[test]
fn chars_of_gives_the_characters() {
    assert_eq!(chars_of("a\u{e9}b"), vec!['a', '\u{e9}', 'b']);
    assert_eq!(chars_of(""), Vec::<char>::new());
}

#[test]
fn str_eq_is_exact() {
    assert!(str_eq("", ""));
    assert!(str_eq("abc", "abc"));
    assert!(!str_eq("abc", "abd"));
    assert!(!str_eq("abc", "ab"));
    assert!(!str_eq("ab", "abc"));
}

#[test]
fn is_space_agrees_with_the_unicode_property() {
    let mut n: u32 = 0;
    while n <= 0x10FFFF {
        if let Some(c) = char::from_u32(n) {
            assert_eq!(is_space(c), c.is_whitespace(), "U+{:04X}", n);
        }
        n += 1;
    }
}

#[test]
fn trim_bounds_of_a_range() {
    let v = chars_of("x,  ab \t,y");
    assert_eq!(trim_bounds(&v, 2, 8), (4, 6));
    assert_eq!(trim_bounds(&v, 2, 4), (4, 4));
    assert_eq!(trim_bounds(&v, 0, 1), (0, 1));
    assert_eq!(trim_bounds(&v, 3, 3), (3, 3));
}
