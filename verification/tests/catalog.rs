use pack_pipeline::catalog::{check_sort, packs_query, packs_url, request_headers, sort_field_of};
use pack_pipeline::sort::SortField;

const OPTIONS: &str = "Valid options: name, popularity, overall, stream, jumpstream, handstream, jacks, chordjacks, stamina, technical";

fn pair(k: &str, v: &str) -> (String, String) {
    (k.to_string(), v.to_string())
}

#[test]
fn sort_field_is_read_without_space_and_minus() {
    assert_eq!(sort_field_of("name"), "name");
    assert_eq!(sort_field_of("-name"), "name");
    assert_eq!(sort_field_of("  -stream \n"), "stream");
    assert_eq!(sort_field_of("--name"), "-name");
    assert_eq!(sort_field_of("- name"), " name");
    assert_eq!(sort_field_of(""), "");
    assert_eq!(sort_field_of("-"), "");
}

#[test]
fn sort_parameter_that_names_a_field_is_accepted() {
    assert_eq!(check_sort("name"), Ok(SortField::Name));
    assert_eq!(check_sort("-popularity"), Ok(SortField::Popularity));
    assert_eq!(check_sort(" technical "), Ok(SortField::Technical));
}

#[test]
fn sort_parameter_that_names_no_field_is_refused() {
    assert_eq!(check_sort("bogus"), Err(format!("Invalid sort field: bogus. {}", OPTIONS)));
    assert_eq!(check_sort("-Name"), Err(format!("Invalid sort field: Name. {}", OPTIONS)));
    assert_eq!(check_sort(""), Err(format!("Invalid sort field: . {}", OPTIONS)));
    assert_eq!(check_sort("--name"), Err(format!("Invalid sort field: -name. {}", OPTIONS)));
}

#[test]
fn query_holds_the_given_parameters_in_order() {
    assert_eq!(packs_query(None, None, None, None), Ok(vec![]));
    assert_eq!(
        packs_query(
            Some(2),
            Some(20),
            Some("-popularity".to_string()),
            Some("  foo bar ".to_string())
        ),
        Ok(vec![
            pair("page", "2"),
            pair("limit", "20"),
            pair("sort", "-popularity"),
            pair("filter[search]", "foo bar"),
        ])
    );
    assert_eq!(packs_query(None, Some(0), None, None), Ok(vec![pair("limit", "0")]));
}

#[test]
fn sort_is_handed_on_as_given() {
    assert_eq!(
        packs_query(None, None, Some(" -name ".to_string()), None),
        Ok(vec![pair("sort", " -name ")])
    );
}

#[test]
fn blank_search_adds_no_pair() {
    assert_eq!(packs_query(None, None, None, Some("   ".to_string())), Ok(vec![]));
    assert_eq!(packs_query(None, None, None, Some(String::new())), Ok(vec![]));
    assert_eq!(packs_query(Some(1), None, None, Some("\t".to_string())), Ok(vec![pair("page", "1")]));
}

#[test]
fn invalid_sort_refuses_the_whole_query() {
    assert_eq!(
        packs_query(Some(1), Some(2), Some("rating".to_string()), Some("x".to_string())),
        Err(format!("Invalid sort field: rating. {}", OPTIONS))
    );
    assert_eq!(
        packs_url(Some(1), Some(2), Some("rating".to_string()), Some("x".to_string())),
        Err(format!("Invalid sort field: rating. {}", OPTIONS))
    );
}

#[test]
fn url_encodes_the_pairs_as_a_form() {
    assert_eq!(
        packs_url(
            Some(2),
            Some(20),
            Some("-popularity".to_string()),
            Some(" foo bar ".to_string())
        ),
        Ok("https://api.etternaonline.com/api/packs?page=2&limit=20&sort=-popularity&filter%5Bsearch%5D=foo+bar".to_string())
    );
    assert_eq!(
        packs_url(None, None, None, Some("a&b=c".to_string())),
        Ok("https://api.etternaonline.com/api/packs?filter%5Bsearch%5D=a%26b%3Dc".to_string())
    );
}

#[test]
fn url_without_parameters_has_no_query() {
    assert_eq!(
        packs_url(None, None, None, None),
        Ok("https://api.etternaonline.com/api/packs".to_string())
    );
    assert_eq!(
        packs_url(None, None, None, Some("  ".to_string())),
        Ok("https://api.etternaonline.com/api/packs".to_string())
    );
}

#[test]
fn catalog_asks_for_json_from_the_site() {
    assert_eq!(
        request_headers(),
        vec![
            pair("Accept", "application/json, text/plain, */*"),
            pair("Origin", "https://etternaonline.com"),
        ]
    );
}
