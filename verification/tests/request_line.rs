use web_server::request::parse_request;

#[test]
fn get_of_a_file_strips_the_leading_slash() {
    assert_eq!(parse_request("GET /HelloWorld.html HTTP/1.1"), "HelloWorld.html");
}

#[test]
fn get_of_the_root_is_the_index_page() {
    assert_eq!(parse_request("GET / HTTP/1.1"), "index.html");
}

#[test]
fn root_and_index_ask_for_the_same_file() {
    assert_eq!(parse_request("GET / HTTP/1.1"), parse_request("GET /index.html HTTP/1.1"));
}

#[test]
fn get_without_a_version_is_accepted() {
    assert_eq!(parse_request("GET /style.css"), "style.css");
}

#[test]
fn only_one_leading_slash_is_stripped() {
    assert_eq!(parse_request("GET //etc/hosts HTTP/1.1"), "/etc/hosts");
}

#[test]
fn a_path_without_a_slash_is_kept() {
    assert_eq!(parse_request("GET page.html HTTP/1.1"), "page.html");
}

#[test]
fn nested_paths_keep_their_inner_slashes() {
    assert_eq!(parse_request("GET /a/b/c.js HTTP/1.1"), "a/b/c.js");
}

#[test]
fn parent_segments_are_not_rejected() {
    assert_eq!(parse_request("GET /../secret.txt HTTP/1.1"), "../secret.txt");
}

#[test]
fn words_are_split_on_any_run_of_whitespace() {
    assert_eq!(parse_request("  GET \t  /a.png\tHTTP/1.1  "), "a.png");
    assert_eq!(parse_request("GET\u{3000}/wide.gif\u{2028}HTTP/1.1"), "wide.gif");
    assert_eq!(parse_request("GET\u{a0}/nbsp.htm"), "nbsp.htm");
}

#[test]
fn a_query_string_stays_in_the_path() {
    assert_eq!(parse_request("GET /a.html?x=1 HTTP/1.1"), "a.html?x=1");
}

#[test]
fn another_method_falls_back_to_the_index_page() {
    assert_eq!(parse_request("POST /x HTTP/1.1"), "index.html");
    assert_eq!(parse_request("HEAD /x HTTP/1.1"), "index.html");
}

#[test]
fn the_method_is_case_sensitive() {
    assert_eq!(parse_request("get /x HTTP/1.1"), "index.html");
    assert_eq!(parse_request("GETS /x HTTP/1.1"), "index.html");
    assert_eq!(parse_request("GE /x HTTP/1.1"), "index.html");
}

#[test]
fn an_empty_line_falls_back_to_the_index_page() {
    assert_eq!(parse_request(""), "index.html");
    assert_eq!(parse_request("   \t "), "index.html");
}

#[test]
fn a_lone_method_falls_back_to_the_index_page() {
    assert_eq!(parse_request("GET"), "index.html");
    assert_eq!(parse_request("GET   "), "index.html");
}

#[test]
fn a_path_in_another_script_is_kept_whole() {
    assert_eq!(parse_request("GET /caf\u{e9}/\u{65e5}\u{672c}.html HTTP/1.1"), "caf\u{e9}/\u{65e5}\u{672c}.html");
}

#[test]
fn parse_request_agrees_with_splitting_on_whitespace() {
    let lines = [
        "GET /a HTTP/1.1",
        "GET  /",
        "\tGET\t/x/y\t",
        "PUT /a",
        "GET",
        "",
        " ",
        "GET /a/ b",
        "GET\u{85}/next-line",
        "GET\u{1680}/ogham",
        "GET\u{200b}/zero-width",
    ];
    for line in lines {
        let parts: Vec<&str> = line.split_whitespace().collect();
        let expected = if parts.len() >= 2 && parts[0] == "GET" {
            let path = if parts[1] == "/" { "/index.html" } else { parts[1] };
            path.strip_prefix('/').unwrap_or(path).to_string()
        } else {
            "index.html".to_string()
        };
        assert_eq!(parse_request(line), expected, "line {:?}", line);
    }
}
