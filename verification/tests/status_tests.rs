use http_client::client::HttpClient;

#[test]
fn phrases_from_the_table() {
    assert_eq!(HttpClient::get_status_text(100), "Continue");
    assert_eq!(HttpClient::get_status_text(101), "Switching Protocols");
    assert_eq!(HttpClient::get_status_text(200), "OK");
    assert_eq!(HttpClient::get_status_text(201), "Created");
    assert_eq!(HttpClient::get_status_text(204), "No Content");
    assert_eq!(HttpClient::get_status_text(226), "IM Used");
    assert_eq!(HttpClient::get_status_text(307), "Temporary Redirect");
    assert_eq!(HttpClient::get_status_text(404), "Not Found");
    assert_eq!(HttpClient::get_status_text(418), "I'm a teapot");
    assert_eq!(HttpClient::get_status_text(451), "Unavailable For Legal Reasons");
    assert_eq!(HttpClient::get_status_text(500), "Internal Server Error");
    assert_eq!(HttpClient::get_status_text(511), "Network Authentication Required");
}

#[test]
fn phrase_outside_the_table_is_unknown() {
    assert_eq!(HttpClient::get_status_text(0), "Unknown");
    assert_eq!(HttpClient::get_status_text(42), "Unknown");
    assert_eq!(HttpClient::get_status_text(299), "Unknown");
    assert_eq!(HttpClient::get_status_text(306), "Unknown"); // the one gap inside 300..308
    assert_eq!(HttpClient::get_status_text(600), "Unknown");
    assert_eq!(HttpClient::get_status_text(65535), "Unknown");
}
