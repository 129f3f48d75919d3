use omn::handlers::get_records;
use omn::handlers::get_records_given;
use omn::handlers::info;
use omn::json::escape_json;
use omn::json::i32_to_string;
use omn::json::render_records;
use omn::json::render_settings;
use omn::json::u32_to_string;
use omn::settings::Settings;

fn settings_with(db_url: &str) -> Settings {
    Settings {
        host: String::from("0.0.0.0"),
        port: 7878,
        db_url: String::from(db_url),
    }
}

#[test]
fn describe_configuration_renders_the_settings_exactly() {
    let r = info(&settings_with("db://host/db"));
    assert_eq!(r.status, 200);
    assert_eq!(
        r.body,
        "{\"host\":\"0.0.0.0\",\"port\":7878,\"db_url\":\"db://host/db\"}"
    );
}

#[test]
fn describe_configuration_escapes_awkward_strings() {
    let s = Settings {
        host: String::from("a\"b\\c"),
        port: 0,
        db_url: String::from("db://x\ny"),
    };
    let r = info(&s);
    assert_eq!(r.status, 200);
    assert_eq!(
        r.body,
        "{\"host\":\"a\\\"b\\\\c\",\"port\":0,\"db_url\":\"db://x\\ny\"}"
    );
}

#[test]
fn fetch_records_from_an_available_store_yields_the_empty_data_set() {
    let out = get_records_given(&settings_with("db://host/db"), true);
    assert_eq!(out.response.status, 200);
    assert_eq!(out.response.body, "{\"data\":[]}");
    assert_eq!(out.log, None);
}

#[test]
fn fetch_records_from_an_unavailable_store_is_classified() {
    let out = get_records_given(&settings_with("db://host/db"), false);
    assert_eq!(out.response.status, 500);
    assert_eq!(out.response.body, "Some kind of DB problem.");
    assert_eq!(out.log, Some(String::from("Unable to connect to database")));
}

#[test]
fn fetch_records_with_a_bad_address_hides_it_from_the_body_and_logs_it() {
    for available in [true, false] {
        let out = get_records_given(&settings_with("not-a-url"), available);
        assert_eq!(out.response.status, 500);
        assert_eq!(out.response.body, "Some kind of DB problem.");
        assert!(!out.response.body.contains("not-a-url"));
        assert_eq!(out.log, Some(String::from("Invalid db url: `not-a-url`")));
    }
}

#[test]
fn fetch_records_with_the_live_clock_stays_inside_the_contract() {
    let out = get_records(&settings_with("db://host/db"));
    if out.response.status == 200 {
        assert_eq!(out.response.body, "{\"data\":[]}");
        assert_eq!(out.log, None);
    } else {
        assert_eq!(out.response.status, 500);
        assert_eq!(out.response.body, "Some kind of DB problem.");
        assert_eq!(out.log, Some(String::from("Unable to connect to database")));
    }
}

#[test]
fn record_rendering_handles_signs_and_extremes() {
    assert_eq!(render_records(&vec![]), "{\"data\":[]}");
    assert_eq!(render_records(&vec![7]), "{\"data\":[7]}");
    assert_eq!(render_records(&vec![1, -2, 30]), "{\"data\":[1,-2,30]}");
    assert_eq!(
        render_records(&vec![i32::MIN, i32::MAX]),
        "{\"data\":[-2147483648,2147483647]}"
    );
}

#[test]
fn number_rendering_is_exact() {
    assert_eq!(u32_to_string(0), "0");
    assert_eq!(u32_to_string(10), "10");
    assert_eq!(u32_to_string(65535), "65535");
    assert_eq!(u32_to_string(4294967295), "4294967295");
    assert_eq!(i32_to_string(-1), "-1");
    assert_eq!(i32_to_string(0), "0");
}

#[test]
fn escaping_is_exact() {
    assert_eq!(escape_json("plain"), "plain");
    assert_eq!(escape_json("a\"b\\c\nd\re\tf"), "a\\\"b\\\\c\\nd\\re\\tf");
    assert_eq!(escape_json(""), "");
}

#[test]
fn settings_rendering_matches_the_handler() {
    let s = settings_with("db://host/db");
    assert_eq!(render_settings("0.0.0.0", 7878, "db://host/db"), info(&s).body);
}
