use scouting_api::cors::{FairingKind, CORS};
use scouting_api::forms::{pits_post, scouting_post_test, test_post, FormData, PitData, Toggle};
use scouting_api::guards::{passwords, ApiKey, ApiKeyError, PassKey};
use scouting_api::logging::{failure_message, log_line, LogLevel};
use scouting_api::routes::{after_append, all_options, index, scouting_delete_reply, sensitive, teapot};
use scouting_api::scouting::{scouting_post, sort_by_category, Data, ScoutEntry};
use scouting_api::status::HttpStatus;
use scouting_api::text::{remove_commas, text_eq, text_less};

fn s(t: &str) -> String {
    t.to_string()
}

fn entry(key: &str, category: &str, content: &str) -> ScoutEntry {
    ScoutEntry { key: s(key), category: s(category), content: s(content) }
}

fn form(password: &str, playstyle: &str) -> FormData {
    FormData {
        team: s("4198"),
        matchnum: s("12"),
        absent: s("false"),
        name: s("Doe, Jane"),
        location: s("red1"),
        teamleftcommu: s("true"),
        teamcollected: s("yes"),
        autochargesta: s("docked"),
        toggletesting: (0..27).map(|i| Toggle { value: format!("{}", i % 3) }).collect(),
        defenseplayti: s("2.5"),
        defensiverati: s("3"),
        teamattemptsc: s("no"),
        chargestation: s("engaged"),
        anyrobotprobl: s("none"),
        fouls: s("1,2"),
        extranotes: s("fast, agile"),
        driveteamrati: s("4"),
        playstylesumm: s(playstyle),
        password: s(password),
    }
}

fn pit(password: &str) -> PitData {
    PitData {
        team: s("4198"),
        absent: s("false"),
        name: s("Sam"),
        location: s("pit 3"),
        fullteamname: s("Team, Full"),
        teamlocation: s("Town, State"),
        robotname: s("Bot"),
        drivetraintype: s("swerve"),
        motortype: s("NEO"),
        abilitytomoveco: s("yes"),
        abilitytomovecu: s("yes"),
        averageconecycl: s("10"),
        averagecubecycl: s("12"),
        successfullgrab: s("90"),
        robotweightlbs: s("120"),
        maxheightcapabi: s("6"),
        totalwheelsused: s("4"),
        wherearepneumat: s("none"),
        whereare3dprint: s("arm, claw"),
        programmedautoc: s("yes"),
        apriltagsused: s("yes"),
        reflectivetapeu: s("no"),
        extracamerasuse: s("1"),
        automationviase: s("no"),
        endgameabilitys: s("dock"),
        whatisyourfavor: s("pizza"),
        drivestationsum: s("good"),
        arethereanyothe: s("no, thanks"),
        password: s(password),
    }
}

#[test]
fn api_key_missing_is_bad_request() {
    let r = ApiKey::from_request(None);
    assert!(matches!(r, Err((HttpStatus::BadRequest, ApiKeyError::Missing))));
}

#[test]
fn api_key_invalid_is_bad_request() {
    let r = ApiKey::from_request(Some("valid_api_key "));
    assert!(matches!(r, Err((HttpStatus::BadRequest, ApiKeyError::Invalid))));
    let r = ApiKey::from_request(Some(""));
    assert!(matches!(r, Err((HttpStatus::BadRequest, ApiKeyError::Invalid))));
}

#[test]
fn api_key_valid_is_accepted() {
    let r = ApiKey::from_request(Some("valid_api_key"));
    match r {
        Ok(key) => assert_eq!(key.key(), "valid_api_key"),
        Err(_) => panic!("the valid key was refused"),
    }
    assert!(ApiKey::is_valid("valid_api_key"));
    assert!(!ApiKey::is_valid("VALID_API_KEY"));
}

#[test]
fn pass_key_checks() {
    assert!(matches!(PassKey::from_request(None), Err((HttpStatus::Unauthorized, ApiKeyError::Missing))));
    assert!(matches!(
        PassKey::from_request(Some("changeme!")),
        Err((HttpStatus::Unauthorized, ApiKeyError::Invalid))
    ));
    match PassKey::from_request(Some("ChangeMe!")) {
        Ok(key) => assert_eq!(key.key(), "ChangeMe!"),
        Err(_) => panic!("the password was refused"),
    }
    assert_eq!(passwords(), vec![s("ChangeMe!")]);
    assert!(PassKey::is_valid("ChangeMe!", passwords()));
    assert!(!PassKey::is_valid("ChangeMe", passwords()));
}

#[test]
fn status_codes() {
    assert_eq!(HttpStatus::Accepted.code(), 202);
    assert_eq!(HttpStatus::BadRequest.code(), 400);
    assert_eq!(HttpStatus::Unauthorized.code(), 401);
    assert_eq!(HttpStatus::ImATeapot.code(), 418);
}

#[test]
fn fixed_answers() {
    assert_eq!(index(), "Hello, world!");
    let key = ApiKey::from_request(Some("valid_api_key")).unwrap();
    assert_eq!(sensitive(key), "Sensitive data.");
    assert_eq!(scouting_delete_reply(), "Wiped data.csv");
    assert_eq!(teapot(), HttpStatus::ImATeapot);
    assert_eq!(teapot().code(), 418);
    all_options();
}

#[test]
fn text_order_and_equality() {
    assert!(text_less("a", "b"));
    assert!(text_less("ab", "b"));
    assert!(text_less("a", "ab"));
    assert!(text_less("", "a"));
    assert!(!text_less("b", "ab"));
    assert!(!text_less("abc", "abc"));
    assert!(text_less("Z", "a"));
    assert!(text_less("é", "ê"));
    assert!(text_eq("héllo", "héllo"));
    assert!(!text_eq("hello", "hell"));
    assert!(!text_eq("hello", "hellp"));
}

#[test]
fn commas_are_removed() {
    assert_eq!(remove_commas("a,b,,c"), "abc");
    assert_eq!(remove_commas(",,,"), "");
    assert_eq!(remove_commas("no commas here"), "no commas here");
    assert_eq!(remove_commas("ü,ß"), "üß");
}

#[test]
fn sort_is_by_category_and_stable() {
    let entries = vec![
        entry("k1", "b", "1"),
        entry("k2", "a", "2"),
        entry("k3", "b", "3"),
        entry("k4", "a", "4"),
        entry("k5", "ab", "5"),
    ];
    let sorted = sort_by_category(&entries);
    let keys: Vec<&str> = sorted.iter().map(|e| e.key.as_str()).collect();
    assert_eq!(keys, vec!["k2", "k4", "k5", "k1", "k3"]);
}

#[test]
fn scouting_row_sorted_without_commas() {
    let data = Data {
        data: vec![
            entry("team", "2-team", "\"4198\""),
            entry("notes", "9-notes", "\"fast, agile, sturdy\""),
            entry("name", "1-name", "\"Doe, Jane\""),
            entry("score", "5-score", "12"),
        ],
    };
    let row = scouting_post(&data);
    assert_eq!(row, "\"Doe Jane\", \"4198\", 12, \"fast agile sturdy\", ");
    assert_eq!(row.matches(',').count(), 4);
}

#[test]
fn scouting_row_of_empty_report() {
    assert_eq!(scouting_post(&Data { data: vec![] }), "");
}

#[test]
fn match_form_full_row() {
    let row = scouting_post_test(&form("ChangeMe!", "aggressive, quick")).unwrap();
    let toggles: Vec<String> = (0..27).map(|i| format!("{}", i % 3)).collect();
    let expected = format!(
        "4198, 12, FALSE, Doe Jane, red1, TRUE, YES, docked, {}, 2.5, 3, NO, ENGAGED, none, 12, fast agile, 4, aggressive quick",
        toggles.join(", ")
    );
    assert_eq!(row, expected);
}

#[test]
fn match_form_field_equal_to_last_has_no_separator() {
    // the switch values "0", "1", "2": a closing field "1" ends every "1" switch too
    let row = scouting_post_test(&form("ChangeMe!", "1")).unwrap();
    let toggles: String = (0..27)
        .map(|i| if i % 3 == 1 { s("1") } else { format!("{}, ", i % 3) })
        .collect();
    let expected = format!(
        "4198, 12, FALSE, Doe Jane, red1, TRUE, YES, docked, {}2.5, 3, NO, ENGAGED, none, 12, fast agile, 4, 1",
        toggles
    );
    assert_eq!(row, expected);
}

#[test]
fn match_form_wrong_password() {
    let mut f = form("nope", "x");
    assert_eq!(scouting_post_test(&f).unwrap_err(), HttpStatus::Unauthorized);
    assert_eq!(test_post(&f).unwrap_err(), HttpStatus::Unauthorized);
    // with a refused password the switches are not read
    f.toggletesting = vec![];
    assert_eq!(scouting_post_test(&f).unwrap_err(), HttpStatus::Unauthorized);
}

#[test]
fn match_form_short_row() {
    let row = test_post(&form("ChangeMe!", "calm")).unwrap();
    assert_eq!(
        row,
        "4198, 12, FALSE, Doe Jane, red1, TRUE, YES, docked, 2.5, 3, NO, ENGAGED, none, 12, fast agile, 4, calm"
    );
}

#[test]
fn match_form_short_row_closing_field_with_comma() {
    // the closing field's text with commas differs from the same text without them
    let row = test_post(&form("ChangeMe!", "calm, steady")).unwrap();
    assert_eq!(
        row,
        "4198, 12, FALSE, Doe Jane, red1, TRUE, YES, docked, 2.5, 3, NO, ENGAGED, none, 12, fast agile, 4, calm steady, "
    );
}

#[test]
fn pit_form_row() {
    let row = pits_post(&pit("ChangeMe!")).unwrap();
    assert_eq!(
        row,
        "4198, false, Sam, pit 3, Team Full, Town State, Bot, swerve, NEO, yes, yes, 10, 12, 90, 120, 6, 4, none, arm claw, yes, yes, no, 1, no, dock, pizza, good, no thanks, "
    );
    let mut p = pit("ChangeMe!");
    p.arethereanyothe = s("nothing");
    let row = pits_post(&p).unwrap();
    assert!(row.ends_with("good, nothing"));
    assert_eq!(pits_post(&pit("changeme")).unwrap_err(), HttpStatus::Unauthorized);
}

#[test]
fn cors_fairing() {
    let info = CORS.info();
    assert_eq!(info.name, "Add CORS headers to responses");
    assert_eq!(info.kind, FairingKind::Response);
    assert_eq!(
        CORS.on_response(),
        vec![
            ("Access-Control-Allow-Origin", "*"),
            ("Access-Control-Allow-Methods", "POST, GET, PATCH, OPTIONS"),
            ("Access-Control-Allow-Headers", "*"),
            ("Access-Control-Allow-Credentials", "true"),
        ]
    );
}

#[test]
fn log_lines() {
    assert_eq!(
        log_line(LogLevel::Success, "[2024-03-01][10:00:00]", "Started API"),
        "[ SUCCESS ] [2024-03-01][10:00:00] - Started API"
    );
    assert_eq!(log_line(LogLevel::Warning, "t", "m"), "[ WARNING ] t - m");
    assert_eq!(log_line(LogLevel::Error, "t", "m"), "[ ERROR ] t - m");
    assert_eq!(failure_message("disk full"), "Uh oh, disk full");
}

#[test]
fn commas_typed_into_fields_do_not_reach_the_row() {
    let plain = form("ChangeMe!", "steady");
    let mut typed = form("ChangeMe!", "st,eady");
    typed.name = s("Doe,,, Jane");
    typed.location = s(",red1,");
    typed.fouls = s("1,,2");
    typed.defenseplayti = s("2,.5");
    assert_eq!(scouting_post_test(&plain).unwrap(), scouting_post_test(&typed).unwrap());
}

#[test]
fn report_row_ignores_answer_order() {
    let a = vec![
        entry("x", "3", "\"c\""),
        entry("y", "1", "\"a, b\""),
        entry("z", "2", "7"),
    ];
    let b = vec![
        entry("z", "2", "7"),
        entry("x", "3", "\"c\""),
        entry("y", "1", "\"a, b\""),
    ];
    let row_a = scouting_post(&Data { data: a });
    let row_b = scouting_post(&Data { data: b });
    assert_eq!(row_a, "\"a b\", 7, \"c\", ");
    assert_eq!(row_a, row_b);
}

#[test]
fn answer_after_a_write() {
    let (s1, m1) = after_append(None);
    assert_eq!(s1, HttpStatus::Accepted);
    assert_eq!(m1, None);
    let (s2, m2) = after_append(Some("disk full"));
    assert_eq!(s2, HttpStatus::Accepted);
    assert_eq!(m2, Some(s("Uh oh, disk full")));
}

#[test]
fn commas_typed_into_switches_do_not_reach_the_row() {
    let plain = form("ChangeMe!", "steady");
    let mut typed = form("ChangeMe!", "steady");
    typed.toggletesting[3].value = s(",0,");
    typed.toggletesting[26].value = s("2,");
    assert_eq!(scouting_post_test(&plain).unwrap(), scouting_post_test(&typed).unwrap());
}
