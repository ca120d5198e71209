use junit_parser::collect_reports;
use junit_parser::detect_root;
use junit_parser::parse_str;
use junit_parser::ParseError;
use junit_parser::RootKind;
use junit_parser::TestStatus;
use junit_parser::TestSuites;

fn mixed_results_xml() -> String {
    let mut s = String::new();
    s.push_str("<?xml version=\"1.0\" encoding=\"UTF-8\"?>\n");
    s.push_str("<testsuites>\n");
    s.push_str(
        "  <testsuite name=\"com.example.auth.LoginServiceTest\" tests=\"8\" failures=\"2\" errors=\"0\" skipped=\"2\" time=\"4.21\" timestamp=\"2024-03-05T10:15:30\">\n",
    );
    s.push_str("    <properties>\n");
    s.push_str("      <property name=\"env\" value=\"ci\"/>\n");
    s.push_str("      <property name=\"jdk\" value=\"17\"/>\n");
    s.push_str("      <property name=\"os\" value=\"linux\"/>\n");
    s.push_str("    </properties>\n");
    s.push_str("    <testcase classname=\"com.example.auth.LoginServiceTest\" name=\"testLoginWithValidCredentials\" time=\"0.32\"/>\n");
    s.push_str("    <testcase classname=\"com.example.auth.LoginServiceTest\" name=\"testLoginWithInvalidPassword\" time=\"0.18\"/>\n");
    s.push_str("    <testcase classname=\"com.example.auth.LoginServiceTest\" name=\"testLoginWithExpiredToken\" time=\"0.44\">\n");
    s.push_str("      <failure message=\"Expected status 401 but got 500\"><![CDATA[java.lang.AssertionError: status mismatch\n  at LoginServiceTest.java:88]]></failure>\n");
    s.push_str("      <system-out>attempting login with expired token</system-out>\n");
    s.push_str("      <system-err>java.lang.NullPointerException: session was null</system-err>\n");
    s.push_str("    </testcase>\n");
    s.push_str("    <testcase classname=\"com.example.auth.LoginServiceTest\" name=\"testLoginLockout\" time=\"0.21\">\n");
    s.push_str("      <failure message=\"account was not locked out\">lockout counter never advanced</failure>\n");
    s.push_str("    </testcase>\n");
    s.push_str("    <testcase classname=\"com.example.auth.LoginServiceTest\" name=\"testTokenRefresh\" time=\"0.12\"/>\n");
    s.push_str("    <testcase classname=\"com.example.auth.LoginServiceTest\" name=\"testLoginWithSAML\">\n");
    s.push_str("      <skipped>SAML broker unavailable in this environment</skipped>\n");
    s.push_str("    </testcase>\n");
    s.push_str("    <testcase classname=\"com.example.auth.LoginServiceTest\" name=\"testLoginWithOAuth\">\n");
    s.push_str("      <skipped/>\n");
    s.push_str("    </testcase>\n");
    s.push_str("    <testcase classname=\"com.example.auth.LoginServiceTest\" name=\"testLogout\" time=\"0.09\"/>\n");
    s.push_str("  </testsuite>\n");
    s.push_str(
        "  <testsuite name=\"com.example.api.GatewayTest\" tests=\"10\" failures=\"1\" errors=\"1\" time=\"12.77\">\n",
    );
    s.push_str("    <testcase name=\"testRouteLookup\"/>\n");
    s.push_str("    <testcase name=\"testHeaderForwarding\"/>\n");
    s.push_str("    <testcase name=\"testRateLimiting\"/>\n");
    s.push_str("    <testcase name=\"testRetryPolicy\">\n");
    s.push_str("      <failure message=\"retry count exceeded\"/>\n");
    s.push_str("    </testcase>\n");
    s.push_str("    <testcase name=\"testCircuitBreaker\"/>\n");
    s.push_str("    <testcase name=\"testLoadShedding\"/>\n");
    s.push_str("    <testcase name=\"testHealthEndpoint\"/>\n");
    s.push_str("    <testcase name=\"testMetricsEndpoint\"/>\n");
    s.push_str("    <testcase name=\"testConnectionTimeout\">\n");
    s.push_str("      <error message=\"connection timed out after 30s\">upstream never answered</error>\n");
    s.push_str("    </testcase>\n");
    s.push_str("    <testcase name=\"testGracefulShutdown\"/>\n");
    s.push_str("  </testsuite>\n");
    s.push_str(
        "  <testsuite name=\"com.example.ui.SmokeTest\" tests=\"6\" failures=\"0\" errors=\"0\" skipped=\"2\">\n",
    );
    s.push_str("    <testcase name=\"testLandingPage\"/>\n");
    s.push_str("    <testcase name=\"testDashboard\">\n");
    s.push_str("      <skipped>requires a display</skipped>\n");
    s.push_str("    </testcase>\n");
    s.push_str("  </testsuite>\n");
    s.push_str("</testsuites>\n");
    s
}

fn aunit_avionics_xml() -> String {
    let mut s = String::new();
    s.push_str("<?xml version=\"1.0\"?>\n");
    s.push_str("<testsuite name=\"flight_control_checks\" tests=\"20\" failures=\"8\" errors=\"2\" time=\"1.04\">\n");
    s.push_str("  <testcase name=\"altimeter_range\"/>\n");
    s.push_str("  <testcase name=\"pitot_heat\">\n");
    s.push_str("    <failure message=\"heater stayed cold\"/>\n");
    s.push_str("  </testcase>\n");
    s.push_str("</testsuite>\n");
    s
}

fn cpp_checks_xml() -> String {
    let mut s = String::new();
    s.push_str("<?xml version=\"1.0\" encoding=\"UTF-8\"?>\n");
    s.push_str("<testsuites>\n");
    s.push_str("  <testsuite name=\"factorial\" tests=\"5\" failures=\"0\" errors=\"0\">\n");
    s.push_str("    <testcase name=\"factorial_of_zero\"/>\n");
    s.push_str("    <testcase name=\"factorial_of_five\"/>\n");
    s.push_str("  </testsuite>\n");
    s.push_str("  <testsuite name=\"failing_checks\" tests=\"21\" failures=\"19\" errors=\"1\">\n");
    s.push_str("    <testcase name=\"always_fails\">\n");
    s.push_str("      <failure message=\"check failed\"/>\n");
    s.push_str("    </testcase>\n");
    s.push_str("  </testsuite>\n");
    s.push_str("</testsuites>\n");
    s
}

fn parse_mixed() -> TestSuites {
    parse_str(&mixed_results_xml()).unwrap()
}

#[test]
fn parse_mixed_results() {
    let suites = parse_mixed();

    assert_eq!(suites.suites.len(), 3);
    assert_eq!(suites.total_tests(), 24);
    assert_eq!(suites.total_failures(), 3);
    assert_eq!(suites.total_errors(), 1);
    assert_eq!(suites.total_skipped(), 4);

    let auth_suite = &suites.suites[0];
    assert_eq!(auth_suite.name, "com.example.auth.LoginServiceTest");
    assert_eq!(auth_suite.test_cases.len(), 8);
}

#[test]
fn parse_failure_with_cdata() {
    let suites = parse_mixed();
    let tc = &suites.suites[0].test_cases[2];
    assert_eq!(tc.name, "testLoginWithExpiredToken");
    assert_eq!(tc.status(), TestStatus::Failed);

    let failure = tc.failure.as_ref().unwrap();
    assert!(failure.message.as_ref().unwrap().contains("401"));
    assert!(failure.body.as_ref().unwrap().contains("AssertionError"));
}

#[test]
fn parse_system_out_and_err() {
    let suites = parse_mixed();
    let tc = &suites.suites[0].test_cases[2];
    assert!(tc.system_out.as_ref().unwrap().contains("expired token"));
    assert!(tc
        .system_err
        .as_ref()
        .unwrap()
        .contains("NullPointerException"));
}

#[test]
fn parse_skipped_test() {
    let suites = parse_mixed();
    let tc = &suites.suites[0].test_cases[5];
    assert_eq!(tc.name, "testLoginWithSAML");
    assert_eq!(tc.status(), TestStatus::Skipped);
}

#[test]
fn parse_error_test() {
    let suites = parse_mixed();
    let tc = &suites.suites[1].test_cases[8];
    assert_eq!(tc.name, "testConnectionTimeout");
    assert_eq!(tc.status(), TestStatus::Errored);
    assert!(tc
        .error
        .as_ref()
        .unwrap()
        .message
        .as_ref()
        .unwrap()
        .contains("timed out"));
}

#[test]
fn parse_properties() {
    let suites = parse_mixed();
    let props = suites.suites[0].properties.as_ref().unwrap();
    assert_eq!(props.properties.len(), 3);

    let env_prop = props.properties.iter().find(|p| p.name == "env").unwrap();
    assert_eq!(env_prop.value, "ci");
}

#[test]
fn parse_testsuite_root() {
    let suites = parse_str(&aunit_avionics_xml()).unwrap();
    assert_eq!(suites.suites.len(), 1);
    assert_eq!(suites.total_tests(), 20);
    assert_eq!(suites.total_failures(), 8);
    assert_eq!(suites.total_errors(), 2);
}

#[test]
fn parse_cpp_checks() {
    let suites = parse_str(&cpp_checks_xml()).unwrap();
    assert_eq!(suites.suites.len(), 2);
    assert_eq!(suites.suites[0].name, "factorial");
    assert_eq!(suites.suites[1].name, "failing_checks");
    assert_eq!(suites.total_failures(), 19);
    assert_eq!(suites.total_errors(), 1);
}

#[test]
fn parse_directory_returns_all_files() {
    let entries = vec![
        ("sample-mixed-results.xml".to_string(), mixed_results_xml()),
        ("sample-cpp-checks.xml".to_string(), cpp_checks_xml()),
        ("release-notes.txt".to_string(), "not a report".to_string()),
        ("sample-aunit-avionics.xml".to_string(), aunit_avionics_xml()),
    ];
    let results = collect_reports(entries).unwrap();
    assert_eq!(results.len(), 3);
    assert!(results[0].0.contains("aunit"));
    assert!(results[1].0.contains("cpp"));
    assert!(results[2].0.contains("mixed"));
}

#[test]
fn parse_passing_test() {
    let suites = parse_mixed();
    let tc = &suites.suites[0].test_cases[0];
    assert_eq!(tc.name, "testLoginWithValidCredentials");
    assert_eq!(tc.status(), TestStatus::Passed);
}

#[test]
fn total_passed_calculation() {
    let suites = parse_mixed();
    assert_eq!(suites.total_passed(), 16);
}

#[test]
fn detect_root_both_conventions() {
    assert_eq!(detect_root(&mixed_results_xml()), RootKind::WrapperRoot);
    assert_eq!(detect_root(&aunit_avionics_xml()), RootKind::BareSuiteRoot);
    assert_eq!(
        detect_root("<testsuite tests=\"1\"></testsuite>"),
        RootKind::BareSuiteRoot
    );
    assert_eq!(detect_root("<report/>"), RootKind::WrapperRoot);
}

#[test]
fn bare_root_copies_declared_totals() {
    let suites = parse_str(&aunit_avionics_xml()).unwrap();
    assert_eq!(suites.tests, Some(20));
    assert_eq!(suites.failures, Some(8));
    assert_eq!(suites.errors, Some(2));
    assert_eq!(suites.skipped, None);
}

#[test]
fn cdata_and_escaped_bodies_agree() {
    let escaped = parse_str(
        "<testsuite tests=\"1\"><testcase name=\"t\"><failure>line &lt;1&gt; &amp; line \"2\"</failure></testcase></testsuite>",
    )
    .unwrap();
    let cdata = parse_str(
        "<testsuite tests=\"1\"><testcase name=\"t\"><failure><![CDATA[line <1> & line \"2\"]]></failure></testcase></testsuite>",
    )
    .unwrap();
    let a = escaped.suites[0].test_cases[0]
        .failure
        .as_ref()
        .unwrap()
        .body
        .as_ref()
        .unwrap()
        .clone();
    let b = cdata.suites[0].test_cases[0]
        .failure
        .as_ref()
        .unwrap()
        .body
        .as_ref()
        .unwrap()
        .clone();
    assert_eq!(a, b);
    assert_eq!(a, "line <1> & line \"2\"");
}

#[test]
fn attribute_values_are_unescaped() {
    let suites = parse_str(
        "<testsuite tests=\"1\" name=\"a &amp; b &lt;c&gt;\"><testcase name=\"t\"/></testsuite>",
    )
    .unwrap();
    assert_eq!(suites.suites[0].name, "a & b <c>");
}

#[test]
fn skipped_marker_without_suite_attribute() {
    let suites = parse_str(
        "<testsuite tests=\"3\"><testcase name=\"only\"><skipped/></testcase></testsuite>",
    )
    .unwrap();
    let tc = &suites.suites[0].test_cases[0];
    assert_eq!(tc.status(), TestStatus::Skipped);
    assert!(tc.skipped.as_ref().unwrap().message.is_none());
    assert_eq!(suites.total_skipped(), 0);
    assert_eq!(suites.total_passed(), 3);
}

#[test]
fn marker_precedence_failure_first() {
    let suites = parse_str(
        "<testsuite tests=\"1\"><testcase name=\"t\"><skipped/><failure message=\"x\"/><error message=\"y\"/></testcase></testsuite>",
    )
    .unwrap();
    assert_eq!(suites.suites[0].test_cases[0].status(), TestStatus::Failed);
    let without_failure = parse_str(
        "<testsuite tests=\"1\"><testcase name=\"t\"><skipped/><error message=\"y\"/></testcase></testsuite>",
    )
    .unwrap();
    assert_eq!(
        without_failure.suites[0].test_cases[0].status(),
        TestStatus::Errored
    );
}

#[test]
fn saturating_passed_never_underflows() {
    let suites = parse_str(
        "<testsuite tests=\"2\" failures=\"5\" errors=\"1\" skipped=\"3\"></testsuite>",
    )
    .unwrap();
    assert_eq!(suites.total_passed(), 0);
}

#[test]
fn declared_counters_default_to_zero() {
    let suites = parse_str("<testsuite name=\"bare\"><testcase name=\"t\"/></testsuite>").unwrap();
    assert_eq!(suites.total_tests(), 0);
    assert_eq!(suites.total_failures(), 0);
    assert_eq!(suites.total_errors(), 0);
    assert_eq!(suites.suites[0].skipped, None);
}

#[test]
fn malformed_document_is_rejected() {
    let e = parse_str("<testsuite tests=\"1\">").unwrap_err();
    assert!(matches!(e, ParseError::MalformedXml { .. }));
    let e2 = parse_str("plain text, no markup").unwrap_err();
    assert!(matches!(e2, ParseError::MalformedXml { .. }));
    let e3 = parse_str("<testsuite tests=\"not-a-number\"/>").unwrap_err();
    assert!(matches!(e3, ParseError::MalformedXml { .. }));
    let e4 = parse_str("<testsuite tests=\"99999999999999999999\"/>").unwrap_err();
    assert!(matches!(e4, ParseError::MalformedXml { .. }));
    let e5 = parse_str("<a><b></a></b>").unwrap_err();
    assert!(matches!(e5, ParseError::MalformedXml { .. }));
}

#[test]
fn empty_scan_is_its_own_condition() {
    let none: Vec<(String, String)> = vec![];
    assert!(matches!(
        collect_reports(none),
        Err(ParseError::EmptyCollection)
    ));
    let unrecognized = vec![("readme.md".to_string(), "hello".to_string())];
    assert!(matches!(
        collect_reports(unrecognized),
        Err(ParseError::EmptyCollection)
    ));
}

#[test]
fn scan_failure_names_the_file() {
    let entries = vec![
        ("good.xml".to_string(), "<testsuite tests=\"1\"/>".to_string()),
        ("bad.xml".to_string(), "<broken".to_string()),
    ];
    match collect_reports(entries) {
        Err(ParseError::MalformedXml { path, .. }) => {
            assert_eq!(path.as_deref(), Some("bad.xml"));
        }
        other => panic!("expected a malformed-document error, got {:?}", other.is_ok()),
    }
}

#[test]
fn error_messages_carry_context() {
    let io = ParseError::IoError {
        path: "missing.xml".to_string(),
        detail: "no such file".to_string(),
    };
    assert_eq!(io.message(), "failed to read missing.xml: no such file");
    let bad = ParseError::MalformedXml {
        detail: "oops".to_string(),
        path: Some("x.xml".to_string()),
    };
    assert_eq!(bad.message(), "failed to parse x.xml: oops");
    assert_eq!(
        ParseError::EmptyCollection.message(),
        "no recognized report files found"
    );
}

#[test]
fn wrapper_summary_attributes_are_kept() {
    let suites = parse_str(
        "<testsuites tests=\"9\" failures=\"1\" errors=\"0\" skipped=\"2\"><testsuite name=\"s\" tests=\"9\" failures=\"1\" errors=\"0\" skipped=\"2\"/></testsuites>",
    )
    .unwrap();
    assert_eq!(suites.tests, Some(9));
    assert_eq!(suites.failures, Some(1));
    assert_eq!(suites.errors, Some(0));
    assert_eq!(suites.skipped, Some(2));
}

#[test]
fn empty_wrapper_has_zero_totals() {
    let suites = parse_str("<testsuites></testsuites>").unwrap();
    assert_eq!(suites.suites.len(), 0);
    assert_eq!(suites.total_tests(), 0);
    assert_eq!(suites.total_passed(), 0);
}

#[test]
fn unrecognized_elements_are_ignored() {
    let suites = parse_str(
        "<testsuites><metadata><tool name=\"runner\"/></metadata><testsuite name=\"s\" tests=\"1\"><banner/><testcase name=\"t\"/></testsuite></testsuites>",
    )
    .unwrap();
    assert_eq!(suites.suites.len(), 1);
    assert_eq!(suites.suites[0].test_cases.len(), 1);
}

#[test]
fn comments_and_instructions_are_skipped() {
    let suites = parse_str(
        "<?xml version=\"1.0\"?><!-- nightly run --><testsuite tests=\"1\"><!-- inner --><testcase name=\"t\"/></testsuite><!-- done -->",
    )
    .unwrap();
    assert_eq!(suites.suites.len(), 1);
    assert_eq!(suites.total_tests(), 1);
}

#[test]
fn suite_passed_count_floors_at_zero() {
    let suites = parse_str(
        "<testsuites><testsuite name=\"a\" tests=\"10\" failures=\"2\" errors=\"1\" skipped=\"3\"/><testsuite name=\"b\" tests=\"1\" failures=\"4\"/></testsuites>",
    )
    .unwrap();
    assert_eq!(suites.suites[0].passed(), 4);
    assert_eq!(suites.suites[1].passed(), 0);
}

#[test]
fn single_quoted_attributes_are_accepted() {
    let suites =
        parse_str("<testsuite tests='2' name='q'><testcase name='a'/></testsuite>").unwrap();
    assert_eq!(suites.total_tests(), 2);
    assert_eq!(suites.suites[0].name, "q");
}

#[test]
fn close_tags_may_hold_whitespace() {
    let suites =
        parse_str("<testsuite tests=\"1\"><testcase name=\"t\"></testcase ></testsuite\n>")
            .unwrap();
    assert_eq!(suites.suites[0].test_cases.len(), 1);
}
