//! Endpoint façades: exact request shapes, and template rendering.

use rest_shim::client::Client;
use rest_shim::domains::Domains;
use rest_shim::http::{EncodeError, Method};
use rest_shim::job_applicants_beta::JobApplicantsBeta;
use rest_shim::payroll::Payroll;
use rest_shim::template::{render, PathPart, PathTemplate};

fn client() -> Client {
    Client::new(b"https://api.example.test".to_vec(), b"SECRET-REDACTED".to_vec())
}

#[test]
fn client_full_url_prepends_base() {
    let c = client();
    let url = c.full_url(b"/v1/ping");
    assert_eq!(url, b"https://api.example.test/v1/ping".to_vec());
}

#[test]
fn domains_list_builds_encoded_path() {
    let d = Domains::new(client());
    let req = d.directory_list("C 01/ab");
    assert_eq!(req.method, Method::Get);
    assert!(req.body.is_none());
    assert_eq!(req.path, b"/admin/directory/v1/customer/C%2001%2Fab/domains".to_vec());
}

#[test]
fn domains_get_and_delete_encode_both_segments() {
    let d = Domains::new(client());
    let get = d.directory_get("acme", "ex ample.com");
    assert_eq!(get.method, Method::Get);
    assert_eq!(get.path, b"/admin/directory/v1/customer/acme/domains/ex%20ample.com".to_vec());
    let del = d.directory_delete("acme", "ex ample.com");
    assert_eq!(del.method, Method::Delete);
    assert_eq!(del.path, get.path);
}

#[test]
fn domains_insert_serializes_body() {
    let d = Domains::new(client());
    let mut body = serde_json::Map::new();
    body.insert("domainName".to_string(), serde_json::Value::String("example.org".to_string()));
    let body = serde_json::Value::Object(body);
    let req = d.directory_insert("acme", &body);
    assert_eq!(req.method, Method::Post);
    assert_eq!(req.path, b"/admin/directory/v1/customer/acme/domains".to_vec());
    let sent = req.body.expect("a POST carries a body");
    assert_eq!(sent, serde_json::to_vec(&body).unwrap());
    let round: serde_json::Value = serde_json::from_slice(&sent).expect("body is JSON");
    assert_eq!(round, body);
}

#[test]
fn job_applicants_list_and_list_all_share_the_path() {
    let j = JobApplicantsBeta::new(client());
    let one = j.get_v_1_companies_company_id_job_applicants("co 7");
    assert_eq!(one.method, Method::Get);
    assert_eq!(one.path, b"/v1/companies/co%207/job_applicants".to_vec());
    let all: rest_shim::paginate::Walker<serde_json::Value> =
        j.get_all_v_1_companies_company_id_job_applicants("co 7");
    assert_eq!(all.next_request(), Some(one.path.clone()));
}

#[test]
fn job_applicant_update_and_delete_target_one_applicant() {
    let j = JobApplicantsBeta::new(client());
    let body = serde_json::Value::Null;
    let put = j.put_v_1_companies_company_id_job_applicants_job_applicant_uuid("co", "uu id", &body);
    assert_eq!(put.method, Method::Put);
    assert_eq!(put.path, b"/v1/companies/co/job_applicants/uu%20id".to_vec());
    assert!(put.body.is_some());
    let del = j.delete_v_1_companies_company_id_job_applicants_job_applicant_uuid("co", "uu id");
    assert_eq!(del.method, Method::Delete);
    assert_eq!(del.path, put.path);
    assert!(del.body.is_none());
}

#[test]
fn pay_periods_query_keeps_endpoint_order() {
    let p = Payroll::new(client());
    let req = p.get_company_pay_periods("co", "2020-01-01", "2020-12-31");
    assert_eq!(req.method, Method::Get);
    assert_eq!(
        req.path,
        b"/v1/companies/co/pay_periods?start_date=2020-01-01&end_date=2020-12-31".to_vec()
    );
}

#[test]
fn pay_periods_empty_dates_leave_bare_query() {
    let p = Payroll::new(client());
    let req = p.get_company_pay_periods("co", "", "");
    assert_eq!(req.path, b"/v1/companies/co/pay_periods?".to_vec());
    let all: rest_shim::paginate::Walker<serde_json::Value> =
        p.get_all_company_pay_periods("co", "", "");
    assert_eq!(all.next_request(), Some(req.path.clone()));
}

#[test]
fn payrolls_query_includes_flags_and_joined_attributes() {
    let p = Payroll::new(client());
    let includes = vec!["benefits".to_string(), "deductions".to_string()];
    let req = p.get_company_payrolls("co", true, false, &includes, "", "2020-12-31");
    assert_eq!(
        req.path,
        b"/v1/companies/co/payrolls?processed=true&include=benefits%20deductions&end_date=2020-12-31"
            .to_vec()
    );
    let none: Vec<String> = Vec::new();
    let bare = p.get_company_payrolls("co", false, false, &none, "", "");
    assert_eq!(bare.path, b"/v1/companies/co/payrolls?".to_vec());
}

#[test]
fn payrolls_list_all_walks_the_same_listing() {
    let p = Payroll::new(client());
    let includes: Vec<String> = Vec::new();
    let one = p.get_company_payrolls("co", false, true, &includes, "2021-01-01", "");
    let all: rest_shim::paginate::Walker<serde_json::Value> =
        p.get_all_company_payrolls("co", false, true, &includes, "2021-01-01", "");
    assert_eq!(all.next_request(), Some(one.path.clone()));
    assert_eq!(
        one.path,
        b"/v1/companies/co/payrolls?include_off_cycle=true&start_date=2021-01-01".to_vec()
    );
}

#[test]
fn payroll_by_id_always_sends_include() {
    let p = Payroll::new(client());
    let req = p.get_company_payrolls_payroll_id("co", "42", "benefits", "");
    assert_eq!(req.path, b"/v1/companies/co/payrolls/42?include=benefits".to_vec());
    let with = p.get_company_payrolls_payroll_id("co", "42", "benefits", "true");
    assert_eq!(
        with.path,
        b"/v1/companies/co/payrolls/42?include=benefits&show_calculation=true".to_vec()
    );
}

#[test]
fn payroll_mutations_build_expected_requests() {
    let p = Payroll::new(client());
    let body = serde_json::Value::Null;
    let post = p.post_company_payrolls("co", &body);
    assert_eq!(post.method, Method::Post);
    assert_eq!(post.path, b"/v1/companies/co/payrolls".to_vec());
    assert_eq!(post.body, Some(serde_json::to_vec(&body).unwrap()));
    let put = p.put_company_payrolls("co", "42", &body);
    assert_eq!(put.method, Method::Put);
    assert_eq!(put.path, b"/v1/companies/co/payrolls/42".to_vec());
    let by_dates = p.put_company_payrolls_pay_period_start_date_pay_period_end_date(
        "co",
        "2020-01-01",
        "2020-01-15",
        &body,
    );
    assert_eq!(by_dates.path, b"/v1/companies/co/payrolls/2020-01-01/2020-01-15".to_vec());
}

#[test]
fn payroll_transitions_build_expected_paths() {
    let p = Payroll::new(client());
    let calc = p.put_company_payrolls_payroll_id_calculate("co", "42");
    assert_eq!(calc.method, Method::Put);
    assert!(calc.body.is_none());
    assert_eq!(calc.path, b"/v1/companies/co/payrolls/42/calculate".to_vec());
    let submit = p.put_company_payrolls_payroll_id_submit("co", "42");
    assert_eq!(submit.path, b"/v1/companies/co/payrolls/42/submit".to_vec());
    let cancel = p.put_api_company_payrolls_payroll_id_cancel("co", "42");
    assert_eq!(cancel.path, b"/v1/companies/co/payrolls/42/cancel".to_vec());
    let reversals = p.get_company_or_uuid_payroll_reversals("co");
    assert_eq!(reversals.method, Method::Get);
    assert_eq!(reversals.path, b"/v1/companies/co/payroll_reversals".to_vec());
}

#[test]
fn template_renders_bound_placeholders_encoded() {
    let t = PathTemplate {
        parts: vec![
            PathPart::Lit(b"/users/".to_vec()),
            PathPart::Param(b"id".to_vec()),
            PathPart::Lit(b"/files".to_vec()),
        ],
    };
    let subs = vec![(b"id".to_vec(), b"a b{c}".to_vec())];
    let out = render(&t, &subs).expect("all placeholders bound");
    assert_eq!(out, b"/users/a%20b%7Bc%7D/files".to_vec());
    assert!(!out.contains(&b'{') && !out.contains(&b'}'));
}

#[test]
fn template_missing_placeholder_is_an_encoding_error() {
    let t = PathTemplate { parts: vec![PathPart::Param(b"id".to_vec())] };
    let subs: Vec<(Vec<u8>, Vec<u8>)> = Vec::new();
    match render(&t, &subs) {
        Err(EncodeError::MissingPlaceholder(name)) => assert_eq!(name, b"id".to_vec()),
        _ => panic!("expected a missing placeholder"),
    }
}
