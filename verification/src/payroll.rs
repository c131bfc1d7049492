//! Payroll endpoints: pay periods, payrolls (single page and every page),
//! off-cycle creation, updates, the calculate/submit/cancel transitions,
//! and payroll reversals. Each function builds the fully encoded request;
//! paginated listings seed a cursor walker.

use vstd::prelude::*;
use vstd::string::StringSliceAdditionalSpecFns;
use crate::client::Client;
use crate::encode::B_SPACE;
use crate::encode::encoded;
use crate::encode::percent_encode;
use crate::http::Method;
use crate::http::PreparedRequest;
use crate::http::json_bytes_of;
use crate::http::json_to_bytes;
use crate::paginate::Walker;
use crate::query::QueryBuilder;
use crate::query::emit_pairs;
use crate::query::flag_pair;
use crate::query::join_strings;
use crate::query::joined_bytes;
use crate::query::opt_pair;
use crate::query::strings_bytes;

verus! {

pub struct Payroll {
    pub client: Client,
}

/// The query pairs of the pay-periods listing, in the endpoint's declared
/// order: `start_date` then `end_date`, each present only when non-empty.
pub open spec fn pay_periods_pairs(start_date: Seq<u8>, end_date: Seq<u8>) -> Seq<
    (Seq<u8>, Seq<u8>),
> {
    opt_pair("start_date".spec_bytes(), start_date) + opt_pair("end_date".spec_bytes(), end_date)
}

/// The rendered path of `/v1/companies/{company_id_or_uuid}/pay_periods`,
/// query included.
pub open spec fn pay_periods_path(company: Seq<u8>, start_date: Seq<u8>, end_date: Seq<u8>) -> Seq<
    u8,
> {
    "/v1/companies/".spec_bytes() + encoded(company) + "/pay_periods?".spec_bytes() + emit_pairs(
        pay_periods_pairs(start_date, end_date),
    )
}

/// The query pairs of the payrolls listing, in the endpoint's declared
/// order: the `processed` and `include_off_cycle` flags only when set,
/// `include` joining the requested attributes with spaces when any are
/// given, then `start_date` and `end_date` when non-empty.
pub open spec fn payrolls_pairs(
    processed: bool,
    include_off_cycle: bool,
    includes: Seq<String>,
    start_date: Seq<u8>,
    end_date: Seq<u8>,
) -> Seq<(Seq<u8>, Seq<u8>)> {
    flag_pair("processed".spec_bytes(), processed) + flag_pair(
        "include_off_cycle".spec_bytes(),
        include_off_cycle,
    ) + (if includes.len() > 0 {
        seq![("include".spec_bytes(), joined_bytes(strings_bytes(includes), B_SPACE))]
    } else {
        Seq::empty()
    }) + opt_pair("start_date".spec_bytes(), start_date) + opt_pair(
        "end_date".spec_bytes(),
        end_date,
    )
}

/// The rendered path of `/v1/companies/{company_id_or_uuid}/payrolls`,
/// query included.
pub open spec fn payrolls_path(
    company: Seq<u8>,
    processed: bool,
    include_off_cycle: bool,
    includes: Seq<String>,
    start_date: Seq<u8>,
    end_date: Seq<u8>,
) -> Seq<u8> {
    "/v1/companies/".spec_bytes() + encoded(company) + "/payrolls?".spec_bytes() + emit_pairs(
        payrolls_pairs(processed, include_off_cycle, includes, start_date, end_date),
    )
}

/// The query pairs of the single-payroll fetch: `include` always, with the
/// requested attribute, and `show_calculation` only when non-empty.
pub open spec fn payroll_by_id_pairs(include_value: Seq<u8>, show_calculation: Seq<u8>) -> Seq<
    (Seq<u8>, Seq<u8>),
> {
    seq![("include".spec_bytes(), include_value)] + opt_pair(
        "show_calculation".spec_bytes(),
        show_calculation,
    )
}

fn build_company_path(company: &str, suffix: &str) -> (r: Vec<u8>)
    ensures
        r@ == "/v1/companies/".spec_bytes() + encoded(company.spec_bytes()) + suffix.spec_bytes(),
{
    let mut path: Vec<u8> = Vec::new();
    path.extend_from_slice("/v1/companies/".as_bytes());
    let mut e = percent_encode(company.as_bytes());
    path.append(&mut e);
    path.extend_from_slice(suffix.as_bytes());
    proof {
        assert(path@ =~= "/v1/companies/".spec_bytes() + encoded(company.spec_bytes())
            + suffix.spec_bytes());
    }
    path
}

fn build_payroll_path(company: &str, payroll: &str, suffix: &str) -> (r: Vec<u8>)
    ensures
        r@ == "/v1/companies/".spec_bytes() + encoded(company.spec_bytes())
            + "/payrolls/".spec_bytes() + encoded(payroll.spec_bytes()) + suffix.spec_bytes(),
{
    let mut path: Vec<u8> = Vec::new();
    path.extend_from_slice("/v1/companies/".as_bytes());
    let mut e = percent_encode(company.as_bytes());
    path.append(&mut e);
    path.extend_from_slice("/payrolls/".as_bytes());
    let mut e2 = percent_encode(payroll.as_bytes());
    path.append(&mut e2);
    path.extend_from_slice(suffix.as_bytes());
    proof {
        assert(path@ =~= "/v1/companies/".spec_bytes() + encoded(company.spec_bytes())
            + "/payrolls/".spec_bytes() + encoded(payroll.spec_bytes()) + suffix.spec_bytes());
    }
    path
}

fn build_pay_periods_path(company: &str, start_date: &str, end_date: &str) -> (r: Vec<u8>)
    ensures
        r@ == pay_periods_path(
            company.spec_bytes(),
            start_date.spec_bytes(),
            end_date.spec_bytes(),
        ),
{
    let mut qb = QueryBuilder::new();
    qb.push_if_nonempty("start_date".as_bytes(), start_date.as_bytes());
    qb.push_if_nonempty("end_date".as_bytes(), end_date.as_bytes());
    proof {
        assert(qb.pairs() =~= pay_periods_pairs(start_date.spec_bytes(), end_date.spec_bytes()));
    }
    let mut path = build_company_path(company, "/pay_periods?");
    let mut q = qb.into_query();
    path.append(&mut q);
    proof {
        assert(path@ =~= pay_periods_path(
            company.spec_bytes(),
            start_date.spec_bytes(),
            end_date.spec_bytes(),
        ));
    }
    path
}

fn build_payrolls_path(
    company: &str,
    processed: bool,
    include_off_cycle: bool,
    includes: &[String],
    start_date: &str,
    end_date: &str,
) -> (r: Vec<u8>)
    ensures
        r@ == payrolls_path(
            company.spec_bytes(),
            processed,
            include_off_cycle,
            includes@,
            start_date.spec_bytes(),
            end_date.spec_bytes(),
        ),
{
    let mut qb = QueryBuilder::new();
    qb.push_flag("processed".as_bytes(), processed);
    qb.push_flag("include_off_cycle".as_bytes(), include_off_cycle);
    if includes.len() > 0 {
        let joined = join_strings(includes, B_SPACE);
        qb.push("include".as_bytes(), joined.as_slice());
    }
    qb.push_if_nonempty("start_date".as_bytes(), start_date.as_bytes());
    qb.push_if_nonempty("end_date".as_bytes(), end_date.as_bytes());
    proof {
        assert(qb.pairs() =~= payrolls_pairs(
            processed,
            include_off_cycle,
            includes@,
            start_date.spec_bytes(),
            end_date.spec_bytes(),
        ));
    }
    let mut path = build_company_path(company, "/payrolls?");
    let mut q = qb.into_query();
    path.append(&mut q);
    proof {
        assert(path@ =~= payrolls_path(
            company.spec_bytes(),
            processed,
            include_off_cycle,
            includes@,
            start_date.spec_bytes(),
            end_date.spec_bytes(),
        ));
    }
    path
}

impl Payroll {
    pub fn new(client: Client) -> (s: Payroll)
        ensures
            s.client == client,
    {
        Payroll { client }
    }

    /// `GET` to `/v1/companies/{company_id_or_uuid}/pay_periods`: one page
    /// of the company's pay periods, the scope narrowed by the optional
    /// `start_date` and `end_date` parameters.
    pub fn get_company_pay_periods(
        &self,
        company_id_or_uuid: &str,
        start_date: &str,
        end_date: &str,
    ) -> (r: PreparedRequest)
        ensures
            r.method == Method::Get,
            r.body is None,
            r.path@ == pay_periods_path(
                company_id_or_uuid.spec_bytes(),
                start_date.spec_bytes(),
                end_date.spec_bytes(),
            ),
            r.wf(),
    {
        let path = build_pay_periods_path(company_id_or_uuid, start_date, end_date);
        PreparedRequest { method: Method::Get, path, body: None }
    }

    /// `GET` to `/v1/companies/{company_id_or_uuid}/pay_periods`, every
    /// page: a fresh walker seeded with the listing path.
    pub fn get_all_company_pay_periods(
        &self,
        company_id_or_uuid: &str,
        start_date: &str,
        end_date: &str,
    ) -> (r: Walker<serde_json::Value>)
        ensures
            r.next_cursor() == Some(
                pay_periods_path(
                    company_id_or_uuid.spec_bytes(),
                    start_date.spec_bytes(),
                    end_date.spec_bytes(),
                ),
            ),
            r.seen_cursors() == seq![
                pay_periods_path(
                    company_id_or_uuid.spec_bytes(),
                    start_date.spec_bytes(),
                    end_date.spec_bytes(),
                ),
            ],
            r.items_seq() == Seq::<serde_json::Value>::empty(),
            r.failure_spec() is None,
            r.in_progress(),
    {
        let path = build_pay_periods_path(company_id_or_uuid, start_date, end_date);
        Walker::new(path)
    }

    /// `GET` to `/v1/companies/{company_id_or_uuid}/payrolls`: one page of
    /// the company's payrolls, with the declared optional parameters.
    pub fn get_company_payrolls(
        &self,
        company_id_or_uuid: &str,
        processed: bool,
        include_off_cycle: bool,
        includes: &[String],
        start_date: &str,
        end_date: &str,
    ) -> (r: PreparedRequest)
        ensures
            r.method == Method::Get,
            r.body is None,
            r.path@ == payrolls_path(
                company_id_or_uuid.spec_bytes(),
                processed,
                include_off_cycle,
                includes@,
                start_date.spec_bytes(),
                end_date.spec_bytes(),
            ),
            r.wf(),
    {
        let path = build_payrolls_path(
            company_id_or_uuid,
            processed,
            include_off_cycle,
            includes,
            start_date,
            end_date,
        );
        PreparedRequest { method: Method::Get, path, body: None }
    }

    /// `GET` to `/v1/companies/{company_id_or_uuid}/payrolls`, every page:
    /// a fresh walker seeded with the listing path.
    pub fn get_all_company_payrolls(
        &self,
        company_id_or_uuid: &str,
        processed: bool,
        include_off_cycle: bool,
        includes: &[String],
        start_date: &str,
        end_date: &str,
    ) -> (r: Walker<serde_json::Value>)
        ensures
            r.next_cursor() == Some(
                payrolls_path(
                    company_id_or_uuid.spec_bytes(),
                    processed,
                    include_off_cycle,
                    includes@,
                    start_date.spec_bytes(),
                    end_date.spec_bytes(),
                ),
            ),
            r.seen_cursors() == seq![
                payrolls_path(
                    company_id_or_uuid.spec_bytes(),
                    processed,
                    include_off_cycle,
                    includes@,
                    start_date.spec_bytes(),
                    end_date.spec_bytes(),
                ),
            ],
            r.items_seq() == Seq::<serde_json::Value>::empty(),
            r.failure_spec() is None,
            r.in_progress(),
    {
        let path = build_payrolls_path(
            company_id_or_uuid,
            processed,
            include_off_cycle,
            includes,
            start_date,
            end_date,
        );
        Walker::new(path)
    }

    /// `POST` to `/v1/companies/{company_id_or_uuid}/payrolls`: creates a
    /// new, unprocessed, off-cycle payroll. The body is serialized before
    /// sending.
    pub fn post_company_payrolls(&self, company_id_or_uuid: &str, body: &serde_json::Value) -> (r:
        PreparedRequest)
        ensures
            r.method == Method::Post,
            r.path@ == "/v1/companies/".spec_bytes() + encoded(company_id_or_uuid.spec_bytes())
                + "/payrolls".spec_bytes(),
            r.body matches Some(b) && b@ == json_bytes_of(*body),
            r.wf(),
    {
        let bytes = json_to_bytes(body).unwrap();
        let path = build_company_path(company_id_or_uuid, "/payrolls");
        PreparedRequest { method: Method::Post, path, body: Some(bytes) }
    }

    /// `GET` to `/v1/companies/{company_id_or_uuid}/payrolls/{payroll_id_or_uuid}`:
    /// one payroll; `include` is always sent, `show_calculation` only when
    /// non-empty.
    pub fn get_company_payrolls_payroll_id(
        &self,
        company_id_or_uuid: &str,
        payroll_id_or_uuid: &str,
        include_value: &str,
        show_calculation: &str,
    ) -> (r: PreparedRequest)
        ensures
            r.method == Method::Get,
            r.body is None,
            r.path@ == "/v1/companies/".spec_bytes() + encoded(company_id_or_uuid.spec_bytes())
                + "/payrolls/".spec_bytes() + encoded(payroll_id_or_uuid.spec_bytes())
                + "?".spec_bytes() + emit_pairs(
                payroll_by_id_pairs(include_value.spec_bytes(), show_calculation.spec_bytes()),
            ),
            r.wf(),
    {
        let mut qb = QueryBuilder::new();
        qb.push("include".as_bytes(), include_value.as_bytes());
        qb.push_if_nonempty("show_calculation".as_bytes(), show_calculation.as_bytes());
        proof {
            assert(qb.pairs() =~= payroll_by_id_pairs(
                include_value.spec_bytes(),
                show_calculation.spec_bytes(),
            ));
        }
        let mut path = build_payroll_path(company_id_or_uuid, payroll_id_or_uuid, "?");
        let mut q = qb.into_query();
        path.append(&mut q);
        proof {
            assert(path@ =~= "/v1/companies/".spec_bytes() + encoded(
                company_id_or_uuid.spec_bytes(),
            ) + "/payrolls/".spec_bytes() + encoded(payroll_id_or_uuid.spec_bytes())
                + "?".spec_bytes() + emit_pairs(
                payroll_by_id_pairs(include_value.spec_bytes(), show_calculation.spec_bytes()),
            ));
        }
        PreparedRequest { method: Method::Get, path, body: None }
    }

    /// `PUT` to `/v1/companies/{company_id_or_uuid}/payrolls/{payroll_id_or_uuid}`:
    /// updates employees of an unprocessed payroll. The body is serialized
    /// before sending.
    pub fn put_company_payrolls(
        &self,
        company_id_or_uuid: &str,
        payroll_id_or_uuid: &str,
        body: &serde_json::Value,
    ) -> (r: PreparedRequest)
        ensures
            r.method == Method::Put,
            r.path@ == "/v1/companies/".spec_bytes() + encoded(company_id_or_uuid.spec_bytes())
                + "/payrolls/".spec_bytes() + encoded(payroll_id_or_uuid.spec_bytes()),
            r.body matches Some(b) && b@ == json_bytes_of(*body),
            r.wf(),
    {
        let bytes = json_to_bytes(body).unwrap();
        let path = build_payroll_path(company_id_or_uuid, payroll_id_or_uuid, "");
        proof {
            reveal_strlit("");
            assert(""@.len() == 0);
            assert("".spec_bytes() =~= Seq::<u8>::empty());
            assert(path@ =~= "/v1/companies/".spec_bytes() + encoded(
                company_id_or_uuid.spec_bytes(),
            ) + "/payrolls/".spec_bytes() + encoded(payroll_id_or_uuid.spec_bytes()));
        }
        PreparedRequest { method: Method::Put, path, body: Some(bytes) }
    }

    /// `PUT` to
    /// `/v1/companies/{company_id_or_uuid}/payrolls/{pay_period_start_date}/{pay_period_end_date}`:
    /// updates the unprocessed payroll identified by its pay period's two
    /// dates.
    pub fn put_company_payrolls_pay_period_start_date_pay_period_end_date(
        &self,
        company_id_or_uuid: &str,
        pay_period_start_date: &str,
        pay_period_end_date: &str,
        body: &serde_json::Value,
    ) -> (r: PreparedRequest)
        ensures
            r.method == Method::Put,
            r.path@ == "/v1/companies/".spec_bytes() + encoded(company_id_or_uuid.spec_bytes())
                + "/payrolls/".spec_bytes() + encoded(pay_period_start_date.spec_bytes())
                + "/".spec_bytes() + encoded(pay_period_end_date.spec_bytes()),
            r.body matches Some(b) && b@ == json_bytes_of(*body),
            r.wf(),
    {
        let bytes = json_to_bytes(body).unwrap();
        let mut path = build_payroll_path(company_id_or_uuid, pay_period_start_date, "/");
        let mut e = percent_encode(pay_period_end_date.as_bytes());
        path.append(&mut e);
        proof {
            assert(path@ =~= "/v1/companies/".spec_bytes() + encoded(
                company_id_or_uuid.spec_bytes(),
            ) + "/payrolls/".spec_bytes() + encoded(pay_period_start_date.spec_bytes())
                + "/".spec_bytes() + encoded(pay_period_end_date.spec_bytes()));
        }
        PreparedRequest { method: Method::Put, path, body: Some(bytes) }
    }

    /// `PUT` to `/v1/companies/{company_id}/payrolls/{payroll_id}/calculate`:
    /// starts calculation of an unprocessed payroll.
    pub fn put_company_payrolls_payroll_id_calculate(&self, company_id: &str, payroll_id: &str)
        -> (r: PreparedRequest)
        ensures
            r.method == Method::Put,
            r.body is None,
            r.path@ == "/v1/companies/".spec_bytes() + encoded(company_id.spec_bytes())
                + "/payrolls/".spec_bytes() + encoded(payroll_id.spec_bytes())
                + "/calculate".spec_bytes(),
            r.wf(),
    {
        let path = build_payroll_path(company_id, payroll_id, "/calculate");
        PreparedRequest { method: Method::Put, path, body: None }
    }

    /// `PUT` to `/v1/companies/{company_id}/payrolls/{payroll_id}/submit`:
    /// submits an unprocessed payroll to be calculated and run.
    pub fn put_company_payrolls_payroll_id_submit(&self, company_id: &str, payroll_id: &str) -> (r:
        PreparedRequest)
        ensures
            r.method == Method::Put,
            r.body is None,
            r.path@ == "/v1/companies/".spec_bytes() + encoded(company_id.spec_bytes())
                + "/payrolls/".spec_bytes() + encoded(payroll_id.spec_bytes())
                + "/submit".spec_bytes(),
            r.wf(),
    {
        let path = build_payroll_path(company_id, payroll_id, "/submit");
        PreparedRequest { method: Method::Put, path, body: None }
    }

    /// `PUT` to `/v1/companies/{company_id}/payrolls/{payroll_id}/cancel`:
    /// transitions a processed payroll back to unprocessed.
    pub fn put_api_company_payrolls_payroll_id_cancel(&self, company_id: &str, payroll_id: &str)
        -> (r: PreparedRequest)
        ensures
            r.method == Method::Put,
            r.body is None,
            r.path@ == "/v1/companies/".spec_bytes() + encoded(company_id.spec_bytes())
                + "/payrolls/".spec_bytes() + encoded(payroll_id.spec_bytes())
                + "/cancel".spec_bytes(),
            r.wf(),
    {
        let path = build_payroll_path(company_id, payroll_id, "/cancel");
        PreparedRequest { method: Method::Put, path, body: None }
    }

    /// `GET` to `/v1/companies/{company_id_or_uuid}/payroll_reversals`: the
    /// company's approved payroll reversals.
    pub fn get_company_or_uuid_payroll_reversals(&self, company_id_or_uuid: &str) -> (r:
        PreparedRequest)
        ensures
            r.method == Method::Get,
            r.body is None,
            r.path@ == "/v1/companies/".spec_bytes() + encoded(company_id_or_uuid.spec_bytes())
                + "/payroll_reversals".spec_bytes(),
            r.wf(),
    {
        let path = build_company_path(company_id_or_uuid, "/payroll_reversals");
        PreparedRequest { method: Method::Get, path, body: None }
    }
}

} // verus!
