//! Job applicant endpoints: list (single page and every page), create,
//! get, update, delete. Each function builds the fully encoded request;
//! the paginated listing seeds a cursor walker.

use vstd::prelude::*;
use vstd::string::StringSliceAdditionalSpecFns;
use crate::client::Client;
use crate::encode::encoded;
use crate::encode::percent_encode;
use crate::http::Method;
use crate::http::PreparedRequest;
use crate::http::json_bytes_of;
use crate::http::json_to_bytes;
use crate::paginate::Walker;

verus! {

pub struct JobApplicantsBeta {
    pub client: Client,
}

/// The rendered path of `/v1/companies/{company_id}/job_applicants`.
pub open spec fn job_applicants_path(company_id: Seq<u8>) -> Seq<u8> {
    "/v1/companies/".spec_bytes() + encoded(company_id) + "/job_applicants".spec_bytes()
}

/// The rendered path of
/// `/v1/companies/{company_id}/job_applicants/{job_applicant_uuid}`.
pub open spec fn job_applicant_path(company_id: Seq<u8>, job_applicant_uuid: Seq<u8>) -> Seq<u8> {
    "/v1/companies/".spec_bytes() + encoded(company_id) + "/job_applicants/".spec_bytes()
        + encoded(job_applicant_uuid)
}

fn build_job_applicants_path(company_id: &str) -> (r: Vec<u8>)
    ensures
        r@ == job_applicants_path(company_id.spec_bytes()),
{
    let mut path: Vec<u8> = Vec::new();
    path.extend_from_slice("/v1/companies/".as_bytes());
    let mut e = percent_encode(company_id.as_bytes());
    path.append(&mut e);
    path.extend_from_slice("/job_applicants".as_bytes());
    proof {
        assert(path@ =~= job_applicants_path(company_id.spec_bytes()));
    }
    path
}

fn build_job_applicant_path(company_id: &str, job_applicant_uuid: &str) -> (r: Vec<u8>)
    ensures
        r@ == job_applicant_path(company_id.spec_bytes(), job_applicant_uuid.spec_bytes()),
{
    let mut path: Vec<u8> = Vec::new();
    path.extend_from_slice("/v1/companies/".as_bytes());
    let mut e = percent_encode(company_id.as_bytes());
    path.append(&mut e);
    path.extend_from_slice("/job_applicants/".as_bytes());
    let mut e2 = percent_encode(job_applicant_uuid.as_bytes());
    path.append(&mut e2);
    proof {
        assert(path@ =~= job_applicant_path(
            company_id.spec_bytes(),
            job_applicant_uuid.spec_bytes(),
        ));
    }
    path
}

impl JobApplicantsBeta {
    pub fn new(client: Client) -> (s: JobApplicantsBeta)
        ensures
            s.client == client,
    {
        JobApplicantsBeta { client }
    }

    /// `GET` to `/v1/companies/{company_id}/job_applicants`: one page of the
    /// company's job applicants.
    pub fn get_v_1_companies_company_id_job_applicants(&self, company_id: &str) -> (r:
        PreparedRequest)
        ensures
            r.method == Method::Get,
            r.body is None,
            r.path@ == job_applicants_path(company_id.spec_bytes()),
            r.wf(),
    {
        let path = build_job_applicants_path(company_id);
        PreparedRequest { method: Method::Get, path, body: None }
    }

    /// `GET` to `/v1/companies/{company_id}/job_applicants`, every page: a
    /// fresh walker seeded with the listing path, to be driven until the
    /// cursors run out.
    pub fn get_all_v_1_companies_company_id_job_applicants(&self, company_id: &str) -> (r: Walker<
        serde_json::Value,
    >)
        ensures
            r.next_cursor() == Some(job_applicants_path(company_id.spec_bytes())),
            r.seen_cursors() == seq![job_applicants_path(company_id.spec_bytes())],
            r.items_seq() == Seq::<serde_json::Value>::empty(),
            r.failure_spec() is None,
            r.in_progress(),
    {
        let path = build_job_applicants_path(company_id);
        Walker::new(path)
    }

    /// `POST` to `/v1/companies/{company_id}/job_applicants`: creates a job
    /// applicant. The body is serialized before sending.
    pub fn post_v_1_companies_company_id_job_applicants(
        &self,
        company_id: &str,
        body: &serde_json::Value,
    ) -> (r: PreparedRequest)
        ensures
            r.method == Method::Post,
            r.path@ == job_applicants_path(company_id.spec_bytes()),
            r.body matches Some(b) && b@ == json_bytes_of(*body),
            r.wf(),
    {
        let bytes = json_to_bytes(body).unwrap();
        let path = build_job_applicants_path(company_id);
        PreparedRequest { method: Method::Post, path, body: Some(bytes) }
    }

    /// `GET` to `/v1/companies/{company_id}/job_applicants/{job_applicant_uuid}`:
    /// one job applicant.
    pub fn get_v_1_companies_company_id_job_applicants_job_applicant_uuid(
        &self,
        company_id: &str,
        job_applicant_uuid: &str,
    ) -> (r: PreparedRequest)
        ensures
            r.method == Method::Get,
            r.body is None,
            r.path@ == job_applicant_path(
                company_id.spec_bytes(),
                job_applicant_uuid.spec_bytes(),
            ),
            r.wf(),
    {
        let path = build_job_applicant_path(company_id, job_applicant_uuid);
        PreparedRequest { method: Method::Get, path, body: None }
    }

    /// `PUT` to `/v1/companies/{company_id}/job_applicants/{job_applicant_uuid}`:
    /// updates a job applicant. The body is serialized before sending.
    pub fn put_v_1_companies_company_id_job_applicants_job_applicant_uuid(
        &self,
        company_id: &str,
        job_applicant_uuid: &str,
        body: &serde_json::Value,
    ) -> (r: PreparedRequest)
        ensures
            r.method == Method::Put,
            r.path@ == job_applicant_path(
                company_id.spec_bytes(),
                job_applicant_uuid.spec_bytes(),
            ),
            r.body matches Some(b) && b@ == json_bytes_of(*body),
            r.wf(),
    {
        let bytes = json_to_bytes(body).unwrap();
        let path = build_job_applicant_path(company_id, job_applicant_uuid);
        PreparedRequest { method: Method::Put, path, body: Some(bytes) }
    }

    /// `DELETE` to `/v1/companies/{company_id}/job_applicants/{job_applicant_uuid}`:
    /// permanently removes a job applicant.
    pub fn delete_v_1_companies_company_id_job_applicants_job_applicant_uuid(
        &self,
        company_id: &str,
        job_applicant_uuid: &str,
    ) -> (r: PreparedRequest)
        ensures
            r.method == Method::Delete,
            r.body is None,
            r.path@ == job_applicant_path(
                company_id.spec_bytes(),
                job_applicant_uuid.spec_bytes(),
            ),
            r.wf(),
    {
        let path = build_job_applicant_path(company_id, job_applicant_uuid);
        PreparedRequest { method: Method::Delete, path, body: None }
    }
}

} // verus!
