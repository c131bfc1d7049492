//! Directory domain endpoints: list, insert, get, delete a customer's
//! domains. Each function builds the fully encoded request for the
//! endpoint; the transport sends it.

use vstd::prelude::*;
use vstd::string::StringSliceAdditionalSpecFns;
use crate::client::Client;
use crate::encode::encoded;
use crate::encode::percent_encode;
use crate::http::Method;
use crate::http::PreparedRequest;
use crate::http::json_bytes_of;
use crate::http::json_to_bytes;

verus! {

pub struct Domains {
    pub client: Client,
}

impl Domains {
    pub fn new(client: Client) -> (s: Domains)
        ensures
            s.client == client,
    {
        Domains { client }
    }

    /// `GET` to `/admin/directory/v1/customer/{customer}/domains`: lists the
    /// domains of the customer.
    pub fn directory_list(&self, customer: &str) -> (r: PreparedRequest)
        ensures
            r.method == Method::Get,
            r.body is None,
            r.path@ == "/admin/directory/v1/customer/".spec_bytes() + encoded(
                customer.spec_bytes(),
            ) + "/domains".spec_bytes(),
            r.wf(),
    {
        let mut path: Vec<u8> = Vec::new();
        path.extend_from_slice("/admin/directory/v1/customer/".as_bytes());
        let mut e = percent_encode(customer.as_bytes());
        path.append(&mut e);
        path.extend_from_slice("/domains".as_bytes());
        proof {
            assert(path@ =~= "/admin/directory/v1/customer/".spec_bytes() + encoded(
                customer.spec_bytes(),
            ) + "/domains".spec_bytes());
        }
        PreparedRequest { method: Method::Get, path, body: None }
    }

    /// `POST` to `/admin/directory/v1/customer/{customer}/domains`: inserts
    /// a domain of the customer. The body is serialized before sending.
    pub fn directory_insert(&self, customer: &str, body: &serde_json::Value) -> (r:
        PreparedRequest)
        ensures
            r.method == Method::Post,
            r.path@ == "/admin/directory/v1/customer/".spec_bytes() + encoded(
                customer.spec_bytes(),
            ) + "/domains".spec_bytes(),
            r.body matches Some(b) && b@ == json_bytes_of(*body),
            r.wf(),
    {
        let bytes = json_to_bytes(body).unwrap();
        let mut path: Vec<u8> = Vec::new();
        path.extend_from_slice("/admin/directory/v1/customer/".as_bytes());
        let mut e = percent_encode(customer.as_bytes());
        path.append(&mut e);
        path.extend_from_slice("/domains".as_bytes());
        proof {
            assert(path@ =~= "/admin/directory/v1/customer/".spec_bytes() + encoded(
                customer.spec_bytes(),
            ) + "/domains".spec_bytes());
        }
        PreparedRequest { method: Method::Post, path, body: Some(bytes) }
    }

    /// `GET` to `/admin/directory/v1/customer/{customer}/domains/{domainName}`:
    /// retrieves one domain of the customer.
    pub fn directory_get(&self, customer: &str, domain_name: &str) -> (r: PreparedRequest)
        ensures
            r.method == Method::Get,
            r.body is None,
            r.path@ == "/admin/directory/v1/customer/".spec_bytes() + encoded(
                customer.spec_bytes(),
            ) + "/domains/".spec_bytes() + encoded(domain_name.spec_bytes()),
            r.wf(),
    {
        let mut path: Vec<u8> = Vec::new();
        path.extend_from_slice("/admin/directory/v1/customer/".as_bytes());
        let mut e = percent_encode(customer.as_bytes());
        path.append(&mut e);
        path.extend_from_slice("/domains/".as_bytes());
        let mut e2 = percent_encode(domain_name.as_bytes());
        path.append(&mut e2);
        proof {
            assert(path@ =~= "/admin/directory/v1/customer/".spec_bytes() + encoded(
                customer.spec_bytes(),
            ) + "/domains/".spec_bytes() + encoded(domain_name.spec_bytes()));
        }
        PreparedRequest { method: Method::Get, path, body: None }
    }

    /// `DELETE` to `/admin/directory/v1/customer/{customer}/domains/{domainName}`:
    /// deletes one domain of the customer.
    pub fn directory_delete(&self, customer: &str, domain_name: &str) -> (r: PreparedRequest)
        ensures
            r.method == Method::Delete,
            r.body is None,
            r.path@ == "/admin/directory/v1/customer/".spec_bytes() + encoded(
                customer.spec_bytes(),
            ) + "/domains/".spec_bytes() + encoded(domain_name.spec_bytes()),
            r.wf(),
    {
        let mut path: Vec<u8> = Vec::new();
        path.extend_from_slice("/admin/directory/v1/customer/".as_bytes());
        let mut e = percent_encode(customer.as_bytes());
        path.append(&mut e);
        path.extend_from_slice("/domains/".as_bytes());
        let mut e2 = percent_encode(domain_name.as_bytes());
        path.append(&mut e2);
        proof {
            assert(path@ =~= "/admin/directory/v1/customer/".spec_bytes() + encoded(
                customer.spec_bytes(),
            ) + "/domains/".spec_bytes() + encoded(domain_name.spec_bytes()));
        }
        PreparedRequest { method: Method::Delete, path, body: None }
    }
}

} // verus!
