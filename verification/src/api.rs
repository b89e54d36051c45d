//! The service's endpoints: their addresses, methods and what a request to
//! them carries.

use vstd::prelude::*;

use crate::models::{Bank, BankDetails, Company, CompanyApplication, User, UserDetails};
use crate::text::{push_decimal, push_signed_decimal, decimal_text, signed_decimal_text};

verus! {

/// The base address of the account endpoints.
pub open spec fn mero_share_url() -> Seq<char> {
    "https://backend.cdsc.com.np/api/meroShare/"@
}

/// The base address of the portfolio endpoints.
pub open spec fn portfolio_url() -> Seq<char> {
    "https://backend.cdsc.com.np/api/meroShareView/"@
}

/// The HTTP method of a request.
#[derive(PartialEq, Eq, Structural, Clone, Copy, Debug)]
pub enum HttpMethod {
    Get,
    Post,
}

/// An endpoint of the service, with the id that its address carries.
#[derive(PartialEq, Eq, Structural, Clone, Copy, Debug)]
pub enum Endpoint {
    /// Log in.
    Auth,
    /// The list of capitals.
    Capitals,
    /// The banks linked to the account.
    Banks,
    /// The account details of one linked bank.
    BankDetails(u32),
    /// The account holder's details.
    OwnDetails,
    /// The share issues open now.
    CurrentIssue,
    /// The applications made.
    ApplicationReport,
    /// The result of one application.
    ApplicationDetail(i64),
    /// The prospectus of one share issue.
    Prospectus(i32),
    /// The holdings.
    Portfolio,
    /// The transactions.
    Transactions,
    /// Apply for a share issue.
    ApplyShare,
}

/// The address of an endpoint.
pub open spec fn endpoint_url(e: Endpoint) -> Seq<char> {
    match e {
        Endpoint::Auth => mero_share_url() + "auth/"@,
        Endpoint::Capitals => mero_share_url() + "capital/"@,
        Endpoint::Banks => mero_share_url() + "bank/"@,
        Endpoint::BankDetails(id) => mero_share_url() + "bank/"@ + decimal_text(id as nat),
        Endpoint::OwnDetails => mero_share_url() + "ownDetail/"@,
        Endpoint::CurrentIssue => mero_share_url() + "companyShare/currentIssue/"@,
        Endpoint::ApplicationReport => mero_share_url() + "applicantForm/active/search/"@,
        Endpoint::ApplicationDetail(id) => mero_share_url() + "applicantForm/report/detail/"@
            + signed_decimal_text(id as int),
        Endpoint::Prospectus(id) => mero_share_url() + "active/"@ + signed_decimal_text(
            id as int,
        ),
        Endpoint::Portfolio => portfolio_url() + "myPortfolio"@,
        Endpoint::Transactions => portfolio_url() + "myTransaction"@,
        Endpoint::ApplyShare => mero_share_url() + "applicantForm/share/apply/"@,
    }
}

/// The method of an endpoint: the searches, the log-in, the holdings, the
/// transactions and applying are posted; the rest are read.
pub open spec fn endpoint_method(e: Endpoint) -> HttpMethod {
    match e {
        Endpoint::Auth | Endpoint::CurrentIssue | Endpoint::ApplicationReport
        | Endpoint::Portfolio | Endpoint::Transactions | Endpoint::ApplyShare => HttpMethod::Post,
        _ => HttpMethod::Get,
    }
}

/// Whether a request to the endpoint carries the user's token: all but the
/// log-in and the list of capitals do.
pub open spec fn endpoint_needs_token(e: Endpoint) -> bool {
    !(e is Auth || e is Capitals)
}

impl Endpoint {
    /// The address of the endpoint.
    pub fn url(&self) -> (u: String)
        ensures
            u@ == endpoint_url(*self),
    {
        let mut u = match self {
            Endpoint::Portfolio | Endpoint::Transactions => String::from_str(
                "https://backend.cdsc.com.np/api/meroShareView/",
            ),
            _ => String::from_str("https://backend.cdsc.com.np/api/meroShare/"),
        };
        match self {
            Endpoint::Auth => u.append("auth/"),
            Endpoint::Capitals => u.append("capital/"),
            Endpoint::Banks => u.append("bank/"),
            Endpoint::BankDetails(id) => {
                u.append("bank/");
                push_decimal(&mut u, *id as u64);
            },
            Endpoint::OwnDetails => u.append("ownDetail/"),
            Endpoint::CurrentIssue => u.append("companyShare/currentIssue/"),
            Endpoint::ApplicationReport => u.append("applicantForm/active/search/"),
            Endpoint::ApplicationDetail(id) => {
                u.append("applicantForm/report/detail/");
                push_signed_decimal(&mut u, *id);
            },
            Endpoint::Prospectus(id) => {
                u.append("active/");
                push_signed_decimal(&mut u, *id as i64);
            },
            Endpoint::Portfolio => u.append("myPortfolio"),
            Endpoint::Transactions => u.append("myTransaction"),
            Endpoint::ApplyShare => u.append("applicantForm/share/apply/"),
        }
        u
    }

    /// The method of the endpoint.
    pub fn method(&self) -> (m: HttpMethod)
        ensures
            m == endpoint_method(*self),
            (*self is BankDetails || *self is ApplicationDetail || *self is Prospectus
                || *self is Capitals || *self is Banks || *self is OwnDetails) <==> m
                == HttpMethod::Get,
    {
        match self {
            Endpoint::Auth | Endpoint::CurrentIssue | Endpoint::ApplicationReport
            | Endpoint::Portfolio | Endpoint::Transactions | Endpoint::ApplyShare => HttpMethod::Post,
            _ => HttpMethod::Get,
        }
    }

    /// Whether a request to the endpoint carries the user's token.
    pub fn needs_token(&self) -> (b: bool)
        ensures
            b == endpoint_needs_token(*self),
    {
        match self {
            Endpoint::Auth | Endpoint::Capitals => false,
            _ => true,
        }
    }
}

/// The headers of a request that carries a token: `Authorization` alone,
/// with the token as it is (empty when the log-in failed).
pub fn auth_headers(token: String) -> (h: Vec<(String, String)>)
    ensures
        h.len() == 1,
        h@[0].0@ == "Authorization"@,
        h@[0].1@ == token@,
{
    let mut h: Vec<(String, String)> = Vec::new();
    h.push((String::from_str("Authorization"), token));
    h
}

/// The endpoint of the result of the application at `index` (counted from 0)
/// in the applications listed; nothing when there is no such application.
pub fn result_endpoint(applications: &Vec<CompanyApplication>, index: usize) -> (e: Option<
    Endpoint,
>)
    ensures
        e is Some <==> index < applications.len(),
        e matches Some(x) ==> x == Endpoint::ApplicationDetail(applications@[index as int].id),
{
    if index < applications.len() {
        Some(Endpoint::ApplicationDetail(applications[index].id))
    } else {
        None
    }
}

/// The number of units applied for in every application.
pub open spec fn applied_units() -> u32 {
    10
}

/// What an application for a share issue carries.
pub struct ShareApplication {
    pub account_branch_id: u32,
    pub account_number: String,
    pub applied_kitta: u32,
    pub bank_id: u32,
    pub boid: String,
    pub company_share_id: i32,
    pub crn_number: String,
    pub customer_id: u32,
    pub demat: String,
    pub transaction_pin: String,
}

/// The position, counted from 0, of the bank a user applies through: the
/// user's bank index counts the linked banks from 1; nothing when the index
/// names no linked bank.
pub fn chosen_bank(user: &User, banks: &Vec<Bank>) -> (r: Option<usize>)
    ensures
        r is Some <==> 1 <= user.bank_index <= banks.len(),
        r matches Some(i) ==> i == user.bank_index - 1,
{
    if user.bank_index >= 1 && user.bank_index <= banks.len() {
        Some(user.bank_index - 1)
    } else {
        None
    }
}

/// The application of a user for a share issue, paid from the chosen bank:
/// the bank's account, the user's CRN and PIN, the holder's BOID and demat
/// account, and ten units.
pub fn share_application(
    user: &User,
    bank: &Bank,
    bank_details: &BankDetails,
    details: &UserDetails,
    opening: &Company,
) -> (a: ShareApplication)
    ensures
        a.account_branch_id == bank_details.account_branch_id,
        a.account_number@ == bank_details.account_number@,
        a.applied_kitta == applied_units(),
        a.bank_id == bank.id,
        a.boid@ == details.boid@,
        a.company_share_id == opening.company_share_id,
        a.crn_number@ == user.crn@,
        a.customer_id == bank_details.id,
        a.demat@ == details.demat@,
        a.transaction_pin@ == user.pin@,
{
    ShareApplication {
        account_branch_id: bank_details.account_branch_id,
        account_number: bank_details.account_number.clone(),
        applied_kitta: 10,
        bank_id: bank.id,
        boid: details.boid.clone(),
        company_share_id: opening.company_share_id,
        crn_number: user.crn.clone(),
        customer_id: bank_details.id,
        demat: details.demat.clone(),
        transaction_pin: user.pin.clone(),
    }
}

/// A field that a search filters by: its key, its alias and, where the
/// search names one, its value.
pub struct FilterField {
    pub key: String,
    pub alias: String,
    pub value: Option<String>,
}

/// A date that a search filters by.
pub struct FilterDate {
    pub key: String,
    pub condition: String,
    pub alias: String,
    pub value: String,
}

/// A search of the service: what it filters by, which page of which size,
/// and the role it is made in.
pub struct SearchRequest {
    pub filter_fields: Vec<FilterField>,
    pub page: u32,
    pub size: u32,
    pub search_role: String,
    pub filter_dates: Vec<FilterDate>,
}

/// A filter field as plain values.
pub open spec fn field_view(f: FilterField) -> (Seq<char>, Seq<char>, Option<Seq<char>>) {
    (
        f.key@,
        f.alias@,
        match f.value {
            Some(v) => Some(v@),
            None => None,
        },
    )
}

/// A filter date as plain values.
pub open spec fn date_view(d: FilterDate) -> (Seq<char>, Seq<char>, Seq<char>, Seq<char>) {
    (d.key@, d.condition@, d.alias@, d.value@)
}

fn filter_field(key: &str, alias: &str, value: Option<&str>) -> (f: FilterField)
    ensures
        field_view(f) == (
            key@,
            alias@,
            match value {
                Some(v) => Some(v@),
                None => None,
            },
        ),
{
    FilterField {
        key: key.to_owned(),
        alias: alias.to_owned(),
        value: match value {
            Some(v) => Some(v.to_owned()),
            None => None,
        },
    }
}

fn filter_date(key: &str) -> (d: FilterDate)
    ensures
        date_view(d) == (key@, ""@, ""@, ""@),
{
    FilterDate {
        key: key.to_owned(),
        condition: "".to_owned(),
        alias: "".to_owned(),
        value: "".to_owned(),
    }
}

/// The search for the share issues open now: by script, company name and
/// issue manager (with an empty value), between any opening and closing
/// dates, the first page of 200, as a viewer of open shares.
pub fn current_issue_search() -> (r: SearchRequest)
    ensures
        r.filter_fields@.map_values(|f: FilterField| field_view(f)) == seq![
            ("companyIssue.companyISIN.script"@, "Scrip"@, None::<Seq<char>>),
            ("companyIssue.companyISIN.company.name"@, "Company Name"@, None::<Seq<char>>),
            ("companyIssue.assignedToClient.name"@, "Issue Manager"@, Some(""@)),
        ],
        r.page == 1,
        r.size == 200,
        r.search_role@ == "VIEW_OPEN_SHARE"@,
        r.filter_dates@.map_values(|d: FilterDate| date_view(d)) == seq![
            ("minIssueOpenDate"@, ""@, ""@, ""@),
            ("maxIssueCloseDate"@, ""@, ""@, ""@),
        ],
{
    let mut fields: Vec<FilterField> = Vec::new();
    fields.push(filter_field("companyIssue.companyISIN.script", "Scrip", None));
    fields.push(filter_field("companyIssue.companyISIN.company.name", "Company Name", None));
    fields.push(filter_field("companyIssue.assignedToClient.name", "Issue Manager", Some("")));
    let mut dates: Vec<FilterDate> = Vec::new();
    dates.push(filter_date("minIssueOpenDate"));
    dates.push(filter_date("maxIssueCloseDate"));
    let r = SearchRequest {
        filter_fields: fields,
        page: 1,
        size: 200,
        search_role: "VIEW_OPEN_SHARE".to_owned(),
        filter_dates: dates,
    };
    proof {
        assert(r.filter_fields@.map_values(|f: FilterField| field_view(f)) =~= seq![
            ("companyIssue.companyISIN.script"@, "Scrip"@, None::<Seq<char>>),
            ("companyIssue.companyISIN.company.name"@, "Company Name"@, None::<Seq<char>>),
            ("companyIssue.assignedToClient.name"@, "Issue Manager"@, Some(""@)),
        ]);
        assert(r.filter_dates@.map_values(|d: FilterDate| date_view(d)) =~= seq![
            ("minIssueOpenDate"@, ""@, ""@, ""@),
            ("maxIssueCloseDate"@, ""@, ""@, ""@),
        ]);
    }
    r
}

/// The search for the applications made: by script and company name,
/// between any two applied dates, the first page of 4, as a viewer of
/// completed application forms.
pub fn application_report_search() -> (r: SearchRequest)
    ensures
        r.filter_fields@.map_values(|f: FilterField| field_view(f)) == seq![
            ("companyShare.companyIssue.companyISIN.script"@, "Scrip"@, None::<Seq<char>>),
            (
                "companyShare.companyIssue.companyISIN.company.name"@,
                "Company Name"@,
                None::<Seq<char>>,
            ),
        ],
        r.page == 1,
        r.size == 4,
        r.search_role@ == "VIEW_APPLICANT_FORM_COMPLETE"@,
        r.filter_dates@.map_values(|d: FilterDate| date_view(d)) == seq![
            ("appliedDate"@, ""@, ""@, ""@),
            ("appliedDate"@, ""@, ""@, ""@),
        ],
{
    let mut fields: Vec<FilterField> = Vec::new();
    fields.push(filter_field("companyShare.companyIssue.companyISIN.script", "Scrip", None));
    fields.push(
        filter_field("companyShare.companyIssue.companyISIN.company.name", "Company Name", None),
    );
    let mut dates: Vec<FilterDate> = Vec::new();
    dates.push(filter_date("appliedDate"));
    dates.push(filter_date("appliedDate"));
    let r = SearchRequest {
        filter_fields: fields,
        page: 1,
        size: 4,
        search_role: "VIEW_APPLICANT_FORM_COMPLETE".to_owned(),
        filter_dates: dates,
    };
    proof {
        assert(r.filter_fields@.map_values(|f: FilterField| field_view(f)) =~= seq![
            ("companyShare.companyIssue.companyISIN.script"@, "Scrip"@, None::<Seq<char>>),
            (
                "companyShare.companyIssue.companyISIN.company.name"@,
                "Company Name"@,
                None::<Seq<char>>,
            ),
        ]);
        assert(r.filter_dates@.map_values(|d: FilterDate| date_view(d)) =~= seq![
            ("appliedDate"@, ""@, ""@, ""@),
            ("appliedDate"@, ""@, ""@, ""@),
        ]);
    }
    r
}

/// The request for a user's holdings.
pub struct PortfolioRequest {
    pub client_code: String,
    pub demat: Vec<String>,
    pub page: u32,
    pub size: u32,
    pub sort_asc: bool,
    pub sort_by: String,
}

/// The holdings of a user: the user's participant code and demat account,
/// the first page of 500, sorted by script, ascending.
pub fn portfolio_request(user: &User, details: &UserDetails) -> (r: PortfolioRequest)
    ensures
        r.client_code@ == user.dp@,
        r.demat@.len() == 1,
        r.demat@[0]@ == details.demat@,
        r.page == 1,
        r.size == 500,
        r.sort_asc,
        r.sort_by@ == "script"@,
{
    let mut demat: Vec<String> = Vec::new();
    demat.push(details.demat.clone());
    PortfolioRequest {
        client_code: user.dp.clone(),
        demat,
        page: 1,
        size: 500,
        sort_asc: true,
        sort_by: "script".to_owned(),
    }
}

/// The request for a user's transactions.
pub struct TransactionsRequest {
    pub boid: String,
    pub client_code: String,
    pub page: u32,
    pub request_type_script: bool,
    pub script: Option<String>,
    pub size: u32,
}

/// The transactions of a user: of the user's demat account under the
/// user's participant code, for every script, the first page of 200.
pub fn transactions_request(user: &User, details: &UserDetails) -> (r: TransactionsRequest)
    ensures
        r.boid@ == details.demat@,
        r.client_code@ == user.dp@,
        r.page == 1,
        !r.request_type_script,
        r.script is None,
        r.size == 200,
{
    TransactionsRequest {
        boid: details.demat.clone(),
        client_code: user.dp.clone(),
        page: 1,
        request_type_script: false,
        script: None,
        size: 200,
    }
}

/// The issue at `index` (counted from 0) among the open issues listed;
/// nothing when there is no such issue.
pub fn opening_at(shares: &Vec<Company>, index: usize) -> (r: Option<&Company>)
    ensures
        r is Some <==> index < shares.len(),
        r matches Some(c) ==> *c == shares@[index as int],
{
    if index < shares.len() {
        Some(&shares[index])
    } else {
        None
    }
}

/// The method of each endpoint: the log-in, the two searches, the holdings,
/// the transactions and applying are posted with a body; the capitals, the
/// banks, the account details and every endpoint addressed by an id (a
/// bank's details, an application's result, a prospectus) are read.
pub proof fn law_endpoint_methods(bank_id: u32, application_id: i64, share_id: i32)
    ensures
        endpoint_method(Endpoint::Auth) == HttpMethod::Post,
        endpoint_method(Endpoint::CurrentIssue) == HttpMethod::Post,
        endpoint_method(Endpoint::ApplicationReport) == HttpMethod::Post,
        endpoint_method(Endpoint::Portfolio) == HttpMethod::Post,
        endpoint_method(Endpoint::Transactions) == HttpMethod::Post,
        endpoint_method(Endpoint::ApplyShare) == HttpMethod::Post,
        endpoint_method(Endpoint::Capitals) == HttpMethod::Get,
        endpoint_method(Endpoint::Banks) == HttpMethod::Get,
        endpoint_method(Endpoint::OwnDetails) == HttpMethod::Get,
        endpoint_method(Endpoint::BankDetails(bank_id)) == HttpMethod::Get,
        endpoint_method(Endpoint::ApplicationDetail(application_id)) == HttpMethod::Get,
        endpoint_method(Endpoint::Prospectus(share_id)) == HttpMethod::Get,
{
}

/// An endpoint whose address carries an id is read, never posted.
pub proof fn law_endpoints_with_id_are_read(e: Endpoint)
    requires
        e is BankDetails || e is ApplicationDetail || e is Prospectus,
    ensures
        endpoint_method(e) == HttpMethod::Get,
{
}

} // verus!
