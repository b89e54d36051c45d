use meroshare::api::{
    auth_headers, chosen_bank, result_endpoint, share_application, Endpoint, HttpMethod,
};
use meroshare::models::{Bank, BankDetails, Company, CompanyApplication, User, UserDetails};

const BASE: &str = "https://backend.cdsc.com.np/api/meroShare/";
const VIEW: &str = "https://backend.cdsc.com.np/api/meroShareView/";

fn user(bank_index: usize) -> User {
    User {
        dp: "13700".to_string(),
        username: "u".to_string(),
        password: "p".to_string(),
        crn: "CRN-1".to_string(),
        pin: "4321".to_string(),
        name: "N".to_string(),
        bank_index,
        tags: vec![],
    }
}

fn details() -> UserDetails {
    let s = |x: &str| x.to_string();
    UserDetails {
        address: s(""),
        boid: s("1301370000000001"),
        client_code: s("13700"),
        contact: s(""),
        created_approve_date: s(""),
        created_approve_date_str: s(""),
        customer_type_code: s(""),
        demat: s("1301370000000001"),
        demat_expiry_date: s(""),
        email: s(""),
        expired_date: s(""),
        expired_date_str: s(""),
        gender: s(""),
        id: 5,
        image_path: s(""),
        mero_share_email: s(""),
        name: s("N"),
        password_change_date: s(""),
        password_changed_date_str: s(""),
        password_expiry_date: s(""),
        password_expiry_date_str: s(""),
        profile_name: s(""),
        render_dashboard: false,
        renewed_date: s(""),
        renewed_date_str: s(""),
        username: s("u"),
    }
}

fn application(id: i64) -> CompanyApplication {
    CompanyApplication {
        id,
        company_name: "C".to_string(),
        company_share_id: 1,
        script: "S".to_string(),
        share_group_name: "g".to_string(),
        share_type_name: "IPO".to_string(),
        status_name: "st".to_string(),
        sub_group: "sg".to_string(),
    }
}

#[test]
fn endpoint_addresses() {
    assert_eq!(Endpoint::Auth.url(), format!("{}auth/", BASE));
    assert_eq!(Endpoint::Capitals.url(), format!("{}capital/", BASE));
    assert_eq!(Endpoint::Banks.url(), format!("{}bank/", BASE));
    assert_eq!(Endpoint::BankDetails(77).url(), format!("{}bank/77", BASE));
    assert_eq!(Endpoint::OwnDetails.url(), format!("{}ownDetail/", BASE));
    assert_eq!(Endpoint::CurrentIssue.url(), format!("{}companyShare/currentIssue/", BASE));
    assert_eq!(Endpoint::ApplicationReport.url(), format!("{}applicantForm/active/search/", BASE));
    assert_eq!(
        Endpoint::ApplicationDetail(123456789012).url(),
        format!("{}applicantForm/report/detail/123456789012", BASE)
    );
    assert_eq!(Endpoint::Prospectus(-3).url(), format!("{}active/-3", BASE));
    assert_eq!(Endpoint::Prospectus(512).url(), format!("{}active/512", BASE));
    assert_eq!(Endpoint::Portfolio.url(), format!("{}myPortfolio", VIEW));
    assert_eq!(Endpoint::Transactions.url(), format!("{}myTransaction", VIEW));
    assert_eq!(Endpoint::ApplyShare.url(), format!("{}applicantForm/share/apply/", BASE));
}

#[test]
fn endpoint_methods_and_tokens() {
    assert_eq!(Endpoint::Auth.method(), HttpMethod::Post);
    assert_eq!(Endpoint::Capitals.method(), HttpMethod::Get);
    assert_eq!(Endpoint::BankDetails(1).method(), HttpMethod::Get);
    assert_eq!(Endpoint::CurrentIssue.method(), HttpMethod::Post);
    assert_eq!(Endpoint::ApplyShare.method(), HttpMethod::Post);
    assert_eq!(Endpoint::Prospectus(1).method(), HttpMethod::Get);
    assert!(!Endpoint::Auth.needs_token());
    assert!(!Endpoint::Capitals.needs_token());
    assert!(Endpoint::Portfolio.needs_token());
}

#[test]
fn authorization_header() {
    let h = auth_headers("tok".to_string());
    assert_eq!(h, vec![("Authorization".to_string(), "tok".to_string())]);
    let h = auth_headers(String::new());
    assert_eq!(h[0].1, "");
}

#[test]
fn result_of_listed_application() {
    let apps = vec![application(11), application(22)];
    assert_eq!(result_endpoint(&apps, 1), Some(Endpoint::ApplicationDetail(22)));
    assert_eq!(result_endpoint(&apps, 2), None);
}

#[test]
fn bank_index_counts_from_one() {
    let banks = vec![
        Bank { code: "A".to_string(), id: 1, name: "a".to_string() },
        Bank { code: "B".to_string(), id: 2, name: "b".to_string() },
    ];
    assert_eq!(chosen_bank(&user(1), &banks), Some(0));
    assert_eq!(chosen_bank(&user(2), &banks), Some(1));
    assert_eq!(chosen_bank(&user(0), &banks), None);
    assert_eq!(chosen_bank(&user(3), &banks), None);
}

#[test]
fn application_carries_ten_units() {
    let u = user(1);
    let bank = Bank { code: "A".to_string(), id: 9, name: "a".to_string() };
    let bd = BankDetails { account_branch_id: 3, account_number: "0011".to_string(), id: 71 };
    let opening = Company {
        company_name: "C".to_string(),
        company_share_id: 640,
        issue_close_date: "d".to_string(),
        issue_open_date: "d".to_string(),
        reservation_type_name: "r".to_string(),
        script: "S".to_string(),
        share_group_name: "g".to_string(),
        share_type_name: "IPO".to_string(),
        status_name: "s".to_string(),
        sub_group: "sg".to_string(),
    };
    let a = share_application(&u, &bank, &bd, &details(), &opening);
    assert_eq!(a.applied_kitta, 10);
    assert_eq!(a.bank_id, 9);
    assert_eq!(a.customer_id, 71);
    assert_eq!(a.account_branch_id, 3);
    assert_eq!(a.account_number, "0011");
    assert_eq!(a.company_share_id, 640);
    assert_eq!(a.crn_number, "CRN-1");
    assert_eq!(a.transaction_pin, "4321");
    assert_eq!(a.boid, "1301370000000001");
    assert_eq!(a.demat, "1301370000000001");
}

use meroshare::api::{
    application_report_search, current_issue_search, opening_at, portfolio_request,
    transactions_request,
};

#[test]
fn open_issue_search() {
    let r = current_issue_search();
    assert_eq!(r.page, 1);
    assert_eq!(r.size, 200);
    assert_eq!(r.search_role, "VIEW_OPEN_SHARE");
    assert_eq!(r.filter_fields.len(), 3);
    assert_eq!(r.filter_fields[0].key, "companyIssue.companyISIN.script");
    assert_eq!(r.filter_fields[0].alias, "Scrip");
    assert_eq!(r.filter_fields[0].value, None);
    assert_eq!(r.filter_fields[2].key, "companyIssue.assignedToClient.name");
    assert_eq!(r.filter_fields[2].alias, "Issue Manager");
    assert_eq!(r.filter_fields[2].value, Some(String::new()));
    assert_eq!(r.filter_dates.len(), 2);
    assert_eq!(r.filter_dates[0].key, "minIssueOpenDate");
    assert_eq!(r.filter_dates[1].key, "maxIssueCloseDate");
    assert_eq!(r.filter_dates[1].value, "");
}

#[test]
fn application_search() {
    let r = application_report_search();
    assert_eq!(r.page, 1);
    assert_eq!(r.size, 4);
    assert_eq!(r.search_role, "VIEW_APPLICANT_FORM_COMPLETE");
    assert_eq!(r.filter_fields.len(), 2);
    assert_eq!(r.filter_fields[1].key, "companyShare.companyIssue.companyISIN.company.name");
    assert_eq!(r.filter_fields[1].alias, "Company Name");
    assert_eq!(r.filter_dates.len(), 2);
    assert_eq!(r.filter_dates[0].key, "appliedDate");
    assert_eq!(r.filter_dates[1].key, "appliedDate");
}

#[test]
fn holdings_and_transactions_requests() {
    let p = portfolio_request(&user(1), &details());
    assert_eq!(p.client_code, "13700");
    assert_eq!(p.demat, vec!["1301370000000001".to_string()]);
    assert_eq!((p.page, p.size, p.sort_asc), (1, 500, true));
    assert_eq!(p.sort_by, "script");
    let t = transactions_request(&user(1), &details());
    assert_eq!(t.boid, "1301370000000001");
    assert_eq!(t.client_code, "13700");
    assert_eq!((t.page, t.size, t.request_type_script), (1, 200, false));
    assert_eq!(t.script, None);
}

#[test]
fn opening_by_index() {
    let c = |id: i32| Company {
        company_name: "C".to_string(),
        company_share_id: id,
        issue_close_date: "d".to_string(),
        issue_open_date: "d".to_string(),
        reservation_type_name: "r".to_string(),
        script: "S".to_string(),
        share_group_name: "g".to_string(),
        share_type_name: "IPO".to_string(),
        status_name: "s".to_string(),
        sub_group: "sg".to_string(),
    };
    let shares = vec![c(1), c(2)];
    assert_eq!(opening_at(&shares, 1).map(|o| o.company_share_id), Some(2));
    assert!(opening_at(&shares, 2).is_none());
}
