//! The records that the service and the users file hold.

use vstd::prelude::*;

verus! {

/// A user of the service, as the users file describes one.
pub struct User {
    /// The depository participant code.
    pub dp: String,
    pub username: String,
    pub password: String,
    pub crn: String,
    pub pin: String,
    /// A name used only to show the user.
    pub name: String,
    /// Which linked bank to apply through, counted from 1.
    pub bank_index: usize,
    pub tags: Vec<String>,
}

/// A depository participant (a capital) as the service lists them.
pub struct Capital {
    pub code: String,
    pub id: u32,
    pub name: String,
}

/// The (code, id) of each capital.
pub open spec fn capitals_view(caps: Seq<Capital>) -> Seq<(Seq<char>, u32)> {
    caps.map_values(|c: Capital| (c.code@, c.id))
}

/// A bank linked to a user's account.
pub struct Bank {
    pub code: String,
    pub id: u32,
    pub name: String,
}

/// The account details of a linked bank, as applying for a share needs them.
pub struct BankDetails {
    pub account_branch_id: u32,
    pub account_number: String,
    pub id: u32,
}

/// A share issue that is open for applications.
pub struct Company {
    pub company_name: String,
    pub company_share_id: i32,
    pub issue_close_date: String,
    pub issue_open_date: String,
    pub reservation_type_name: String,
    pub script: String,
    pub share_group_name: String,
    pub share_type_name: String,
    pub status_name: String,
    pub sub_group: String,
}

/// An application that a user has made for a share issue.
pub struct CompanyApplication {
    pub id: i64,
    pub company_name: String,
    pub company_share_id: i32,
    pub script: String,
    pub share_group_name: String,
    pub share_type_name: String,
    pub status_name: String,
    pub sub_group: String,
}

/// The allotment result of an application.
pub struct IPOResult {
    pub status: String,
}

/// The service's answer to an application.
pub struct IPOAppliedResult {
    pub message: String,
    pub status: String,
}

/// The account details of a user, as the service keeps them.
pub struct UserDetails {
    pub address: String,
    pub boid: String,
    pub client_code: String,
    pub contact: String,
    pub created_approve_date: String,
    pub created_approve_date_str: String,
    pub customer_type_code: String,
    pub demat: String,
    pub demat_expiry_date: String,
    pub email: String,
    pub expired_date: String,
    pub expired_date_str: String,
    pub gender: String,
    pub id: u32,
    pub image_path: String,
    pub mero_share_email: String,
    pub name: String,
    pub password_change_date: String,
    pub password_changed_date_str: String,
    pub password_expiry_date: String,
    pub password_expiry_date_str: String,
    pub profile_name: String,
    pub render_dashboard: bool,
    pub renewed_date: String,
    pub renewed_date_str: String,
    pub username: String,
}

/// The bank index of a user whose entry names none: the first linked bank.
pub open spec fn default_bank_index() -> usize {
    1
}

impl User {
    /// A user from an entry of the users file. The bank index and the tags
    /// may be left out there: the bank index is then 1, the first linked
    /// bank, and the user carries no tag.
    pub fn from_entry(
        dp: String,
        username: String,
        password: String,
        crn: String,
        pin: String,
        name: String,
        bank_index: Option<usize>,
        tags: Option<Vec<String>>,
    ) -> (u: User)
        ensures
            u.dp == dp,
            u.username == username,
            u.password == password,
            u.crn == crn,
            u.pin == pin,
            u.name == name,
            u.bank_index == match bank_index {
                Some(i) => i,
                None => default_bank_index(),
            },
            u.tags@ == match tags {
                Some(t) => t@,
                None => Seq::<String>::empty(),
            },
    {
        let bank_index = match bank_index {
            Some(i) => i,
            None => 1,
        };
        let tags = match tags {
            Some(t) => t,
            None => Vec::new(),
        };
        User { dp, username, password, crn, pin, name, bank_index, tags }
    }
}

} // verus!
