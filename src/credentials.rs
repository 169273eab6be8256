//! The credential store: each synthetic user's id, email and signing key.

use vstd::prelude::*;

verus! {

/// A row of the example-users table.
pub struct ExampleUsersCsvRow {
    pub email: String,
}

/// A row of the credentials table, keys still base64-encoded.
pub struct UserPrivateEncoded {
    pub user_id: u128,
    pub email: String,
    pub private_key: String,
    pub public_key: String,
}

/// A user's id and decoded private key.
pub struct UserPrivate {
    pub user_id: u128,
    pub key: Vec<u8>,
}

/// The bytes that `base64` (standard alphabet, padded) decodes `text` to;
/// `None` when it is not valid base64.
pub uninterp spec fn base64_decoded(text: Seq<char>) -> Option<Seq<u8>>;

/// Relies on `base64::decode`: the standard-alphabet decoding of the text,
/// or an error when the text is not valid base64.
#[verifier::external_body]
fn decode_base64(text: &str) -> (r: Option<Vec<u8>>)
    ensures
        match r {
            Some(v) => base64_decoded(text@) == Some(v@),
            None => base64_decoded(text@) is None,
        },
{
    base64::decode(text).ok()
}

impl UserPrivateEncoded {
    /// The user's id and decoded private key; `None` when the key is not
    /// valid base64.
    pub fn decode(&self) -> (r: Option<UserPrivate>)
        ensures
            match base64_decoded(self.private_key@) {
                Some(k) => r matches Some(u) && u.user_id == self.user_id && u.key@ == k,
                None => r is None,
            },
    {
        match decode_base64(self.private_key.as_str()) {
            Some(key) => Some(UserPrivate { user_id: self.user_id, key }),
            None => None,
        }
    }
}

/// The index of the first row with user id `user_id`.
pub open spec fn first_with_id(rows: Seq<UserPrivateEncoded>, user_id: u128, i: int) -> bool {
    0 <= i < rows.len() && rows[i].user_id == user_id
        && forall|k: int| 0 <= k < i ==> (#[trigger] rows[k]).user_id != user_id
}

/// The index of the first row with email `email`.
pub open spec fn first_with_email(rows: Seq<UserPrivateEncoded>, email: Seq<char>, i: int) -> bool {
    0 <= i < rows.len() && rows[i].email@ == email
        && forall|k: int| 0 <= k < i ==> (#[trigger] rows[k]).email@ != email
}

/// The first row for `user_id`, if any.
pub fn find_by_id(rows: &Vec<UserPrivateEncoded>, user_id: u128) -> (r: Option<usize>)
    ensures
        match r {
            Some(i) => first_with_id(rows@, user_id, i as int),
            None => forall|k: int| 0 <= k < rows@.len() ==> (#[trigger] rows@[k]).user_id != user_id,
        },
{
    let mut i: usize = 0;
    while i < rows.len()
        invariant
            i <= rows@.len(),
            forall|k: int| 0 <= k < i ==> (#[trigger] rows@[k]).user_id != user_id,
        decreases rows@.len() - i,
    {
        if rows[i].user_id == user_id {
            return Some(i);
        }
        i = i + 1;
    }
    None
}

/// The first row for `email`, if any.
pub fn find_by_email(rows: &Vec<UserPrivateEncoded>, email: &String) -> (r: Option<usize>)
    ensures
        match r {
            Some(i) => first_with_email(rows@, email@, i as int),
            None => forall|k: int| 0 <= k < rows@.len() ==> (#[trigger] rows@[k]).email@ != email@,
        },
{
    let mut i: usize = 0;
    while i < rows.len()
        invariant
            i <= rows@.len(),
            forall|k: int| 0 <= k < i ==> (#[trigger] rows@[k]).email@ != email@,
        decreases rows@.len() - i,
    {
        if rows[i].email == *email {
            return Some(i);
        }
        i = i + 1;
    }
    None
}

/// Picks the row a request is made for: the first row of `user_id` when it
/// is given; else the first row of the id that the first row of `email`
/// carries; else the first row of the id at index `draw` (a random pick).
/// `None` when the id or email is not in the table, or there is no row to
/// pick from.
pub fn select_user(
    rows: &Vec<UserPrivateEncoded>,
    user_id: Option<u128>,
    email: Option<String>,
    draw: usize,
) -> (r: Option<usize>)
    ensures
        ({
            let wanted: Option<u128> = match user_id {
                Some(id) => Some(id),
                None => match email {
                    Some(e) => if exists|i: int| first_with_email(rows@, e@, i) {
                        Some(rows@[choose|i: int| first_with_email(rows@, e@, i)].user_id)
                    } else {
                        None
                    },
                    None => if draw < rows@.len() { Some(rows@[draw as int].user_id) } else { None },
                },
            };
            match wanted {
                Some(id) => match r {
                    Some(i) => first_with_id(rows@, id, i as int),
                    None => forall|k: int| 0 <= k < rows@.len() ==> (#[trigger] rows@[k]).user_id != id,
                },
                None => r is None,
            }
        }),
{
    let id = match user_id {
        Some(id) => id,
        None => match email {
            Some(e) => match find_by_email(rows, &e) {
                Some(i) => {
                    proof {
                        assert forall|j: int| first_with_email(rows@, e@, j) implies j == i by {
                            if j < i {
                                assert(rows@[j].email@ != e@);
                            } else if j > i {
                                assert(rows@[i as int].email@ != e@);
                            }
                        }
                    }
                    rows[i].user_id
                },
                None => {
                    return None;
                },
            },
            None => {
                if draw < rows.len() {
                    rows[draw].user_id
                } else {
                    return None;
                }
            },
        },
    };
    find_by_id(rows, id)
}

} // verus!
