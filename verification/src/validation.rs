//! Field-level validation of create and update payloads.
//!
//! A name must be non-empty.  An email must have the shape
//! `local-part@domain`, with a single `@`, a non-empty local part, and a
//! domain that contains a dot away from its edges.  All violations are
//! collected as `(field, message)` pairs, in field declaration order.

use vstd::prelude::*;

use crate::model::CreateModel;
use crate::model::CreateUserRequest;
use crate::model::UpdateModel;
use crate::model::UpdateUserRequest;

verus! {

/// Whether `s` is acceptable as a user name: the empty string is the only
/// rejected value.
pub open spec fn valid_name(s: Seq<char>) -> bool {
    s.len() >= 1
}

/// Whether the domain part of an email address is acceptable: non-empty,
/// containing a dot, and not starting or ending with one.
pub open spec fn valid_domain(d: Seq<char>) -> bool {
    &&& d.len() >= 1
    &&& d[0] != '.'
    &&& d[d.len() - 1] != '.'
    &&& exists|k: int| 0 <= k < d.len() && d[k] == '.'
}

/// Whether `a` is the position of the only `@` of `s`, splitting it into
/// a non-empty local part and an acceptable domain.
pub open spec fn email_split_at(s: Seq<char>, a: int) -> bool {
    &&& 1 <= a < s.len()
    &&& s[a] == '@'
    &&& forall|j: int| 0 <= j < s.len() && j != a ==> s[j] != '@'
    &&& valid_domain(s.subrange(a + 1, s.len() as int))
}

/// Whether `s` is a syntactically acceptable email address.
pub open spec fn valid_email(s: Seq<char>) -> bool {
    exists|a: int| email_split_at(s, a)
}

/// Whether a creation payload passes validation.
pub open spec fn valid_create(r: CreateModel) -> bool {
    valid_name(r.name) && valid_email(r.email)
}

/// Whether an update payload passes validation: each present field is
/// checked, absent fields pass.
pub open spec fn valid_update(r: UpdateModel) -> bool {
    &&& (r.name matches Some(n) ==> valid_name(n))
    &&& (r.email matches Some(e) ==> valid_email(e))
}

/// A single field-level violation.
pub struct FieldError {
    pub field: String,
    pub message: String,
}

impl View for FieldError {
    type V = (Seq<char>, Seq<char>);

    open spec fn view(&self) -> (Seq<char>, Seq<char>) {
        (self.field@, self.message@)
    }
}

/// The violation reported for an unacceptable name.
pub open spec fn name_error() -> (Seq<char>, Seq<char>) {
    ("name"@, "Name cannot be empty"@)
}

/// The violation reported for an unacceptable email address.
pub open spec fn email_error() -> (Seq<char>, Seq<char>) {
    ("email"@, "Invalid email format"@)
}

/// The violations a creation payload is due, in field order.
pub open spec fn create_field_errors(r: CreateModel) -> Seq<(Seq<char>, Seq<char>)> {
    (if valid_name(r.name) {
        Seq::<(Seq<char>, Seq<char>)>::empty()
    } else {
        seq![name_error()]
    }) + (if valid_email(r.email) {
        Seq::<(Seq<char>, Seq<char>)>::empty()
    } else {
        seq![email_error()]
    })
}

/// The violations an update payload is due, in field order.
pub open spec fn update_field_errors(r: UpdateModel) -> Seq<(Seq<char>, Seq<char>)> {
    (if r.name matches Some(n) && !valid_name(n) {
        seq![name_error()]
    } else {
        Seq::<(Seq<char>, Seq<char>)>::empty()
    }) + (if r.email matches Some(e) && !valid_email(e) {
        seq![email_error()]
    } else {
        Seq::<(Seq<char>, Seq<char>)>::empty()
    })
}

/// Whether `s` is a syntactically acceptable email address.
pub fn check_email(s: &str) -> (r: bool)
    ensures
        r == valid_email(s@),
{
    let len = s.unicode_len();
    // find the first '@'
    let mut a: usize = 0;
    let mut found = false;
    while a < len && !found
        invariant
            0 <= a <= len,
            len == s@.len(),
            !found ==> forall|j: int| 0 <= j < a ==> s@[j] != '@',
            found ==> a < len && s@[a as int] == '@' && forall|j: int| 0 <= j < a ==> s@[j] != '@',
        decreases len - a, (if found { 0int } else { 1int }),
    {
        if s.get_char(a) == '@' {
            found = true;
        } else {
            a = a + 1;
        }
    }
    if !found {
        proof {
            assert forall|p: int| !email_split_at(s@, p) by {
                if 0 <= p < s@.len() {
                    assert(s@[p] != '@');
                }
            }
        }
        return false;
    }
    // the '@' must not be the first character
    if a == 0 {
        proof {
            assert forall|p: int| !email_split_at(s@, p) by {
                if p != 0 && 0 <= p < s@.len() {
                    assert(s@[0] == '@');
                }
            }
        }
        return false;
    }
    // no further '@' may follow
    let mut j: usize = a + 1;
    while j < len
        invariant
            a < j <= len,
            len == s@.len(),
            s@[a as int] == '@',
            forall|k: int| 0 <= k < a ==> s@[k] != '@',
            forall|k: int| a < k < j ==> s@[k] != '@',
        decreases len - j,
    {
        if s.get_char(j) == '@' {
            proof {
                let second: int = j as int;
                assert forall|p: int| !email_split_at(s@, p) by {
                    if 0 <= p < s@.len() && s@[p] == '@' {
                        if p != a as int {
                            assert(s@[a as int] == '@');
                        } else {
                            assert(s@[second] == '@');
                        }
                    }
                }
            }
            return false;
        }
        j = j + 1;
    }
    // examine the domain
    let ghost dom = s@.subrange(a + 1, s@.len() as int);
    if a + 1 == len {
        proof {
            lemma_email_shape_unique(s@, a as int);
        }
        return false;
    }
    if s.get_char(a + 1) == '.' {
        proof {
            assert(dom[0] == '.');
            lemma_email_shape_unique(s@, a as int);
        }
        return false;
    }
    if s.get_char(len - 1) == '.' {
        proof {
            assert(dom[dom.len() - 1] == '.');
            lemma_email_shape_unique(s@, a as int);
        }
        return false;
    }
    let mut k: usize = a + 1;
    while k < len
        invariant
            1 <= a < len,
            a + 1 < len,
            a + 1 <= k <= len,
            len == s@.len(),
            dom == s@.subrange(a + 1, s@.len() as int),
            s@[a as int] == '@',
            forall|m: int| 0 <= m < s@.len() && m != a ==> s@[m] != '@',
            s@[a + 1] != '.',
            s@[s@.len() - 1] != '.',
            forall|m: int| a + 1 <= m < k ==> s@[m] != '.',
        decreases len - k,
    {
        if s.get_char(k) == '.' {
            proof {
                assert(dom[k - (a + 1)] == '.');
                assert(dom[0] == s@[a + 1]);
                assert(dom[dom.len() - 1] == s@[s@.len() - 1]);
                assert(valid_domain(dom));
                assert(email_split_at(s@, a as int));
            }
            return true;
        }
        k = k + 1;
    }
    proof {
        assert forall|m: int| 0 <= m < dom.len() implies dom[m] != '.' by {
            assert(dom[m] == s@[a + 1 + m]);
        }
        assert(!valid_domain(dom));
        lemma_email_shape_unique(s@, a as int);
    }
    false
}

/// If the single `@` of `s` stands at `a` and the domain after it is not
/// acceptable, then no position splits `s` into a valid email.
proof fn lemma_email_shape_unique(s: Seq<char>, a: int)
    requires
        0 <= a < s.len(),
        s[a] == '@',
        !valid_domain(s.subrange(a + 1, s.len() as int)),
    ensures
        !valid_email(s),
{
    assert forall|p: int| !email_split_at(s, p) by {
        if 0 <= p < s.len() && email_split_at(s, p) {
            assert(s[a] == '@');
            assert(p == a);
        }
    }
}

/// The violations rendered as `field: message` parts joined with commas.
pub open spec fn joined_errors(errs: Seq<(Seq<char>, Seq<char>)>, i: int) -> Seq<char>
    decreases errs.len() - i,
{
    if i < 0 || i >= errs.len() {
        Seq::<char>::empty()
    } else if i == errs.len() - 1 {
        errs[i].0 + ": "@ + errs[i].1
    } else {
        errs[i].0 + ": "@ + errs[i].1 + ", "@ + joined_errors(errs, i + 1)
    }
}

/// The whole message a request with violations is rejected with.
pub open spec fn validation_message(errs: Seq<(Seq<char>, Seq<char>)>) -> Seq<char> {
    "Validation errors: "@ + joined_errors(errs, 0)
}

fn join_errors_from(errs: &Vec<FieldError>, i: usize) -> (r: String)
    requires
        i <= errs@.len(),
    ensures
        r@ == joined_errors(errs@.map_values(|e: FieldError| e@), i as int),
    decreases errs@.len() - i,
{
    let ghost ghost_errs = errs@.map_values(|e: FieldError| e@);
    if i >= errs.len() {
        String::new()
    } else {
        let e = &errs[i];
        let mut s = String::from_str(e.field.as_str());
        s.append(": ");
        s.append(e.message.as_str());
        if i + 1 < errs.len() {
            s.append(", ");
            let rest = join_errors_from(errs, i + 1);
            s.append(rest.as_str());
        }
        proof {
            assert(ghost_errs[i as int] == errs@[i as int]@);
            assert(s@ =~= joined_errors(ghost_errs, i as int));
        }
        s
    }
}

/// Render the violations of a rejected request as one human-readable
/// message, one `field: message` part per violated field.
pub fn validation_message_string(errs: &Vec<FieldError>) -> (r: String)
    ensures
        r@ == validation_message(errs@.map_values(|e: FieldError| e@)),
{
    let mut s = String::from_str("Validation errors: ");
    let rest = join_errors_from(errs, 0);
    s.append(rest.as_str());
    s
}

/// Validate a creation payload, collecting every violation.
pub fn validate_create(req: &CreateUserRequest) -> (r: Vec<FieldError>)
    ensures
        r@.map_values(|e: FieldError| e@) == create_field_errors(req@),
        r@.len() == 0 <==> valid_create(req@),
{
    let mut out: Vec<FieldError> = Vec::new();
    if req.name.unicode_len() == 0 {
        out.push(
            FieldError {
                field: String::from_str("name"),
                message: String::from_str("Name cannot be empty"),
            },
        );
    }
    if !check_email(req.email.as_str()) {
        out.push(
            FieldError {
                field: String::from_str("email"),
                message: String::from_str("Invalid email format"),
            },
        );
    }
    proof {
        assert(out@.map_values(|e: FieldError| e@) =~= create_field_errors(req@));
    }
    out
}

/// Validate an update payload, collecting every violation; absent fields
/// are not examined.
pub fn validate_update(req: &UpdateUserRequest) -> (r: Vec<FieldError>)
    ensures
        r@.map_values(|e: FieldError| e@) == update_field_errors(req@),
        r@.len() == 0 <==> valid_update(req@),
{
    let mut out: Vec<FieldError> = Vec::new();
    match &req.name {
        Some(n) => {
            if n.unicode_len() == 0 {
                out.push(
                    FieldError {
                        field: String::from_str("name"),
                        message: String::from_str("Name cannot be empty"),
                    },
                );
            }
        },
        None => {},
    }
    match &req.email {
        Some(e) => {
            if !check_email(e.as_str()) {
                out.push(
                    FieldError {
                        field: String::from_str("email"),
                        message: String::from_str("Invalid email format"),
                    },
                );
            }
        },
        None => {},
    }
    proof {
        assert(out@.map_values(|e: FieldError| e@) =~= update_field_errors(req@));
    }
    out
}

} // verus!
