//! A metadata block with its authors' contact details, checked with the
//! validation engine.

use vstd::prelude::*;

use crate::bom::{check_outcome, field_entry};
use crate::validation::{
    checked_each, failures, has_failure, key_present, list_outcome, ErrorKindView,
    ValidationContext, ValidationError, ValidationResult,
};

verus! {

#[derive(Debug)]
pub struct Email(pub String);

#[derive(Debug)]
pub struct Phone(pub String);

#[derive(Debug)]
pub struct OrganizationalContact {
    pub name: Option<String>,
    pub email: Option<Email>,
    pub phone: Option<Phone>,
}

#[derive(Debug)]
pub struct Metadata {
    pub timestamp: Option<String>,
    pub authors: Vec<OrganizationalContact>,
}

/// Whether `prefix` is a prefix of `s`.
fn has_prefix(s: &str, prefix: &str) -> (r: bool)
    ensures
        r == prefix@.is_prefix_of(s@),
{
    let n = prefix.unicode_len();
    if n > s.unicode_len() {
        return false;
    }
    let mut i: usize = 0;
    while i < n
        invariant
            n == prefix@.len(),
            n <= s@.len(),
            i <= n,
            forall|k: int| 0 <= k < i ==> s@[k] == prefix@[k],
        decreases n - i,
    {
        if s.get_char(i) != prefix.get_char(i) {
            assert(s@.subrange(0, n as int)[i as int] != prefix@[i as int]);
            return false;
        }
        i = i + 1;
    }
    assert(prefix@ =~= s@.subrange(0, n as int));
    true
}

/// The message that the date rule gives for `s`, if it rejects it.
pub open spec fn date_error(s: Seq<char>) -> Option<Seq<char>> {
    if s != "2024/02/04"@ {
        Some("unsupported date format"@)
    } else {
        None
    }
}

/// The message that the email rule gives for `s`, if it rejects it.
pub open spec fn email_error(s: Seq<char>) -> Option<Seq<char>> {
    if s != "lisa@example.com"@ {
        Some("email unknown"@)
    } else {
        None
    }
}

/// The message that the phone rule gives for `s`, if it rejects it.
pub open spec fn phone_error(s: Seq<char>) -> Option<Seq<char>> {
    if !"555"@.is_prefix_of(s) {
        Some("email unknown"@)
    } else {
        None
    }
}

/// Only the date 2024/02/04, written with slashes, is supported.
pub fn validate_date(date: &str) -> (r: Result<(), ValidationError>)
    ensures
        check_outcome(r, date_error(date@)),
{
    if date.to_owned() != "2024/02/04".to_owned() {
        return Err(ValidationError::new("unsupported date format"));
    }
    Ok(())
}

/// Every name is accepted.
pub fn validate_name(_name: &str) -> (r: Result<(), ValidationError>)
    ensures
        r is Ok,
{
    Ok(())
}

/// Only one address is known.
pub fn validate_email(email: &Email) -> (r: Result<(), ValidationError>)
    ensures
        check_outcome(r, email_error(email.0@)),
{
    if email.0 != "lisa@example.com".to_owned() {
        return Err(ValidationError::new("email unknown"));
    }
    Ok(())
}

/// A phone number must start with 555.
pub fn validate_phone(phone: &Phone) -> (r: Result<(), ValidationError>)
    ensures
        check_outcome(r, phone_error(phone.0@)),
{
    if !has_prefix(phone.0.as_str(), "555") {
        return Err(ValidationError::new("email unknown"));
    }
    Ok(())
}

/// The date rule on an owned string.
fn check_date(date: &String) -> (r: Result<(), ValidationError>)
    ensures
        check_outcome(r, date_error(date@)),
{
    validate_date(date.as_str())
}

/// The name rule on an owned string.
fn check_name(name: &String) -> (r: Result<(), ValidationError>)
    ensures
        r is Ok,
{
    validate_name(name.as_str())
}

/// The error tree of a contact: its email, then its phone.
pub open spec fn contact_tree(c: OrganizationalContact) -> Seq<(Seq<char>, ErrorKindView)> {
    let email_part = match c.email {
        Some(e) => field_entry("email"@, email_error(e.0@)),
        None => Seq::empty(),
    };
    let phone_part = match c.phone {
        Some(p) => field_entry("phone"@, phone_error(p.0@)),
        None => Seq::empty(),
    };
    email_part + phone_part
}

/// The contact fails some check.
pub open spec fn contact_fails(c: OrganizationalContact) -> bool {
    contact_tree(c).len() > 0
}

/// Some author fails.
pub open spec fn some_author_fails(authors: Seq<OrganizationalContact>) -> bool {
    exists|i: int| 0 <= i < authors.len() && contact_fails(#[trigger] authors[i])
}

/// `k` is the list entry for `authors`: exactly the failing positions, each
/// with that contact's own tree.
pub open spec fn authors_entry(k: ErrorKindView, authors: Seq<OrganizationalContact>) -> bool {
    &&& k is List
    &&& forall|i: usize| #[trigger]
        k->List_0.contains_key(i) <==> (i < authors.len() && contact_fails(authors[i as int]))
    &&& forall|i: usize| #[trigger]
        k->List_0.contains_key(i) ==> k->List_0[i]@ == contact_tree(authors[i as int])
}

/// `s` is the error tree of the metadata: its timestamp, then the failing
/// authors.
pub open spec fn metadata_tree(md: Metadata, s: Seq<(Seq<char>, ErrorKindView)>) -> bool {
    let stamp = match md.timestamp {
        Some(t) => field_entry("timestamp"@, date_error(t@)),
        None => Seq::empty(),
    };
    let fails = some_author_fails(md.authors@);
    &&& s.len() == stamp.len() + if fails {
        1int
    } else {
        0int
    }
    &&& s.subrange(0, stamp.len() as int) == stamp
    &&& fails ==> s[stamp.len() as int].0 == "authors"@ && authors_entry(
        s[stamp.len() as int].1,
        md.authors@,
    )
}

impl OrganizationalContact {
    pub fn validate(&self) -> (r: ValidationResult)
        ensures
            r.wf(),
            r.tree() == contact_tree(*self),
    {
        proof {
            reveal_strlit("name");
            reveal_strlit("email");
            reveal_strlit("phone");
        }
        let check_email = |email: &Email| -> (r: Result<(), ValidationError>)
            ensures
                check_outcome(r, email_error(email.0@)),
        {
            validate_email(email)
        };
        let check_phone = |phone: &Phone| -> (r: Result<(), ValidationError>)
            ensures
                check_outcome(r, phone_error(phone.0@)),
        {
            validate_phone(phone)
        };
        let builder = ValidationContext::new();
        let builder = builder.add_field("name", self.name.as_ref(), check_name);
        let builder = builder.add_field("email", self.email.as_ref(), check_email);
        let ghost after_email = builder@;
        assert("email"@[0] != "phone"@[0]);
        assert(!key_present(after_email.tree(), "phone"@));
        let builder = builder.add_field("phone", self.phone.as_ref(), check_phone);
        let r = builder.finish();
        assert(r.tree() =~= contact_tree(*self));
        r
    }
}

impl Metadata {
    pub fn validate(&self) -> (r: ValidationResult)
        ensures
            r.wf(),
            metadata_tree(*self, r.tree()),
    {
        proof {
            reveal_strlit("timestamp");
            reveal_strlit("authors");
        }
        let check_author = |author: &OrganizationalContact| -> (r: ValidationResult)
            ensures
                r.wf(),
                r.tree() == contact_tree(*author),
        {
            author.validate()
        };
        let builder = ValidationContext::new();
        let builder = builder.add_field("timestamp", self.timestamp.as_ref(), check_date);
        let ghost after_stamp = builder@;
        assert(!key_present(after_stamp.tree(), "authors"@)) by {
            assert("timestamp"@[0] != "authors"@[0]);
        }
        let builder = builder.add_list("authors", &self.authors, check_author);
        let r = builder.finish();
        proof {
            let authors = self.authors@;
            let outs = choose|outs: Seq<ValidationResult>|
                #[trigger] checked_each(check_author, authors, outs) && list_outcome(
                    after_stamp,
                    r,
                    "authors"@,
                    outs,
                );
            assert forall|i: int| 0 <= i < outs.len() implies (outs[i] is Error <==> contact_fails(
                authors[i],
            )) && (outs[i] is Error ==> outs[i]->Error_0@ == contact_tree(authors[i])) by {
                assert(check_author.ensures((&authors[i],), outs[i]));
            }
            assert(has_failure(outs) == some_author_fails(authors)) by {
                if has_failure(outs) {
                    let i = choose|i: int| 0 <= i < outs.len() && (#[trigger] outs[i]) is Error;
                    assert(contact_fails(authors[i]));
                }
                if some_author_fails(authors) {
                    let i = choose|i: int| 0 <= i < authors.len() && contact_fails(#[trigger] authors[i]);
                    assert(outs[i] is Error);
                }
            }
            if has_failure(outs) {
                assert(authors_entry(ErrorKindView::List(failures(outs)), authors));
            }
            assert(r.tree().subrange(0, after_stamp.tree().len() as int) =~= after_stamp.tree());
        }
        r
    }
}

} // verus!
