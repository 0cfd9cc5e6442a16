//! The address book, and how an address finds a contact.
use vstd::prelude::*;

use crate::ident::{hyphenated, law_uuid_round_trip, lemma_no_plus, parsed, Uuid};
use crate::text::{contains, occurs, occurs_at, strip_plus, without_plus};

verus! {

/// A contact of the account.
#[derive(Clone, Debug)]
pub struct Contact {
    pub uuid: Uuid,
    /// The phone number in E.164 form.
    pub phone_number: Option<String>,
    pub name: String,
}

/// What the store lists: contacts, and the errors with which some could not be read.
pub type Listing = Vec<Result<Contact, String>>;

/// The contacts that could be read, in order.
pub open spec fn readable(listing: Seq<Result<Contact, String>>) -> Seq<Contact>
    decreases listing.len(),
{
    if listing.len() == 0 {
        Seq::empty()
    } else {
        match listing.last() {
            Ok(contact) => readable(listing.drop_last()).push(contact),
            Err(_) => readable(listing.drop_last()),
        }
    }
}

/// Keeps the contacts that could be read.
pub fn readable_contacts(listing: Listing) -> (contacts: Vec<Contact>)
    ensures
        contacts@ == readable(listing@),
{
    let mut contacts: Vec<Contact> = Vec::new();
    let ghost all = listing@;
    for entry in iter: listing
        invariant
            iter.seq() == all,
            contacts@ == readable(all.take(iter.index() as int)),
    {
        proof {
            assert(all.take(iter.index() + 1).drop_last() == all.take(iter.index() as int));
            assert(all.take(iter.index() + 1).last() == entry);
        }
        if let Ok(contact) = entry {
            contacts.push(contact);
        }
    }
    assert(all.take(all.len() as int) == all);
    contacts
}

/// How many entries come before the first error.
pub open spec fn good_entries(listing: Seq<Result<Contact, String>>) -> nat
    decreases listing.len(),
{
    if listing.len() == 0 || listing[0] is Err {
        0
    } else {
        1 + good_entries(listing.drop_first())
    }
}

/// The first error stands behind the good entries.
pub proof fn lemma_good_entries(listing: Seq<Result<Contact, String>>, n: int)
    requires
        0 <= n <= listing.len(),
        forall|k: int| 0 <= k < n ==> listing[k] is Ok,
        n < listing.len() ==> listing[n] is Err,
    ensures
        good_entries(listing) == n,
    decreases listing.len(),
{
    if n > 0 {
        assert forall|k: int| 0 <= k < n - 1 implies listing.drop_first()[k] is Ok by {
            assert(listing[k + 1] is Ok);
        }
        lemma_good_entries(listing.drop_first(), n - 1);
    }
}

/// Whether the contact has a phone number in which `digits` occurs.
pub open spec fn phone_matches(contact: Contact, digits: Seq<char>) -> bool {
    contact.phone_number is Some && occurs(contact.phone_number->0@, digits)
}

/// The test for a phone number in which `digits` occurs.
pub open spec fn by_phone(digits: Seq<char>) -> spec_fn(Contact) -> bool {
    |c: Contact| phone_matches(c, digits)
}

/// The test for a UUID.
pub open spec fn by_uuid(uuid: Seq<u8>) -> spec_fn(Contact) -> bool {
    |c: Contact| c.uuid@ == uuid
}

/// Whether the contact at `i` is the first of which `test` holds.
pub open spec fn is_first(contacts: Seq<Contact>, test: spec_fn(Contact) -> bool, i: int) -> bool {
    &&& 0 <= i < contacts.len()
    &&& test(contacts[i])
    &&& forall|k: int| 0 <= k < i ==> !test(#[trigger] contacts[k])
}

/// Where the first contact stands of which `test` holds.
pub open spec fn first_where(contacts: Seq<Contact>, test: spec_fn(Contact) -> bool) -> Option<int> {
    if exists|i: int| is_first(contacts, test, i) {
        Some(choose|i: int| is_first(contacts, test, i))
    } else {
        None
    }
}

/// Where the first contact stands whose phone number holds the address, read without its plus sign.
pub open spec fn phone_match(contacts: Seq<Contact>, address: Seq<char>) -> Option<int> {
    first_where(contacts, by_phone(without_plus(address)))
}

/// Where the first contact stands whose UUID the address writes.
pub open spec fn uuid_match(contacts: Seq<Contact>, address: Seq<char>) -> Option<int> {
    match parsed(without_plus(address)) {
        Some(uuid) => first_where(contacts, by_uuid(uuid)),
        None => None,
    }
}

/// Where the contact stands that an address means: a UUID goes first, a phone number second.
pub open spec fn contact_match(contacts: Seq<Contact>, address: Seq<char>) -> Option<int> {
    match uuid_match(contacts, address) {
        Some(i) => Some(i),
        None => phone_match(contacts, address),
    }
}

/// There is only one first.
proof fn lemma_first(contacts: Seq<Contact>, test: spec_fn(Contact) -> bool, i: int)
    requires
        is_first(contacts, test, i),
    ensures
        first_where(contacts, test) == Some(i),
{
    let j = choose|j: int| is_first(contacts, test, j);
    assert(is_first(contacts, test, j));
    if i < j {
        assert(!test(contacts[i]));
    } else if j < i {
        assert(!test(contacts[j]));
    }
}

/// If the test holds of a contact, it holds of a first one.
pub proof fn lemma_first_exists(contacts: Seq<Contact>, test: spec_fn(Contact) -> bool, i: int)
    requires
        0 <= i < contacts.len(),
        test(contacts[i]),
    ensures
        first_where(contacts, test) is Some,
        is_first(contacts, test, first_where(contacts, test)->0),
        first_where(contacts, test)->0 <= i,
    decreases i,
{
    if forall|k: int| 0 <= k < i ==> !test(#[trigger] contacts[k]) {
        lemma_first(contacts, test, i);
    } else {
        let k = choose|k: int| 0 <= k < i && test(#[trigger] contacts[k]);
        lemma_first_exists(contacts, test, k);
    }
}

/// Finds the first contact whose phone number holds the address, read without its plus sign.
pub fn find_by_phone<'a>(contacts: &'a Vec<Contact>, address: &str) -> (found: Option<&'a Contact>)
    ensures
        match found {
            Some(contact) => phone_match(contacts@, address@) is Some && *contact
                == contacts@[phone_match(contacts@, address@)->0],
            None => phone_match(contacts@, address@) is None,
        },
{
    let digits: &str = strip_plus(address);
    let ghost test = by_phone(without_plus(address@));
    let mut i: usize = 0;
    while i < contacts.len()
        invariant
            i <= contacts.len(),
            digits@ == without_plus(address@),
            test == by_phone(without_plus(address@)),
            forall|k: int| 0 <= k < i ==> !test(#[trigger] contacts@[k]),
        decreases contacts.len() - i,
    {
        let matches: bool = match &contacts[i].phone_number {
            Some(phone) => contains(phone.as_str(), digits),
            None => false,
        };
        if matches {
            proof {
                assert(is_first(contacts@, test, i as int));
                lemma_first(contacts@, test, i as int);
            }
            return Some(&contacts[i]);
        }
        i = i + 1;
    }
    None
}

/// Finds a contact by an address. An address that writes a UUID finds the contact with that UUID.
/// Otherwise, or if no contact has it, the phone numbers are searched for the address.
pub fn find_contact<'a>(contacts: &'a Vec<Contact>, addr: &str) -> (found: Option<&'a Contact>)
    ensures
        match found {
            Some(contact) => contact_match(contacts@, addr@) is Some && *contact
                == contacts@[contact_match(contacts@, addr@)->0],
            None => contact_match(contacts@, addr@) is None,
        },
{
    if let Some(uuid) = Uuid::parse(strip_plus(addr)) {
        let ghost test = by_uuid(uuid@);
        let mut i: usize = 0;
        while i < contacts.len()
            invariant
                i <= contacts.len(),
                test == by_uuid(uuid@),
                parsed(without_plus(addr@)) == Some(uuid@),
                forall|k: int| 0 <= k < i ==> !test(#[trigger] contacts@[k]),
            decreases contacts.len() - i,
        {
            if contacts[i].uuid.same(&uuid) {
                proof {
                    assert(is_first(contacts@, test, i as int));
                    lemma_first(contacts@, test, i as int);
                }
                return Some(&contacts[i]);
            }
            i = i + 1;
        }
        assert(uuid_match(contacts@, addr@) is None);
    }
    find_by_phone(contacts, addr)
}

/// A UUID goes before a phone number: an address that writes the UUID of a contact finds the
/// first contact with that UUID, whatever the phone numbers are.
pub proof fn law_uuid_first(contacts: Seq<Contact>, address: Seq<char>, i: int)
    requires
        0 <= i < contacts.len(),
        parsed(without_plus(address)) == Some(contacts[i].uuid@),
    ensures
        contact_match(contacts, address) is Some,
        is_first(
            contacts,
            by_uuid(contacts[i].uuid@),
            contact_match(contacts, address)->0,
        ),
{
    lemma_first_exists(contacts, by_uuid(contacts[i].uuid@), i);
}

/// A phone number is asked for only if no UUID fits: then an address that occurs in the phone
/// number of a contact finds the first such contact.
pub proof fn law_phone_second(contacts: Seq<Contact>, address: Seq<char>, i: int)
    requires
        uuid_match(contacts, address) is None,
        0 <= i < contacts.len(),
        phone_matches(contacts[i], without_plus(address)),
    ensures
        contact_match(contacts, address) is Some,
        is_first(
            contacts,
            by_phone(without_plus(address)),
            contact_match(contacts, address)->0,
        ),
{
    lemma_first_exists(contacts, by_phone(without_plus(address)), i);
}

/// The phone number of a contact finds a contact.
pub proof fn law_own_number_found(contacts: Seq<Contact>, i: int)
    requires
        0 <= i < contacts.len(),
        contacts[i].phone_number is Some,
    ensures
        contact_match(contacts, contacts[i].phone_number->0@) is Some,
        phone_match(contacts, contacts[i].phone_number->0@) is Some,
{
    let phone = contacts[i].phone_number->0@;
    let digits = without_plus(phone);
    let at = phone.len() - digits.len();
    assert(phone.subrange(at, at + digits.len()) =~= digits);
    assert(occurs_at(phone, digits, at));
    lemma_first_exists(contacts, by_phone(digits), i);
}

/// The UUID of a contact as it is listed finds a contact with that UUID, with or without a plus
/// sign before it.
pub proof fn law_listed_uuid_found(contacts: Seq<Contact>, i: int, plus: bool)
    requires
        0 <= i < contacts.len(),
    ensures
        ({
            let listed = hyphenated(contacts[i].uuid@);
            let address = if plus {
                seq!['+'] + listed
            } else {
                listed
            };
            &&& contact_match(contacts, address) is Some
            &&& 0 <= contact_match(contacts, address)->0 < contacts.len()
            &&& contacts[contact_match(contacts, address)->0].uuid@ == contacts[i].uuid@
        }),
{
    let listed = hyphenated(contacts[i].uuid@);
    let address = if plus {
        seq!['+'] + listed
    } else {
        listed
    };
    assert(without_plus(address) == listed) by {
        if plus {
            assert(address.subrange(1, address.len() as int) =~= listed);
        } else {
            lemma_no_plus(contacts[i].uuid@);
        }
    }
    law_uuid_round_trip(contacts[i].uuid@);
    law_uuid_first(contacts, address, i);
}

/// A plus sign before an address changes nothing, unless the address already has one.
pub proof fn law_plus_ignored(contacts: Seq<Contact>, address: Seq<char>)
    requires
        address.len() > 0 ==> address[0] != '+',
    ensures
        contact_match(contacts, seq!['+'] + address) == contact_match(contacts, address),
        phone_match(contacts, seq!['+'] + address) == phone_match(contacts, address),
{
    let plus = seq!['+'] + address;
    assert(plus.subrange(1, plus.len() as int) =~= address);
}

} // verus!
