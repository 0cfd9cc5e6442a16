//! What the daemon remembers between requests and messages.
use vstd::prelude::*;

use crate::byte_map::ByteMap;
use crate::contacts::{good_entries, lemma_good_entries, Contact, Listing};
use crate::ident::Uuid;

verus! {

/// An attachment that has arrived and can be fetched.
#[derive(Debug)]
pub struct Pending {
    /// The handle under which the shell keeps the attachment.
    pub handle: usize,
    pub content_type: Option<String>,
}

/// The identity behind a message: an account, or a phone number.
#[derive(Clone, Copy, Debug)]
pub enum ServiceId {
    Aci(Uuid),
    Pni(Uuid),
}

/// Attachments that can be fetched, by their client UUID, and phone numbers of the contacts, by
/// the UUID of the contact.
#[derive(Debug)]
pub struct AppState {
    pub pending_attachments: ByteMap<Pending>,
    pub contact_phones: ByteMap<String>,
}

/// The phone numbers after the first `n` entries of a listing were noted.
pub open spec fn phones_noted(
    phones: Map<Seq<u8>, String>,
    listing: Seq<Result<Contact, String>>,
    n: nat,
) -> Map<Seq<u8>, String>
    decreases n,
{
    if n == 0 {
        phones
    } else {
        let before = phones_noted(phones, listing, (n - 1) as nat);
        match listing[n - 1] {
            Ok(contact) => match contact.phone_number {
                Some(phone) => before.insert(contact.uuid@, phone),
                None => before,
            },
            Err(_) => before,
        }
    }
}

/// The phone number noted for an identity. Only accounts have one.
pub open spec fn phone_of(phones: Map<Seq<u8>, String>, sender: ServiceId) -> Option<String> {
    match sender {
        ServiceId::Aci(uuid) => if phones.contains_key(uuid@) {
            Some(phones[uuid@])
        } else {
            None
        },
        ServiceId::Pni(_) => None,
    }
}

impl AppState {
    /// Both maps hold no key twice.
    pub open spec fn wf(&self) -> bool {
        self.pending_attachments.wf() && self.contact_phones.wf()
    }

    /// The state in which nothing has arrived and no phone number is known.
    pub fn new() -> (state: AppState)
        ensures
            state.wf(),
            state.pending_attachments@ == Map::<Seq<u8>, Pending>::empty(),
            state.contact_phones@ == Map::<Seq<u8>, String>::empty(),
    {
        AppState { pending_attachments: ByteMap::new(), contact_phones: ByteMap::new() }
    }

    /// Notes the phone numbers of the listed contacts, up to the first entry that could not be
    /// read.
    pub fn refresh_contact_phones(&mut self, listing: Listing) -> (result: Result<(), String>)
        requires
            old(self).wf(),
        ensures
            final(self).wf(),
            final(self).pending_attachments == old(self).pending_attachments,
            final(self).contact_phones@ == phones_noted(
                old(self).contact_phones@,
                listing@,
                good_entries(listing@),
            ),
            match result {
                Ok(_) => good_entries(listing@) == listing@.len(),
                Err(e) => {
                    &&& good_entries(listing@) < listing@.len()
                    &&& listing@[good_entries(listing@) as int] == Err::<Contact, String>(e)
                },
            },
    {
        let ghost all = listing@;
        let ghost phones = self.contact_phones@;
        for entry in iter: listing
            invariant
                iter.seq() == all,
                all == listing@,
                phones == old(self).contact_phones@,
                self.wf(),
                self.pending_attachments == old(self).pending_attachments,
                forall|k: int| 0 <= k < iter.index() ==> all[k] is Ok,
                self.contact_phones@ == phones_noted(phones, all, iter.index() as nat),
        {
            match entry {
                Ok(contact) => {
                    if let Some(phone) = contact.phone_number {
                        self.contact_phones.insert(contact.uuid.to_vec(), phone);
                    }
                },
                Err(e) => {
                    proof {
                        lemma_good_entries(all, iter.index() as int);
                    }
                    return Err(e);
                },
            }
        }
        proof {
            lemma_good_entries(all, all.len() as int);
        }
        Ok(())
    }

    /// Looks up the phone number noted for an identity.
    pub fn phone_for_service_id(&self, sender: &ServiceId) -> (phone: Option<String>)
        requires
            self.wf(),
        ensures
            phone == phone_of(self.contact_phones@, *sender),
    {
        match sender {
            ServiceId::Aci(uuid) => match self.contact_phones.get(&uuid.to_vec()) {
                Some(phone) => Some(phone.clone()),
                None => None,
            },
            ServiceId::Pni(_) => None,
        }
    }
}

} // verus!
