//! Which of the HID interfaces on the host carry the keyboard's vendor control channel.

use vstd::prelude::*;
use crate::text::{contains, occurs_in};

verus! {

/// USB vendor id of the keyboard.
pub const VENDOR_ID: u16 = 0x046D;

/// USB product id of the keyboard.
pub const PRODUCT_ID: u16 = 0xB342;

/// Usage page of a standard keyboard interface (generic desktop).
pub const USAGE_PAGE_KEYBOARD: u16 = 0x0001;

/// Usage page of a consumer-control (multimedia) interface.
pub const USAGE_PAGE_CONSUMER: u16 = 0x000C;

/// First of the usage pages reserved for vendors.
pub const USAGE_PAGE_VENDOR_MIN: u16 = 0xFF00;

/// The marker that the product name of the keyboard holds.
pub open spec fn model_marker() -> Seq<char> {
    seq!['K', '3', '8', '0']
}

/// One HID interface as the transport layer enumerated it.
#[derive(Debug, PartialEq, Eq)]
pub struct DeviceDescriptor {
    /// USB vendor id.
    pub vendor_id: u16,
    /// USB product id.
    pub product_id: u16,
    /// The advertised product name, where the interface has one.
    pub product_name: Option<String>,
    /// What the interface is for; zero where the driver reports nothing.
    pub usage_page: u16,
    /// What the transport layer needs to find the interface again and open it
    /// for writing: its position in the enumeration.
    pub handle: usize,
}

impl DeviceDescriptor {
    /// Whether the interface belongs to the keyboard: by its ids, or else by
    /// the marker in its product name.
    pub open spec fn spec_identity_matches(&self) -> bool {
        (self.vendor_id == VENDOR_ID && self.product_id == PRODUCT_ID) || match self.product_name {
            Some(name) => occurs_in(model_marker(), name@),
            None => false,
        }
    }

    /// Whether the usage page is one that the control channel can have: a
    /// vendor page, or zero where the driver reports none. This lets through
    /// any interface that reports no usage page; the identity has to tell.
    pub open spec fn spec_is_vendor_interface(&self) -> bool {
        self.usage_page >= USAGE_PAGE_VENDOR_MIN || self.usage_page == 0
    }

    /// Whether the command is to be written to this interface.
    pub open spec fn spec_is_candidate(&self) -> bool {
        self.spec_identity_matches() && self.spec_is_vendor_interface()
    }

    /// Whether the interface belongs to the keyboard.
    #[verifier::when_used_as_spec(spec_identity_matches)]
    pub fn identity_matches(&self) -> (hit: bool)
        ensures
            hit == self.spec_identity_matches(),
    {
        if self.vendor_id == VENDOR_ID && self.product_id == PRODUCT_ID {
            return true;
        }
        match &self.product_name {
            Some(name) => {
                let marker = "K380";
                proof {
                    reveal_strlit("K380");
                    assert(marker@ =~= model_marker());
                }
                contains(name.as_str(), marker)
            },
            None => false,
        }
    }

    /// Whether the usage page is one that the control channel can have.
    #[verifier::when_used_as_spec(spec_is_vendor_interface)]
    pub fn is_vendor_interface(&self) -> (hit: bool)
        ensures
            hit == self.spec_is_vendor_interface(),
    {
        self.usage_page >= USAGE_PAGE_VENDOR_MIN || self.usage_page == 0
    }

    /// Whether the command is to be written to this interface.
    #[verifier::when_used_as_spec(spec_is_candidate)]
    pub fn is_candidate(&self) -> (hit: bool)
        ensures
            hit == self.spec_is_candidate(),
    {
        self.identity_matches() && self.is_vendor_interface()
    }
}

impl Clone for DeviceDescriptor {
    /// A copy of the descriptor, equal to it in every field.
    fn clone(&self) -> (copy: DeviceDescriptor)
        ensures
            copy == *self,
    {
        let product_name = match &self.product_name {
            Some(name) => Some(name.clone()),
            None => None,
        };
        DeviceDescriptor {
            vendor_id: self.vendor_id,
            product_id: self.product_id,
            product_name,
            usage_page: self.usage_page,
            handle: self.handle,
        }
    }
}

/// The candidates among `all`: in the order of `all`, each descriptor that is one.
pub open spec fn candidates_of(all: Seq<DeviceDescriptor>) -> Seq<DeviceDescriptor> {
    all.filter(|d: DeviceDescriptor| d.spec_is_candidate())
}

/// The interfaces to write the command to, in the order in which they were enumerated.
pub fn select_candidates(all: &Vec<DeviceDescriptor>) -> (chosen: Vec<DeviceDescriptor>)
    ensures
        chosen@ == candidates_of(all@),
{
    let ghost pred = |d: DeviceDescriptor| d.spec_is_candidate();
    let mut chosen: Vec<DeviceDescriptor> = Vec::new();
    let mut i: usize = 0;
    proof {
        reveal(Seq::filter);
        assert(all@.take(0).filter(pred) =~= Seq::<DeviceDescriptor>::empty());
    }
    while i < all.len()
        invariant
            i <= all.len(),
            pred == (|d: DeviceDescriptor| d.spec_is_candidate()),
            chosen@ == all@.take(i as int).filter(pred),
        decreases all.len() - i,
    {
        let d = &all[i];
        proof {
            reveal(Seq::filter);
            assert(all@.take(i + 1).drop_last() =~= all@.take(i as int));
            assert(all@.take(i + 1).last() == all@[i as int]);
        }
        if d.is_candidate() {
            chosen.push(d.clone());
        }
        i += 1;
    }
    proof {
        assert(all@.take(all.len() as int) =~= all@);
    }
    chosen
}

/// An interface on the standard keyboard page or on the consumer-control page
/// is no candidate, whatever its ids and its name, and none is ever selected.
pub proof fn lemma_standard_pages_excluded(all: Seq<DeviceDescriptor>, d: DeviceDescriptor)
    requires
        d.usage_page == USAGE_PAGE_KEYBOARD || d.usage_page == USAGE_PAGE_CONSUMER,
    ensures
        !d.spec_is_candidate(),
        !candidates_of(all).contains(d),
{
    let pred = |d: DeviceDescriptor| d.spec_is_candidate();
    if all.filter(pred).contains(d) {
        let i = choose|i: int| 0 <= i < all.filter(pred).len() && all.filter(pred)[i] == d;
        all.lemma_filter_pred(pred, i);
    }
}

/// An interface that matches the keyboard's identity and reports a vendor
/// page, or none, is a candidate, and is selected wherever it was enumerated.
pub proof fn lemma_vendor_pages_included(all: Seq<DeviceDescriptor>, d: DeviceDescriptor)
    requires
        d.spec_identity_matches(),
        d.usage_page == 0 || d.usage_page >= USAGE_PAGE_VENDOR_MIN,
    ensures
        d.spec_is_candidate(),
        all.contains(d) ==> candidates_of(all).contains(d),
{
    let pred = |d: DeviceDescriptor| d.spec_is_candidate();
    if all.contains(d) {
        let i = choose|i: int| 0 <= i < all.len() && all[i] == d;
        all.lemma_filter_contains(pred, i);
    }
}

} // verus!
