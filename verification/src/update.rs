//! Installing a new rule set without disturbing the datapath: the rule set is
//! written into the slot the datapath is not reading, and only then is the
//! datapath pointed at it.
use vstd::prelude::*;
use crate::ctypes::{fw_meta, fw_ruleset, ruleset_bytes};
use crate::wire::{ne_bytes_u32, push_bytes, u32_to_ne_bytes};

verus! {

/// The writes that install a rule set, in the order they must happen.
pub struct RulesetUpdate {
    /// Key of the slot that receives the rule set.
    pub slot_key: Vec<u8>,
    /// Image of the rule set.
    pub ruleset_image: Vec<u8>,
    /// Key of the metadata entry.
    pub meta_key: Vec<u8>,
    /// Metadata that points the datapath at the new slot.
    pub meta: fw_meta,
    /// Image of that metadata.
    pub meta_image: Vec<u8>,
}

/// The writes that replace the active rule set `current` by `rs`: `rs` goes
/// into the other slot, then the metadata (key 0) is switched to that slot.
pub fn plan_ruleset_update(current: &fw_meta, rs: &fw_ruleset) -> (r: RulesetUpdate)
    ensures
        r.meta.active_ruleset == current.active_ruleset ^ 1,
        r.slot_key@ == ne_bytes_u32(r.meta.active_ruleset),
        r.ruleset_image@ == ruleset_bytes(rs@),
        r.meta_key@ == ne_bytes_u32(0),
        r.meta_image@ == ne_bytes_u32(r.meta.active_ruleset),
{
    let meta = current.swapped();
    let mut slot_key: Vec<u8> = Vec::new();
    push_bytes(&mut slot_key, &u32_to_ne_bytes(meta.active_ruleset));
    let mut meta_key: Vec<u8> = Vec::new();
    push_bytes(&mut meta_key, &u32_to_ne_bytes(0));
    RulesetUpdate {
        slot_key,
        ruleset_image: rs.to_bytes(),
        meta_key,
        meta,
        meta_image: meta.to_bytes(),
    }
}

} // verus!
