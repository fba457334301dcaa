use vstd::prelude::*;

verus! {

/// Application Identifier (AID) – card.
pub const TAG_4F: u32 = 0x4F;

/// Response Message Template Format 2.
pub const TAG_77: u32 = 0x77;

/// Response Message Template Format 1.
pub const TAG_80: u32 = 0x80;

/// Application Interchange Profile.
pub const TAG_82: u32 = 0x82;

/// Application File Locator.
pub const TAG_94: u32 = 0x94;

/// Processing Options Data Object List (PDOL).
pub const TAG_9F38: u32 = 0x9F38;

/// File Control Information (FCI) Template.
pub const TAG_6F: u32 = 0x6F;

/// FCI Proprietary Template.
pub const TAG_A5: u32 = 0xA5;

/// FCI Issuer Discretionary Data.
pub const TAG_BF0C: u32 = 0xBF0C;

} // verus!
